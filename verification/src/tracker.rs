//! The recorder and replayer: what happens on each window message.
//!
//! While recording, a timer samples the cursor; each move is recorded with
//! its delay, and when the cursor rests inside the box for more than
//! `SETTLE_MILLIS`, the recorded movement is stored and the box jumps to a
//! new random place. While replaying, the timer walks a stored trail: it
//! puts the cursor on each point in turn, waits each point's delay, and at
//! the end clicks (when asked to) or closes the window.
use vstd::prelude::*;
use crate::geometry::{Point, PointAndDt, RectWH, ScreenSize, in_i32, half_toward_zero};
use crate::random::random_i32;
use crate::trail::{NANOS_PER_MILLI, spec_trail_to_store, trail_to_store};

verus! {

/// The id of the one timer that drives recording and replay.
pub const TIMER_ID: usize = 1;

/// Interval, in milliseconds, at which the cursor is sampled while recording.
pub const SAMPLE_MILLIS: u32 = 10;

/// Delay, in milliseconds, before the first replay step.
pub const FIRST_STEP_MILLIS: u32 = 1;

/// How long, in milliseconds, the cursor has to rest in the box before it moves.
pub const SETTLE_MILLIS: u64 = 200;

/// Bounds of the random pause, in milliseconds, between pressing and
/// releasing the button at the end of a replay.
pub const CLICK_MIN_MILLIS: i32 = 100;
pub const CLICK_END_MILLIS: i32 = 400;

/// Size of the box while recording.
pub const TRAINING_BOX_W: i32 = 200;
pub const TRAINING_BOX_H: i32 = 70;

/// Size of the box that follows the cursor while replaying.
pub const MOVING_BOX_SIDE: i32 = 20;

/// A window message, with what the decision needs to know of the world.
/// Times are nanoseconds on a monotonic clock.
#[derive(Debug, Clone, Copy, PartialEq, Eq, Structural)]
pub enum Event {
    /// The window was created; `cursor` and `now` are read when it arrives.
    Create { cursor: Point, now: u64 },
    /// A timer fired; `cursor` and `now` are read when it arrives.
    Timer { timer_id: usize, cursor: Point, now: u64 },
    /// The window needs painting.
    Paint,
    /// The window is being destroyed.
    Destroy,
    /// Any other message.
    Other,
}

/// Something the window procedure does in the world, in order.
#[derive(Debug, Clone, Copy, PartialEq, Eq, Structural)]
pub enum Action {
    /// (Re)arm the timer to fire after `millis` milliseconds.
    SetTimer { millis: u32 },
    /// Stop the timer.
    KillTimer,
    /// Report a cursor move and its delay in whole milliseconds.
    ReportCursor { pos: Point, elapsed_millis: u64 },
    /// Draw a new random place for the box and pass it to `relocate_box`.
    RelocateBox,
    /// Report that the box moved.
    AnnounceNewBox,
    /// Move the window onto `rect`.
    MoveWindow { rect: RectWH },
    /// Put the cursor at `pos`.
    SetCursor { pos: Point },
    /// Press the left mouse button.
    LeftDown,
    /// Release the left mouse button.
    LeftUp,
    /// Close the window.
    DestroyWindow,
    /// Fill the window with the box's colour.
    PaintBox,
    /// Leave the message loop.
    PostQuit,
    /// Hand the message to the default window procedure and answer with its result.
    DefaultProc,
}

/// The recorder's and replayer's state.
pub struct Tracker {
    /// The cursor position last seen while recording.
    pub last_cursor_pos: Point,
    /// When the cursor was last seen to move while recording.
    pub last_time: Option<u64>,
    /// Where the box is.
    pub box_pos: RectWH,
    /// The size of the virtual screen.
    pub screen_size: ScreenSize,
    /// The moves recorded since the box last moved, with their delays in nanoseconds.
    pub recorded_movement: Vec<(Point, u64)>,
    /// The movement being replayed (start, target); `None` while recording.
    pub need_movement: Option<(Point, Point)>,
    /// The trail being replayed.
    pub curr_movement_trail: Vec<PointAndDt>,
    /// The trail point the replay is at.
    pub cur_idx: usize,
    /// Whether the replay ends with a click.
    pub need_click: bool,
    /// Whether the button is down and has to be released.
    pub need_up: bool,
}

/// The tracker's state as plain values.
pub struct TrackerView {
    pub last_cursor_pos: Point,
    pub last_time: Option<u64>,
    pub box_pos: RectWH,
    pub screen_size: ScreenSize,
    pub recorded_movement: Seq<(Point, u64)>,
    pub need_movement: Option<(Point, Point)>,
    pub curr_movement_trail: Seq<PointAndDt>,
    pub cur_idx: int,
    pub need_click: bool,
    pub need_up: bool,
}

impl View for Tracker {
    type V = TrackerView;

    open spec fn view(&self) -> TrackerView {
        TrackerView {
            last_cursor_pos: self.last_cursor_pos,
            last_time: self.last_time,
            box_pos: self.box_pos,
            screen_size: self.screen_size,
            recorded_movement: self.recorded_movement@,
            need_movement: self.need_movement,
            curr_movement_trail: self.curr_movement_trail@,
            cur_idx: self.cur_idx as int,
            need_click: self.need_click,
            need_up: self.need_up,
        }
    }
}

/// Nanoseconds from `last` to `now`; zero where the clock seems to go back,
/// as subtracting `Instant`s saturates.
pub open spec fn elapsed(last: u64, now: u64) -> u64 {
    if now >= last {
        (now - last) as u64
    } else {
        0
    }
}

/// The trail point at `i` as a position.
pub open spec fn trail_point(trail: Seq<PointAndDt>, i: int) -> Point {
    Point { x: trail[i].x, y: trail[i].y }
}

/// On window creation: while recording, start from the current cursor and
/// time and sample every `SAMPLE_MILLIS`; while replaying, take the first
/// step at once.
pub open spec fn spec_on_create(m: TrackerView, cursor: Point, now: u64) -> (TrackerView, Seq<Action>) {
    if m.need_movement is None {
        (
            TrackerView { last_time: Some(now), last_cursor_pos: cursor, ..m },
            seq![Action::SetTimer { millis: SAMPLE_MILLIS }],
        )
    } else {
        (m, seq![Action::SetTimer { millis: FIRST_STEP_MILLIS }])
    }
}

/// A recording tick: a moved cursor is recorded with its delay; a cursor
/// that rests inside the box for more than `SETTLE_MILLIS` moves the box.
pub open spec fn spec_record_tick(m: TrackerView, cursor: Point, now: u64) -> (TrackerView, Seq<Action>) {
    let delta = elapsed(m.last_time->0, now);
    if cursor != m.last_cursor_pos {
        (
            TrackerView {
                last_cursor_pos: cursor,
                last_time: Some(now),
                recorded_movement: m.recorded_movement.push((cursor, delta)),
                ..m
            },
            seq![Action::ReportCursor { pos: cursor, elapsed_millis: delta / NANOS_PER_MILLI }],
        )
    } else if m.box_pos.spec_contains(cursor) && delta / NANOS_PER_MILLI > SETTLE_MILLIS {
        (m, seq![Action::RelocateBox])
    } else {
        (m, seq![])
    }
}

/// A replay tick: release the button if it is down; otherwise put the
/// cursor (and the box) on the current trail point, then wait for the next
/// point, or at the end press the button for `click_delay` milliseconds or
/// close the window.
pub open spec fn spec_replay_tick(m: TrackerView, click_delay: u32) -> (TrackerView, Seq<Action>) {
    let trail = m.curr_movement_trail;
    if m.need_up {
        (m, seq![Action::KillTimer, Action::LeftUp, Action::DestroyWindow])
    } else if m.cur_idx >= trail.len() {
        (m, seq![Action::KillTimer, Action::DestroyWindow])
    } else {
        let p = trail_point(trail, m.cur_idx);
        let b = m.box_pos.spec_centered_on(p);
        let moved = TrackerView { box_pos: b, ..m };
        let acts = seq![
            Action::KillTimer,
            Action::SetCursor { pos: p },
            Action::MoveWindow { rect: b },
        ];
        if m.cur_idx + 1 >= trail.len() {
            if m.need_click {
                (
                    TrackerView { need_up: true, ..moved },
                    acts + seq![Action::LeftDown, Action::SetTimer { millis: click_delay }],
                )
            } else {
                (moved, acts + seq![Action::DestroyWindow])
            }
        } else {
            (
                TrackerView { cur_idx: m.cur_idx + 1, ..moved },
                acts + seq![Action::SetTimer { millis: trail[m.cur_idx + 1].dt as u32 }],
            )
        }
    }
}

/// The new state and the actions for a message; `click_delay` is the
/// random pause of a final click, where there is one.
pub open spec fn spec_step(m: TrackerView, ev: Event, click_delay: u32) -> (TrackerView, Seq<Action>) {
    match ev {
        Event::Create { cursor, now } => spec_on_create(m, cursor, now),
        Event::Timer { timer_id, cursor, now } => {
            if timer_id != TIMER_ID {
                (m, seq![])
            } else if m.need_movement is None {
                spec_record_tick(m, cursor, now)
            } else {
                spec_replay_tick(m, click_delay)
            }
        },
        Event::Paint => (m, seq![Action::PaintBox]),
        Event::Destroy => (m, seq![Action::PostQuit]),
        Event::Other => (m, seq![Action::DefaultProc]),
    }
}

/// The message ends a replay with a click, which waits a random pause.
pub open spec fn draws_click_delay(m: TrackerView, ev: Event) -> bool {
    &&& ev matches Event::Timer { timer_id, .. }
    &&& timer_id == TIMER_ID
    &&& m.need_movement is Some
    &&& !m.need_up
    &&& m.cur_idx < m.curr_movement_trail.len()
    &&& m.cur_idx + 1 >= m.curr_movement_trail.len()
    &&& m.need_click
}

/// What a step does: `spec_step`, where a final click's pause is some
/// value in `CLICK_MIN_MILLIS..CLICK_END_MILLIS`.
pub open spec fn step_relation(m: TrackerView, ev: Event, m2: TrackerView, acts: Seq<Action>) -> bool {
    if draws_click_delay(m, ev) {
        &&& acts.len() > 0
        &&& acts.last() matches Action::SetTimer { millis }
        &&& CLICK_MIN_MILLIS <= millis < CLICK_END_MILLIS
        &&& (m2, acts) == spec_step(m, ev, millis)
    } else {
        (m2, acts) == spec_step(m, ev, 0)
    }
}

/// The message can be handled in `i32` arithmetic and with the values the
/// handling reads: a recording tick needs the time of the last move, and
/// when the cursor rests, a box that `contains` can test it against; a
/// replay step needs the box
/// centred on the trail point to fit.
pub open spec fn step_defined(m: TrackerView, ev: Event) -> bool {
    match ev {
        Event::Timer { timer_id, cursor, now } => {
            timer_id == TIMER_ID ==> if m.need_movement is None {
                &&& m.last_time is Some
                &&& cursor == m.last_cursor_pos ==> m.box_pos.contains_defined(cursor)
            } else {
                (!m.need_up && 0 <= m.cur_idx < m.curr_movement_trail.len())
                    ==> m.box_pos.can_center_on(trail_point(m.curr_movement_trail, m.cur_idx))
            }
        },
        _ => true,
    }
}

/// A random place for the box can be drawn: the box is narrower and lower
/// than the screen.
pub open spec fn can_draw_box(m: TrackerView) -> bool {
    &&& in_i32(m.screen_size.cx - m.box_pos.w)
    &&& in_i32(m.screen_size.cy - m.box_pos.h)
    &&& m.screen_size.cx - m.box_pos.w > 0
    &&& m.screen_size.cy - m.box_pos.h > 0
}

/// The box that a drawn corner gives: none where the corner lies in the
/// current box (the draw is then repeated), else the box moved there.
pub open spec fn spec_candidate_box(b: RectWH, corner: Point) -> Option<RectWH> {
    if b.spec_contains(corner) {
        None
    } else {
        Some(RectWH { x: corner.x, y: corner.y, w: b.w, h: b.h })
    }
}

/// The state at start-up: nothing recorded, nothing to replay, an empty
/// box at the origin.
pub open spec fn initial_view(screen_size: ScreenSize) -> TrackerView {
    TrackerView {
        last_cursor_pos: Point { x: 0, y: 0 },
        last_time: None,
        box_pos: RectWH { x: 0, y: 0, w: 0, h: 0 },
        screen_size,
        recorded_movement: Seq::empty(),
        need_movement: None,
        curr_movement_trail: Seq::empty(),
        cur_idx: 0,
        need_click: false,
        need_up: false,
    }
}

impl Tracker {
    /// The state at start-up, on a screen of the given size.
    pub fn new(screen_size: ScreenSize) -> (t: Tracker)
        ensures
            t@ == initial_view(screen_size),
    {
        Tracker {
            last_cursor_pos: Point { x: 0, y: 0 },
            last_time: None,
            box_pos: RectWH { x: 0, y: 0, w: 0, h: 0 },
            screen_size,
            recorded_movement: Vec::new(),
            need_movement: None,
            curr_movement_trail: Vec::new(),
            cur_idx: 0,
            need_click: false,
            need_up: false,
        }
    }

    /// The state for recording: the start-up state with the training box's
    /// size, still at the origin until a random place is drawn for it.
    pub fn for_training(screen_size: ScreenSize) -> (t: Tracker)
        ensures
            t@ == (TrackerView {
                box_pos: RectWH { x: 0, y: 0, w: TRAINING_BOX_W, h: TRAINING_BOX_H },
                ..initial_view(screen_size)
            }),
            t@.screen_size == screen_size,
            t@.need_movement is None,
            t@.recorded_movement.len() == 0,
    {
        let mut t = Tracker::new(screen_size);
        t.box_pos.w = TRAINING_BOX_W;
        t.box_pos.h = TRAINING_BOX_H;
        t
    }

    /// The state for replaying `trail` from `from` to `to`: a small box
    /// centred on `from`, the trail at its start.
    pub fn for_move(
        screen_size: ScreenSize,
        from: Point,
        to: Point,
        need_click: bool,
        trail: Vec<PointAndDt>,
    ) -> (t: Tracker)
        requires
            in_i32(from.x - MOVING_BOX_SIDE / 2),
            in_i32(from.y - MOVING_BOX_SIDE / 2),
        ensures
            t@ == (TrackerView {
                box_pos: RectWH {
                    x: (from.x - MOVING_BOX_SIDE / 2) as i32,
                    y: (from.y - MOVING_BOX_SIDE / 2) as i32,
                    w: MOVING_BOX_SIDE,
                    h: MOVING_BOX_SIDE,
                },
                need_movement: Some((from, to)),
                curr_movement_trail: trail@,
                need_click,
                ..initial_view(screen_size)
            }),
    {
        let mut t = Tracker::new(screen_size);
        t.box_pos.w = MOVING_BOX_SIDE;
        t.box_pos.h = MOVING_BOX_SIDE;
        t.need_movement = Some((from, to));
        t.box_pos.track_pos(from);
        t.curr_movement_trail = trail;
        t.need_click = need_click;
        t
    }

    /// A random corner for the box, anywhere the whole box stays on screen.
    pub fn random_corner(&self) -> (p: Point)
        requires
            can_draw_box(self@),
        ensures
            0 <= p.x < self.screen_size.cx - self.box_pos.w,
            0 <= p.y < self.screen_size.cy - self.box_pos.h,
    {
        let x = random_i32(0, self.screen_size.cx - self.box_pos.w);
        let y = random_i32(0, self.screen_size.cy - self.box_pos.h);
        Point { x, y }
    }

    /// The box placed at `corner`, unless `corner` lies in the current box.
    pub fn candidate_box(&self, corner: Point) -> (r: Option<RectWH>)
        requires
            self.box_pos.contains_defined(corner),
        ensures
            r == spec_candidate_box(self.box_pos, corner),
    {
        if self.box_pos.contains(corner) {
            None
        } else {
            Some(RectWH { x: corner.x, y: corner.y, w: self.box_pos.w, h: self.box_pos.h })
        }
    }

    /// Moves the box to `new_box`, which the recorder drew after the cursor
    /// came to rest in the old one. Returns the file name and contents
    /// under which the movement recorded so far is to be stored, where it
    /// is long enough, and then what to do; the recorded movement starts
    /// afresh.
    pub fn relocate_box(&mut self, new_box: RectWH) -> (r: (
        Option<(Vec<u8>, Vec<PointAndDt>)>,
        Vec<Action>,
    ))
        ensures
            final(self)@ == (TrackerView {
                box_pos: new_box,
                recorded_movement: Seq::empty(),
                ..old(self)@
            }),
            r.0 is None <==> spec_trail_to_store(old(self)@.recorded_movement) is None,
            r.0 matches Some((name, trail)) ==> spec_trail_to_store(
                old(self)@.recorded_movement,
            ) == Some((name@, trail@)),
            r.1@ == seq![Action::AnnounceNewBox, Action::MoveWindow { rect: new_box }],
    {
        self.box_pos = new_box;
        let stored = trail_to_store(self.recorded_movement.as_slice());
        self.recorded_movement.clear();
        let mut acts: Vec<Action> = Vec::new();
        acts.push(Action::AnnounceNewBox);
        acts.push(Action::MoveWindow { rect: new_box });
        assert(acts@ =~= seq![Action::AnnounceNewBox, Action::MoveWindow { rect: new_box }]);
        (stored, acts)
    }

    /// Whether `step` can be asked to handle `ev` now.
    pub fn can_step(&self, ev: Event) -> (ok: bool)
        ensures
            ok == step_defined(self@, ev),
    {
        match ev {
            Event::Timer { timer_id, cursor, now: _ } => {
                if timer_id != TIMER_ID {
                    true
                } else if self.need_movement.is_none() {
                    self.last_time.is_some() && (cursor != self.last_cursor_pos
                        || self.box_pos.contains_checkable(cursor))
                } else if self.need_up || self.cur_idx >= self.curr_movement_trail.len() {
                    true
                } else {
                    let p = self.curr_movement_trail[self.cur_idx];
                    let cx = p.x as i64 - (self.box_pos.w / 2) as i64;
                    let cy = p.y as i64 - (self.box_pos.h / 2) as i64;
                    i32::MIN as i64 <= cx && cx <= i32::MAX as i64 && i32::MIN as i64 <= cy && cy
                        <= i32::MAX as i64
                }
            },
            _ => true,
        }
    }

    /// Handles a window message: updates the state and returns, in order,
    /// what the window procedure does in the world.
    pub fn step(&mut self, ev: Event) -> (acts: Vec<Action>)
        requires
            step_defined(old(self)@, ev),
        ensures
            step_relation(old(self)@, ev, final(self)@, acts@),
    {
        let mut acts: Vec<Action> = Vec::new();
        match ev {
            Event::Create { cursor, now } => {
                if self.need_movement.is_none() {
                    self.last_time = Some(now);
                    self.last_cursor_pos = cursor;
                    acts.push(Action::SetTimer { millis: SAMPLE_MILLIS });
                } else {
                    acts.push(Action::SetTimer { millis: FIRST_STEP_MILLIS });
                }
            },
            Event::Timer { timer_id, cursor, now } => {
                if timer_id == TIMER_ID {
                    if self.need_movement.is_none() {
                        self.record_tick(cursor, now, &mut acts);
                    } else {
                        self.replay_tick(&mut acts);
                    }
                }
            },
            Event::Paint => {
                acts.push(Action::PaintBox);
            },
            Event::Destroy => {
                acts.push(Action::PostQuit);
            },
            Event::Other => {
                acts.push(Action::DefaultProc);
            },
        }
        proof {
            if !(ev matches Event::Timer { timer_id, .. } && timer_id == TIMER_ID) {
                assert(acts@ =~= spec_step(old(self)@, ev, 0).1);
            }
        }
        acts
    }

    /// A recording tick (see `spec_record_tick`).
    fn record_tick(&mut self, cursor: Point, now: u64, acts: &mut Vec<Action>)
        requires
            old(acts)@.len() == 0,
            old(self).last_time is Some,
            cursor == old(self).last_cursor_pos ==> old(self).box_pos.contains_defined(cursor),
        ensures
            (final(self)@, final(acts)@) == spec_record_tick(old(self)@, cursor, now),
    {
        let last = match self.last_time {
            Some(t) => t,
            None => 0,
        };
        let delta: u64 = if now >= last {
            now - last
        } else {
            0
        };
        if cursor != self.last_cursor_pos {
            acts.push(Action::ReportCursor { pos: cursor, elapsed_millis: delta / NANOS_PER_MILLI });
            self.last_cursor_pos = cursor;
            self.last_time = Some(now);
            self.recorded_movement.push((cursor, delta));
            assert(acts@ =~= seq![
                Action::ReportCursor { pos: cursor, elapsed_millis: delta / NANOS_PER_MILLI },
            ]);
        } else if self.box_pos.contains(cursor) && delta / NANOS_PER_MILLI > SETTLE_MILLIS {
            acts.push(Action::RelocateBox);
            assert(acts@ =~= seq![Action::RelocateBox]);
        } else {
            assert(acts@ =~= Seq::<Action>::empty());
        }
    }

    /// A replay tick (see `spec_replay_tick`); a final click draws its
    /// pause at random.
    fn replay_tick(&mut self, acts: &mut Vec<Action>)
        requires
            old(acts)@.len() == 0,
            (!old(self).need_up && old(self).cur_idx < old(self).curr_movement_trail.len())
                ==> old(self).box_pos.can_center_on(
                trail_point(old(self).curr_movement_trail@, old(self).cur_idx as int),
            ),
        ensures
            ({
                let m = old(self)@;
                let ends_with_click = !m.need_up && m.cur_idx < m.curr_movement_trail.len()
                    && m.cur_idx + 1 >= m.curr_movement_trail.len() && m.need_click;
                if ends_with_click {
                    &&& final(acts)@.len() > 0
                    &&& final(acts)@.last() matches Action::SetTimer { millis }
                    &&& CLICK_MIN_MILLIS <= millis < CLICK_END_MILLIS
                    &&& (final(self)@, final(acts)@) == spec_replay_tick(m, millis)
                } else {
                    (final(self)@, final(acts)@) == spec_replay_tick(m, 0)
                }
            }),
    {
        let ghost m = self@;
        acts.push(Action::KillTimer);
        if self.need_up {
            acts.push(Action::LeftUp);
            acts.push(Action::DestroyWindow);
            assert(acts@ =~= seq![Action::KillTimer, Action::LeftUp, Action::DestroyWindow]);
            return;
        }
        let len = self.curr_movement_trail.len();
        if self.cur_idx >= len {
            acts.push(Action::DestroyWindow);
            assert(acts@ =~= seq![Action::KillTimer, Action::DestroyWindow]);
            return;
        }
        let this_movement = self.curr_movement_trail[self.cur_idx];
        let p = Point { x: this_movement.x, y: this_movement.y };
        acts.push(Action::SetCursor { pos: p });
        self.box_pos.track_pos(p);
        let b = self.box_pos;
        acts.push(Action::MoveWindow { rect: b });
        let ghost first_acts = acts@;
        assert(first_acts =~= seq![
            Action::KillTimer,
            Action::SetCursor { pos: p },
            Action::MoveWindow { rect: b },
        ]);
        if self.cur_idx + 1 >= len {
            if self.need_click {
                acts.push(Action::LeftDown);
                self.need_up = true;
                let pause = random_i32(CLICK_MIN_MILLIS, CLICK_END_MILLIS) as u32;
                acts.push(Action::SetTimer { millis: pause });
                assert(acts@ =~= first_acts + seq![
                    Action::LeftDown,
                    Action::SetTimer { millis: pause },
                ]);
            } else {
                acts.push(Action::DestroyWindow);
                assert(acts@ =~= first_acts + seq![Action::DestroyWindow]);
            }
            return;
        }
        self.cur_idx = self.cur_idx + 1;
        let next_movement = self.curr_movement_trail[self.cur_idx];
        #[verifier::truncate]
        let wait = next_movement.dt as u32;
        acts.push(Action::SetTimer { millis: wait });
        assert(acts@ =~= first_acts + seq![Action::SetTimer { millis: wait }]);
    }
}

/// No message changes the box's size, the screen size, whether the
/// tracker records or replays (and what it replays), or whether the replay
/// ends with a click.
pub proof fn lemma_step_keeps_setup(m: TrackerView, ev: Event, click_delay: u32)
    ensures
        ({
            let n = spec_step(m, ev, click_delay).0;
            &&& n.box_pos.w == m.box_pos.w
            &&& n.box_pos.h == m.box_pos.h
            &&& n.screen_size == m.screen_size
            &&& n.need_movement == m.need_movement
            &&& n.curr_movement_trail == m.curr_movement_trail
            &&& n.need_click == m.need_click
        }),
{
}

/// While recording, a message never moves the box, never touches the
/// replay, and either leaves the recorded movement as it is or appends one
/// sample: the cursor's new position, which becomes the last one seen.
pub proof fn lemma_recording_only_appends(m: TrackerView, ev: Event, click_delay: u32)
    requires
        m.need_movement is None,
    ensures
        ({
            let n = spec_step(m, ev, click_delay).0;
            &&& n.box_pos == m.box_pos
            &&& n.cur_idx == m.cur_idx
            &&& n.need_up == m.need_up
            &&& (n.recorded_movement == m.recorded_movement || (n.recorded_movement.len()
                == m.recorded_movement.len() + 1 && n.recorded_movement.drop_last()
                == m.recorded_movement && n.recorded_movement.last().0 == n.last_cursor_pos))
        }),
{
    let n = spec_step(m, ev, click_delay).0;
    if n.recorded_movement != m.recorded_movement {
        assert(n.recorded_movement.drop_last() =~= m.recorded_movement);
    }
}

/// While replaying, a message never touches the recording; the replay
/// moves on by at most one trail point and never past the last one; and
/// once the button is down, nothing changes any more.
pub proof fn lemma_replay_stays_on_trail(m: TrackerView, ev: Event, click_delay: u32)
    requires
        m.need_movement is Some,
        0 <= m.cur_idx < m.curr_movement_trail.len(),
    ensures
        ({
            let n = spec_step(m, ev, click_delay).0;
            &&& n.recorded_movement == m.recorded_movement
            &&& n.last_cursor_pos == m.last_cursor_pos
            &&& n.last_time == m.last_time
            &&& (n.cur_idx == m.cur_idx || n.cur_idx == m.cur_idx + 1)
            &&& 0 <= n.cur_idx < n.curr_movement_trail.len()
            &&& m.need_up ==> n == m
        }),
{
}

/// A box placed at a corner drawn by `random_corner` and accepted by
/// `candidate_box` has the old box's size, lies wholly on screen, and its
/// corner lies outside the old box.
pub proof fn lemma_new_box_on_screen(m: TrackerView, corner: Point)
    requires
        0 <= corner.x < m.screen_size.cx - m.box_pos.w,
        0 <= corner.y < m.screen_size.cy - m.box_pos.h,
    ensures
        spec_candidate_box(m.box_pos, corner) matches Some(b) ==> {
            &&& b.w == m.box_pos.w && b.h == m.box_pos.h
            &&& 0 <= b.x && b.x + b.w < m.screen_size.cx
            &&& 0 <= b.y && b.y + b.h < m.screen_size.cy
            &&& !m.box_pos.spec_contains(Point { x: b.x, y: b.y })
        },
{
}

/// A recording tick, in terms of the cursor and the clock: where the cursor
/// moved in either coordinate, the move is reported with its whole
/// milliseconds and appended, with the nanoseconds since the last move (none
/// if the clock went back), to the recorded movement, and becomes the last
/// position seen. Where it did not move, nothing is recorded; and the box
/// is relocated exactly when the cursor rests inside it on both axes
/// (`x <= cursor.x < x + w` and `y <= cursor.y < y + h`) and more than
/// 200 ms have passed since the last move.
pub proof fn lemma_recording_tick(m: TrackerView, cursor: Point, now: u64, click_delay: u32)
    requires
        m.need_movement is None,
        m.last_time is Some,
    ensures
        ({
            let last = m.last_time->0;
            let delta: int = if now >= last { now - last } else { 0 };
            let (n, acts) = spec_step(
                m,
                Event::Timer { timer_id: TIMER_ID, cursor, now },
                click_delay,
            );
            &&& (cursor.x != m.last_cursor_pos.x || cursor.y != m.last_cursor_pos.y) ==> {
                &&& n.recorded_movement.len() == m.recorded_movement.len() + 1
                &&& n.recorded_movement.take(m.recorded_movement.len() as int) == m.recorded_movement
                &&& n.recorded_movement.last().0 == cursor
                &&& n.recorded_movement.last().1 == delta
                &&& n.last_cursor_pos == cursor
                &&& n.last_time == Some(now)
                &&& acts == seq![Action::ReportCursor { pos: cursor, elapsed_millis: (delta / 1_000_000) as u64 }]
            }
            &&& (cursor.x == m.last_cursor_pos.x && cursor.y == m.last_cursor_pos.y) ==> {
                &&& n == m
                &&& acts.contains(Action::RelocateBox) == (m.box_pos.x <= cursor.x < m.box_pos.x
                    + m.box_pos.w && m.box_pos.y <= cursor.y < m.box_pos.y + m.box_pos.h
                    && delta > 200_999_999)
                &&& acts.len() <= 1
            }
        }),
{
    let last = m.last_time->0;
    let delta: int = if now >= last { now - last } else { 0 };
    let (n, acts) = spec_step(m, Event::Timer { timer_id: TIMER_ID, cursor, now }, click_delay);
    if cursor.x != m.last_cursor_pos.x || cursor.y != m.last_cursor_pos.y {
        assert(n.recorded_movement.take(m.recorded_movement.len() as int) =~= m.recorded_movement);
    } else {
        assert(cursor == m.last_cursor_pos);
        if acts.contains(Action::RelocateBox) {
            let k = choose|k: int| 0 <= k < acts.len() && acts[k] == Action::RelocateBox;
        }
        if m.box_pos.spec_contains(cursor) && (delta as u64) / NANOS_PER_MILLI > SETTLE_MILLIS {
            assert(acts[0] == Action::RelocateBox);
        }
    }
}

/// Runs one timer tick per reading (cursor, time) from `m`, a final click
/// pausing `click_delay`; gives the state after the last tick and all the
/// actions, in order.
pub open spec fn run_ticks(m: TrackerView, readings: Seq<(Point, u64)>, click_delay: u32) -> (
    TrackerView,
    Seq<Action>,
)
    decreases readings.len(),
{
    if readings.len() == 0 {
        (m, seq![])
    } else {
        let ev = Event::Timer { timer_id: TIMER_ID, cursor: readings[0].0, now: readings[0].1 };
        let (m1, a1) = spec_step(m, ev, click_delay);
        let (m2, a2) = run_ticks(m1, readings.skip(1), click_delay);
        (m2, a1 + a2)
    }
}

/// What the replay of `m`'s trail does at point `i`: stop the timer, put
/// the cursor there, move the box there; then wait the next point's delay,
/// or at the last point press the button (and wait `click_delay`) or close
/// the window.
pub open spec fn playback_point_actions(m: TrackerView, click_delay: u32, i: int) -> Seq<Action> {
    let r = m.curr_movement_trail;
    let p = trail_point(r, i);
    seq![
        Action::KillTimer,
        Action::SetCursor { pos: p },
        Action::MoveWindow { rect: m.box_pos.spec_centered_on(p) },
    ] + if i + 1 < r.len() {
        seq![Action::SetTimer { millis: r[i + 1].dt as u32 }]
    } else if m.need_click {
        seq![Action::LeftDown, Action::SetTimer { millis: click_delay }]
    } else {
        seq![Action::DestroyWindow]
    }
}

/// The replay of `m`'s trail from point `i` on; after a press, the release
/// and the closing of the window.
pub open spec fn playback_from(m: TrackerView, click_delay: u32, i: int) -> Seq<Action>
    decreases m.curr_movement_trail.len() - i,
{
    if i >= m.curr_movement_trail.len() {
        if m.need_click {
            seq![Action::KillTimer, Action::LeftUp, Action::DestroyWindow]
        } else {
            seq![]
        }
    } else if i < 0 {
        seq![]
    } else {
        playback_point_actions(m, click_delay, i) + playback_from(m, click_delay, i + 1)
    }
}

/// How many timer ticks a whole replay of `m`'s trail takes: one per
/// point, and one more to release the button after a click.
pub open spec fn playback_ticks(m: TrackerView) -> nat {
    m.curr_movement_trail.len() + if m.need_click {
        1nat
    } else {
        0nat
    }
}

/// The replay from point `i` on, for a state `s` that is at point `i` of
/// `m`'s trail with the button up.
proof fn lemma_playback_from(
    m: TrackerView,
    s: TrackerView,
    readings: Seq<(Point, u64)>,
    click_delay: u32,
    i: int,
)
    requires
        s.need_movement is Some,
        s.curr_movement_trail == m.curr_movement_trail,
        s.need_click == m.need_click,
        s.box_pos.w == m.box_pos.w,
        s.box_pos.h == m.box_pos.h,
        s.cur_idx == i,
        !s.need_up,
        0 <= i < m.curr_movement_trail.len(),
        readings.len() == m.curr_movement_trail.len() - i + if m.need_click {
            1int
        } else {
            0int
        },
    ensures
        run_ticks(s, readings, click_delay).1 == playback_from(m, click_delay, i),
        run_ticks(s, readings, click_delay).0.cur_idx == m.curr_movement_trail.len() - 1,
        run_ticks(s, readings, click_delay).0.need_up == m.need_click,
    decreases m.curr_movement_trail.len() - i,
{
    let r = m.curr_movement_trail;
    let ev = Event::Timer { timer_id: TIMER_ID, cursor: readings[0].0, now: readings[0].1 };
    let (s1, a1) = spec_step(s, ev, click_delay);
    let rest = readings.skip(1);
    let p = trail_point(r, i);
    assert(s.box_pos.spec_centered_on(p) == m.box_pos.spec_centered_on(p));
    assert(a1 == playback_point_actions(m, click_delay, i));
    assert(run_ticks(s, readings, click_delay) == (
        run_ticks(s1, rest, click_delay).0,
        a1 + run_ticks(s1, rest, click_delay).1,
    ));
    if i + 1 < r.len() {
        lemma_playback_from(m, s1, rest, click_delay, i + 1);
        assert(playback_from(m, click_delay, i) == a1 + playback_from(m, click_delay, i + 1));
    } else if m.need_click {
        let ev2 = Event::Timer { timer_id: TIMER_ID, cursor: rest[0].0, now: rest[0].1 };
        let (s2, a2) = spec_step(s1, ev2, click_delay);
        assert(s2 == s1);
        assert(rest.skip(1).len() == 0);
        assert(run_ticks(s2, rest.skip(1), click_delay) == (s2, Seq::<Action>::empty()));
        assert(run_ticks(s1, rest, click_delay) == (s2, a2 + Seq::<Action>::empty()));
        assert(a2 + Seq::<Action>::empty() =~= a2);
        assert(playback_from(m, click_delay, i + 1) == a2);
        assert(playback_from(m, click_delay, i) == a1 + a2);
    } else {
        assert(rest.len() == 0);
        assert(run_ticks(s1, rest, click_delay) == (s1, Seq::<Action>::empty()));
        assert(a1 + Seq::<Action>::empty() =~= a1);
        assert(playback_from(m, click_delay, i + 1) == Seq::<Action>::empty());
        assert(playback_from(m, click_delay, i) =~= a1);
    }
}

/// A whole replay: after the window is created (which arms the timer for
/// the first step), as many timer ticks as the replay takes put the cursor
/// on each trail point in order, moving the box along, wait each next
/// point's delay between them, and end either by pressing the button,
/// waiting, releasing it and closing the window, or by closing the window.
/// The button is released only after it was pressed.
pub proof fn lemma_playback(
    m: TrackerView,
    created: Event,
    readings: Seq<(Point, u64)>,
    click_delay: u32,
)
    requires
        m.need_movement is Some,
        m.curr_movement_trail.len() >= 1,
        m.cur_idx == 0,
        !m.need_up,
        created is Create,
        readings.len() == playback_ticks(m),
    ensures
        spec_step(m, created, click_delay) == (m, seq![Action::SetTimer { millis: FIRST_STEP_MILLIS }]),
        run_ticks(m, readings, click_delay).1 == playback_from(m, click_delay, 0),
        run_ticks(m, readings, click_delay).0.cur_idx == m.curr_movement_trail.len() - 1,
        run_ticks(m, readings, click_delay).0.need_up == m.need_click,
{
    lemma_playback_from(m, m, readings, click_delay, 0);
}

/// While replaying a trail, whatever pause a final click draws: the
/// position stays on the trail and moves on by at most one point; the
/// trail, the movement and whether to click never change; the recording is
/// untouched; and a pressed button stays pressed.
pub proof fn lemma_step_in_replay(m: TrackerView, ev: Event, m2: TrackerView, acts: Seq<Action>)
    requires
        step_relation(m, ev, m2, acts),
        m.need_movement is Some,
        0 <= m.cur_idx < m.curr_movement_trail.len(),
    ensures
        0 <= m2.cur_idx < m2.curr_movement_trail.len(),
        m2.cur_idx == m.cur_idx || m2.cur_idx == m.cur_idx + 1,
        m2.curr_movement_trail == m.curr_movement_trail,
        m2.need_movement == m.need_movement,
        m2.need_click == m.need_click,
        m2.recorded_movement == m.recorded_movement,
        m.need_up ==> m2.need_up,
{
    let d: u32 = if draws_click_delay(m, ev) {
        match acts.last() {
            Action::SetTimer { millis } => millis,
            _ => 0,
        }
    } else {
        0
    };
    assert((m2, acts) == spec_step(m, ev, d));
    lemma_replay_stays_on_trail(m, ev, d);
    lemma_step_keeps_setup(m, ev, d);
}

/// Where the replay heads: `(x, y)`, counted from the foreground window's
/// top-left corner when one is given.
pub fn move_target(x: i32, y: i32, window_origin: Option<Point>) -> (p: Point)
    requires
        window_origin matches Some(o) ==> in_i32(x + o.x) && in_i32(y + o.y),
    ensures
        p == (match window_origin {
            Some(o) => Point { x: (x + o.x) as i32, y: (y + o.y) as i32 },
            None => Point { x, y },
        }),
{
    match window_origin {
        Some(o) => Point { x: x + o.x, y: y + o.y },
        None => Point { x, y },
    }
}

} // verus!
