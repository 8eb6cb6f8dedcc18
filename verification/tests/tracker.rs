use mouse_trail::geometry::{Point, PointAndDt, RectWH, ScreenSize};
use mouse_trail::tracker::{move_target, Action, Event, Tracker, TIMER_ID};

const SCREEN: ScreenSize = ScreenSize { cx: 1920, cy: 1080 };
const MS: u64 = 1_000_000;

fn p(x: i32, y: i32) -> Point {
    Point { x, y }
}

fn timer(t: &mut Tracker, cursor: Point, now: u64) -> Vec<Action> {
    let ev = Event::Timer { timer_id: TIMER_ID, cursor, now };
    assert!(t.can_step(ev));
    t.step(ev)
}

#[test]
fn recording_starts_sampling_on_create() {
    let mut t = Tracker::for_training(SCREEN);
    assert_eq!(t.box_pos, RectWH { x: 0, y: 0, w: 200, h: 70 });
    let acts = t.step(Event::Create { cursor: p(3, 4), now: 7 });
    assert_eq!(acts, vec![Action::SetTimer { millis: 10 }]);
    assert_eq!(t.last_cursor_pos, p(3, 4));
    assert_eq!(t.last_time, Some(7));
}

#[test]
fn moves_are_recorded_with_their_delay() {
    let mut t = Tracker::for_training(SCREEN);
    t.step(Event::Create { cursor: p(3, 4), now: 0 });
    let acts = timer(&mut t, p(5, 4), 12 * MS + 3);
    assert_eq!(acts, vec![Action::ReportCursor { pos: p(5, 4), elapsed_millis: 12 }]);
    let acts = timer(&mut t, p(6, 4), 20 * MS);
    assert_eq!(acts, vec![Action::ReportCursor { pos: p(6, 4), elapsed_millis: 7 }]);
    assert_eq!(t.recorded_movement, vec![(p(5, 4), 12 * MS + 3), (p(6, 4), 8 * MS - 3)]);
    assert_eq!(t.last_time, Some(20 * MS));
}

#[test]
fn resting_outside_the_box_does_nothing() {
    let mut t = Tracker::for_training(SCREEN);
    t.box_pos = RectWH { x: 100, y: 100, w: 200, h: 70 };
    t.step(Event::Create { cursor: p(3, 4), now: 0 });
    assert_eq!(timer(&mut t, p(3, 4), 1000 * MS), vec![]);
}

#[test]
fn resting_in_the_box_moves_it_after_200ms() {
    let mut t = Tracker::for_training(SCREEN);
    t.box_pos = RectWH { x: 100, y: 100, w: 200, h: 70 };
    t.step(Event::Create { cursor: p(150, 120), now: 0 });
    // exactly 200 ms is not enough
    assert_eq!(timer(&mut t, p(150, 120), 200 * MS + 999_999), vec![]);
    assert_eq!(timer(&mut t, p(150, 120), 201 * MS), vec![Action::RelocateBox]);
}

#[test]
fn clock_going_back_counts_as_no_time() {
    let mut t = Tracker::for_training(SCREEN);
    t.step(Event::Create { cursor: p(1, 1), now: 50 * MS });
    assert_eq!(timer(&mut t, p(2, 2), 10 * MS), vec![Action::ReportCursor { pos: p(2, 2), elapsed_millis: 0 }]);
    assert_eq!(t.recorded_movement, vec![(p(2, 2), 0)]);
}

#[test]
fn relocating_stores_and_clears_the_recording() {
    let mut t = Tracker::for_training(SCREEN);
    t.recorded_movement = vec![(p(1, 2), 3 * MS), (p(4, 5), 6 * MS)];
    let nb = RectWH { x: 500, y: 600, w: 200, h: 70 };
    let (stored, acts) = t.relocate_box(nb);
    let (name, trail) = stored.unwrap();
    assert_eq!(name, b"1-2-4-5.json".to_vec());
    assert_eq!(trail, vec![PointAndDt { x: 1, y: 2, dt: 3 }, PointAndDt { x: 4, y: 5, dt: 6 }]);
    assert_eq!(acts, vec![Action::AnnounceNewBox, Action::MoveWindow { rect: nb }]);
    assert_eq!(t.box_pos, nb);
    assert!(t.recorded_movement.is_empty());
}

#[test]
fn relocating_after_one_sample_stores_nothing() {
    let mut t = Tracker::for_training(SCREEN);
    t.recorded_movement = vec![(p(1, 2), 3 * MS)];
    let (stored, _) = t.relocate_box(RectWH { x: 1, y: 1, w: 200, h: 70 });
    assert!(stored.is_none());
    assert!(t.recorded_movement.is_empty());
}

#[test]
fn random_box_stays_on_screen() {
    let mut t = Tracker::for_training(ScreenSize { cx: 300, cy: 100 });
    t.box_pos = RectWH { x: 0, y: 0, w: 200, h: 70 };
    for _ in 0..200 {
        let c = t.random_corner();
        assert!(0 <= c.x && c.x < 100, "{:?}", c);
        assert!(0 <= c.y && c.y < 30, "{:?}", c);
    }
}

#[test]
fn candidate_box_rejects_corners_inside_the_old_box() {
    let mut t = Tracker::for_training(SCREEN);
    t.box_pos = RectWH { x: 10, y: 10, w: 200, h: 70 };
    assert_eq!(t.candidate_box(p(10, 10)), None);
    assert_eq!(t.candidate_box(p(209, 79)), None);
    assert_eq!(t.candidate_box(p(210, 10)), Some(RectWH { x: 210, y: 10, w: 200, h: 70 }));
    assert_eq!(t.candidate_box(p(0, 0)), Some(RectWH { x: 0, y: 0, w: 200, h: 70 }));
}

fn replay(need_click: bool) -> Tracker {
    let trail = vec![
        PointAndDt { x: 100, y: 100, dt: 0 },
        PointAndDt { x: 110, y: 105, dt: 16 },
        PointAndDt { x: 130, y: 120, dt: 33 },
    ];
    Tracker::for_move(SCREEN, p(100, 100), p(130, 120), need_click, trail)
}

#[test]
fn replay_setup_centres_small_box_on_start() {
    let t = replay(false);
    assert_eq!(t.box_pos, RectWH { x: 90, y: 90, w: 20, h: 20 });
    assert_eq!(t.need_movement, Some((p(100, 100), p(130, 120))));
    assert_eq!(t.cur_idx, 0);
}

#[test]
fn replay_walks_the_trail_then_closes() {
    let mut t = replay(false);
    assert_eq!(t.step(Event::Create { cursor: p(0, 0), now: 0 }), vec![Action::SetTimer { millis: 1 }]);
    assert_eq!(
        timer(&mut t, p(0, 0), 0),
        vec![
            Action::KillTimer,
            Action::SetCursor { pos: p(100, 100) },
            Action::MoveWindow { rect: RectWH { x: 90, y: 90, w: 20, h: 20 } },
            Action::SetTimer { millis: 16 },
        ]
    );
    assert_eq!(
        timer(&mut t, p(0, 0), 0),
        vec![
            Action::KillTimer,
            Action::SetCursor { pos: p(110, 105) },
            Action::MoveWindow { rect: RectWH { x: 100, y: 95, w: 20, h: 20 } },
            Action::SetTimer { millis: 33 },
        ]
    );
    assert_eq!(
        timer(&mut t, p(0, 0), 0),
        vec![
            Action::KillTimer,
            Action::SetCursor { pos: p(130, 120) },
            Action::MoveWindow { rect: RectWH { x: 120, y: 110, w: 20, h: 20 } },
            Action::DestroyWindow,
        ]
    );
    assert_eq!(t.cur_idx, 2);
    assert!(t.recorded_movement.is_empty());
}

#[test]
fn replay_ends_with_a_click() {
    let mut t = replay(true);
    timer(&mut t, p(0, 0), 0);
    timer(&mut t, p(0, 0), 0);
    let acts = timer(&mut t, p(0, 0), 0);
    assert_eq!(acts.len(), 5);
    assert_eq!(acts[3], Action::LeftDown);
    match acts[4] {
        Action::SetTimer { millis } => assert!((100..400).contains(&millis)),
        other => panic!("unexpected {:?}", other),
    }
    assert!(t.need_up);
    assert_eq!(timer(&mut t, p(0, 0), 0), vec![Action::KillTimer, Action::LeftUp, Action::DestroyWindow]);
}

#[test]
fn replay_of_empty_trail_closes_at_once() {
    let mut t = Tracker::for_move(SCREEN, p(5, 5), p(6, 6), true, Vec::new());
    assert_eq!(timer(&mut t, p(0, 0), 0), vec![Action::KillTimer, Action::DestroyWindow]);
}

#[test]
fn negative_delay_wraps_like_a_cast() {
    let trail = vec![PointAndDt { x: 1, y: 1, dt: 0 }, PointAndDt { x: 2, y: 2, dt: -1 }];
    let mut t = Tracker::for_move(SCREEN, p(1, 1), p(2, 2), false, trail);
    let acts = timer(&mut t, p(0, 0), 0);
    assert_eq!(acts[3], Action::SetTimer { millis: u32::MAX });
}

#[test]
fn other_messages() {
    let mut t = replay(false);
    assert_eq!(t.step(Event::Paint), vec![Action::PaintBox]);
    assert_eq!(t.step(Event::Destroy), vec![Action::PostQuit]);
    assert_eq!(t.step(Event::Other), vec![Action::DefaultProc]);
    assert_eq!(t.step(Event::Timer { timer_id: 2, cursor: p(0, 0), now: 0 }), vec![]);
    assert_eq!(t.cur_idx, 0);
}

#[test]
fn can_step_reports_what_would_overflow() {
    let mut t = Tracker::for_training(SCREEN);
    // no time recorded yet
    assert!(!t.can_step(Event::Timer { timer_id: TIMER_ID, cursor: p(1, 1), now: 0 }));
    t.step(Event::Create { cursor: p(0, 0), now: 0 });
    t.box_pos = RectWH { x: i32::MAX - 5, y: 0, w: 200, h: 70 };
    assert!(!t.can_step(Event::Timer { timer_id: TIMER_ID, cursor: p(0, 0), now: 0 }));
    assert!(t.can_step(Event::Timer { timer_id: TIMER_ID, cursor: p(1, 0), now: 0 }));
    let far = vec![PointAndDt { x: i32::MIN, y: 0, dt: 0 }];
    let r = Tracker::for_move(SCREEN, p(0, 0), p(1, 1), false, far);
    assert!(!r.can_step(Event::Timer { timer_id: TIMER_ID, cursor: p(0, 0), now: 0 }));
}

#[test]
fn target_relative_to_window() {
    assert_eq!(move_target(5, 6, None), p(5, 6));
    assert_eq!(move_target(5, 6, Some(p(100, -20))), p(105, -14));
}

#[test]
fn steps_keep_the_box_size_and_mode() {
    let mut t = Tracker::for_training(SCREEN);
    t.box_pos = RectWH { x: 100, y: 100, w: 200, h: 70 };
    t.step(Event::Create { cursor: p(150, 120), now: 0 });
    for (i, c) in [p(150, 120), p(151, 120), p(151, 120), p(152, 121)].iter().enumerate() {
        let before = t.recorded_movement.len();
        timer(&mut t, *c, (i as u64 + 1) * 300 * MS);
        assert_eq!((t.box_pos.w, t.box_pos.h), (200, 70));
        assert_eq!(t.box_pos, RectWH { x: 100, y: 100, w: 200, h: 70 });
        assert!(t.need_movement.is_none());
        let after = t.recorded_movement.len();
        assert!(after == before || (after == before + 1 && t.recorded_movement[after - 1].0 == t.last_cursor_pos));
    }
    let mut r = replay(true);
    for _ in 0..6 {
        timer(&mut r, p(0, 0), 0);
        assert_eq!((r.box_pos.w, r.box_pos.h), (20, 20));
        assert!(r.cur_idx < r.curr_movement_trail.len());
        assert!(r.recorded_movement.is_empty());
    }
}

#[test]
fn resting_cursor_beside_a_tall_box_is_handled() {
    let mut t = Tracker::for_training(SCREEN);
    t.step(Event::Create { cursor: p(500, 0), now: 0 });
    t.box_pos = RectWH { x: 0, y: i32::MAX - 5, w: 200, h: 70 };
    assert_eq!(timer(&mut t, p(500, 0), 300 * MS), vec![]);
    assert_eq!(t.candidate_box(p(500, 0)), Some(RectWH { x: 500, y: 0, w: 200, h: 70 }));
}
