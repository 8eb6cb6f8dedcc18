//! Trails: turning a recorded movement into the trail that is stored, and
//! choosing, among the stored trails, the one that best fits a movement.
use vstd::prelude::*;
use crate::geometry::{Point, PointAndDt};
use crate::trail_name::{parse_trail_file_name, spec_parse_trail_name, spec_trail_name, trail_file_name};

verus! {

/// Nanoseconds in a millisecond.
pub const NANOS_PER_MILLI: u64 = 1_000_000;

/// One recorded sample as it is stored: its position and the whole
/// milliseconds of its delay, cut to 32 bits as `as i32` cuts them.
pub open spec fn spec_trail_point(sample: (Point, u64)) -> PointAndDt {
    PointAndDt {
        x: sample.0.x,
        y: sample.0.y,
        dt: (sample.1 / NANOS_PER_MILLI) as i32,
    }
}

/// A recorded movement as it is stored, sample by sample.
pub open spec fn spec_stored_trail(recorded: Seq<(Point, u64)>) -> Seq<PointAndDt> {
    recorded.map_values(|sample: (Point, u64)| spec_trail_point(sample))
}

/// What is written when a recorded movement is stored: a movement of fewer
/// than two samples is not stored; otherwise the file is named after its
/// first and last positions and holds every sample.
pub open spec fn spec_trail_to_store(recorded: Seq<(Point, u64)>) -> Option<(Seq<u8>, Seq<PointAndDt>)> {
    if recorded.len() < 2 {
        None
    } else {
        Some((spec_trail_name(recorded[0].0, recorded.last().0), spec_stored_trail(recorded)))
    }
}

/// The file name and the contents under which a recorded movement (samples
/// of positions with their delays in nanoseconds) is stored, or `None`
/// where it is too short to store.
pub fn trail_to_store(recorded: &[(Point, u64)]) -> (r: Option<(Vec<u8>, Vec<PointAndDt>)>)
    ensures
        r is None <==> spec_trail_to_store(recorded@) is None,
        r matches Some((name, trail)) ==> spec_trail_to_store(recorded@) == Some(
            (name@, trail@),
        ),
{
    let n = recorded.len();
    if n < 2 {
        return None;
    }
    let mut out: Vec<PointAndDt> = Vec::new();
    for i in 0..n
        invariant
            n == recorded@.len(),
            out@ == spec_stored_trail(recorded@.take(i as int)),
    {
        let (p, dt) = recorded[i];
        #[verifier::truncate]
        let millis = (dt / NANOS_PER_MILLI) as i32;
        out.push(PointAndDt { x: p.x, y: p.y, dt: millis });
        assert(recorded@.take(i + 1) =~= recorded@.take(i as int).push(recorded@[i as int]));
        assert(out@ =~= spec_stored_trail(recorded@.take(i + 1)));
    }
    assert(recorded@.take(n as int) =~= recorded@);
    let name = trail_file_name(recorded[0].0, recorded[n - 1].0);
    Some((name, out))
}

/// Absolute value.
pub open spec fn abs_int(v: int) -> int {
    if v < 0 {
        -v
    } else {
        v
    }
}

/// `v` and its absolute value fit in `i32`.
pub open spec fn abs_fits(v: int) -> bool {
    -i32::MAX <= v <= i32::MAX
}

/// How far a stored trail from `c.0` to `c.1` is from the wanted movement
/// from `from` to `to`: the squared differences of the horizontal and
/// vertical spans.
pub open spec fn trail_score(from: Point, to: Point, c: (Point, Point)) -> int {
    let dx = abs_int(from.x - to.x);
    let dy = abs_int(from.y - to.y);
    let tdx = abs_int(c.0.x - c.1.x);
    let tdy = abs_int(c.0.y - c.1.y);
    (tdx - dx) * (tdx - dx) + (tdy - dy) * (tdy - dy)
}

/// Every step of the score of `c` fits in `i32`.
pub open spec fn score_fits(from: Point, to: Point, c: (Point, Point)) -> bool {
    let dx = abs_int(from.x - to.x);
    let dy = abs_int(from.y - to.y);
    let tdx = abs_int(c.0.x - c.1.x);
    let tdy = abs_int(c.0.y - c.1.y);
    &&& abs_fits(c.0.x - c.1.x)
    &&& abs_fits(c.0.y - c.1.y)
    &&& (tdx - dx) * (tdx - dx) <= i32::MAX
    &&& (tdy - dy) * (tdy - dy) <= i32::MAX
    &&& (tdx - dx) * (tdx - dx) + (tdy - dy) * (tdy - dy) <= i32::MAX
}

/// The trail, if any, that each file name announces.
pub open spec fn candidates(names: Seq<Vec<u8>>) -> Seq<Option<(Point, Point)>> {
    names.map_values(|n: Vec<u8>| spec_parse_trail_name(n@))
}

/// The choice among `names` can be made in `i32` arithmetic: the wanted
/// spans fit, and where two or more names announce a trail (so that
/// scores are compared), every announced trail's score fits.
pub open spec fn best_trail_defined(from: Point, to: Point, names: Seq<Vec<u8>>) -> bool {
    let c = candidates(names);
    &&& abs_fits(from.x - to.x)
    &&& abs_fits(from.y - to.y)
    &&& (exists|i: int, j: int| 0 <= i < j < c.len() && c[i] is Some && c[j] is Some) ==> forall|
        k: int,
    |
        0 <= k < c.len() && c[k] is Some ==> score_fits(from, to, #[trigger] c[k]->0)
}

/// `b` is the best choice among the candidates: it announces a trail of the
/// least score, and no earlier one has that score.
pub open spec fn is_best_trail(from: Point, to: Point, c: Seq<Option<(Point, Point)>>, b: int) -> bool {
    &&& 0 <= b < c.len()
    &&& c[b] is Some
    &&& forall|j: int|
        0 <= j < c.len() && #[trigger] c[j] is Some ==> trail_score(from, to, c[b]->0)
            <= trail_score(from, to, c[j]->0)
    &&& forall|j: int|
        0 <= j < b && #[trigger] c[j] is Some ==> trail_score(from, to, c[j]->0) > trail_score(
            from,
            to,
            c[b]->0,
        )
}

/// Every stored sample keeps its position, and its delay becomes the
/// sample's nanoseconds divided by a million (whole milliseconds) cut to 32
/// bits; a delay of up to `i32::MAX` milliseconds is stored exactly. The
/// file is named after the first and last positions.
pub proof fn lemma_stored_delays_in_millis(recorded: Seq<(Point, u64)>)
    requires
        recorded.len() >= 2,
    ensures
        spec_trail_to_store(recorded) matches Some((name, trail)) && {
            &&& name == spec_trail_name(recorded[0].0, recorded[recorded.len() - 1].0)
            &&& trail.len() == recorded.len()
            &&& forall|i: int|
                0 <= i < recorded.len() ==> {
                    &&& (#[trigger] trail[i]).x == recorded[i].0.x
                    &&& trail[i].y == recorded[i].0.y
                    &&& trail[i].dt == (recorded[i].1 / 1_000_000) as i32
                    &&& recorded[i].1 / 1_000_000 <= 0x7fff_ffff ==> trail[i].dt == recorded[i].1
                        / 1_000_000
                }
        },
{
}

/// The score of a trail is the squared gap between its horizontal span and
/// the wanted one, plus the squared gap between the vertical spans.
pub proof fn lemma_trail_score_formula(from: Point, to: Point, c: (Point, Point))
    ensures
        trail_score(from, to, c) == ({
            let dx = if from.x >= to.x { from.x - to.x } else { to.x - from.x };
            let dy = if from.y >= to.y { from.y - to.y } else { to.y - from.y };
            let tdx = if c.0.x >= c.1.x { c.0.x - c.1.x } else { c.1.x - c.0.x };
            let tdy = if c.0.y >= c.1.y { c.0.y - c.1.y } else { c.1.y - c.0.y };
            (tdx - dx) * (tdx - dx) + (tdy - dy) * (tdy - dy)
        }),
{
}

/// A trail whose horizontal and vertical spans both equal the wanted move's
/// is never passed over: where some candidate matches both spans, the best
/// trail matches both too, so no trail whose horizontal or vertical span
/// differs is chosen.
pub proof fn lemma_exact_spans_win(
    from: Point,
    to: Point,
    c: Seq<Option<(Point, Point)>>,
    b: int,
    i: int,
    exact: (Point, Point),
)
    requires
        is_best_trail(from, to, c, b),
        0 <= i < c.len(),
        c[i] == Some(exact),
        abs_int(exact.0.x - exact.1.x) == abs_int(from.x - to.x),
        abs_int(exact.0.y - exact.1.y) == abs_int(from.y - to.y),
    ensures
        c[b] matches Some(chosen) && abs_int(chosen.0.x - chosen.1.x) == abs_int(from.x - to.x)
            && abs_int(chosen.0.y - chosen.1.y) == abs_int(from.y - to.y),
{
    let cb = c[b]->0;
    assert(trail_score(from, to, exact) == 0);
    assert(trail_score(from, to, cb) <= 0);
    let ex = abs_int(cb.0.x - cb.1.x) - abs_int(from.x - to.x);
    let ey = abs_int(cb.0.y - cb.1.y) - abs_int(from.y - to.y);
    assert(trail_score(from, to, cb) == ex * ex + ey * ey);
    assert(ex == 0 && ey == 0) by (nonlinear_arith)
        requires
            ex * ex + ey * ey <= 0,
    ;
}

/// `|a - b|` in `i32`.
fn abs_diff(a: i32, b: i32) -> (r: i32)
    requires
        abs_fits(a - b),
    ensures
        r == abs_int(a - b),
{
    let d = a - b;
    if d < 0 {
        -d
    } else {
        d
    }
}

/// The score of the trail from `c.0` to `c.1` against the spans `dx`, `dy`.
fn score(dx: i32, dy: i32, c: (Point, Point), Ghost(from): Ghost<Point>, Ghost(to): Ghost<Point>) -> (r: i32)
    requires
        dx == abs_int(from.x - to.x),
        dy == abs_int(from.y - to.y),
        score_fits(from, to, c),
    ensures
        r == trail_score(from, to, c),
{
    let tdx = abs_diff(c.0.x, c.1.x);
    let tdy = abs_diff(c.0.y, c.1.y);
    let ex = tdx - dx;
    let ey = tdy - dy;
    assert(ex * ex >= 0 && ey * ey >= 0) by (nonlinear_arith);
    ex * ex + ey * ey
}

/// Whether every step of the score of `cand` fits in `i32`.
fn score_fits_exec(dx: i64, dy: i64, cand: (Point, Point), Ghost(from): Ghost<Point>, Ghost(to): Ghost<Point>) -> (fits: bool)
    requires
        dx == abs_int(from.x - to.x),
        dy == abs_int(from.y - to.y),
        abs_fits(from.x - to.x),
        abs_fits(from.y - to.y),
    ensures
        fits == score_fits(from, to, cand),
{
    let tx = cand.0.x as i64 - cand.1.x as i64;
    let ty = cand.0.y as i64 - cand.1.y as i64;
    if tx < -2147483647 || tx > 2147483647 || ty < -2147483647 || ty > 2147483647 {
        return false;
    }
    let tdx: i64 = if tx < 0 { -tx } else { tx };
    let tdy: i64 = if ty < 0 { -ty } else { ty };
    let ex = tdx - dx;
    let ey = tdy - dy;
    assert(0 <= ex * ex <= 0x4000_0000_0000_0000) by (nonlinear_arith)
        requires -2147483647 <= ex <= 2147483647;
    assert(0 <= ey * ey <= 0x4000_0000_0000_0000) by (nonlinear_arith)
        requires -2147483647 <= ey <= 2147483647;
    let sx = ex * ex;
    let sy = ey * ey;
    sx <= 2147483647 && sy <= 2147483647 && sx + sy <= 2147483647
}

/// Which of the stored trails, given by their file names, best fits the
/// movement from `from` to `to`: among the names that announce a trail, the
/// first one whose spans differ least (in squared distance) from the
/// movement's; `None` where no name announces a trail.
pub fn find_best_trail(from: Point, to: Point, names: &Vec<Vec<u8>>) -> (r: Option<usize>)
    requires
        best_trail_defined(from, to, names@),
    ensures
        r is None <==> forall|i: int| 0 <= i < names@.len() ==> candidates(names@)[i] is None,
        r matches Some(b) ==> is_best_trail(from, to, candidates(names@), b as int),
{
    let ghost c = candidates(names@);
    let dx = abs_diff(from.x, to.x);
    let dy = abs_diff(from.y, to.y);
    let mut best: Option<(usize, (Point, Point))> = None;
    let n = names.len();
    for i in 0..n
        invariant
            n == names@.len() == c.len(),
            c == candidates(names@),
            best_trail_defined(from, to, names@),
            dx == abs_int(from.x - to.x),
            dy == abs_int(from.y - to.y),
            best is None ==> forall|j: int| 0 <= j < i ==> c[j] is None,
            best matches Some((b, bc)) ==> b < i && c[b as int] == Some(bc) && is_best_trail(
                from,
                to,
                c.take(i as int),
                b as int,
            ),
    {
        let parsed = parse_trail_file_name(names[i].as_slice());
        assert(parsed == c[i as int]);
        match parsed {
            None => {
            },
            Some(cand) => {
                match best {
                    None => {
                        best = Some((i, cand));
                    },
                    Some((b, bc)) => {
                        assert(c[b as int] is Some && c[i as int] is Some);
                        assert(score_fits(from, to, c[b as int]->0));
                        assert(score_fits(from, to, c[i as int]->0));
                        let bthres = score(dx, dy, bc, Ghost(from), Ghost(to));
                        let tthres = score(dx, dy, cand, Ghost(from), Ghost(to));
                        if tthres < bthres {
                            best = Some((i, cand));
                        }
                    },
                }
            },
        }
        proof {
            let ci = c.take(i + 1);
            assert forall|j: int| 0 <= j < i + 1 implies #[trigger] ci[j] == c[j] by {}
            if best matches Some((b, bc)) {
                assert forall|j: int| 0 <= j < i && #[trigger] c[j] is Some implies c.take(
                    i as int,
                )[j] == c[j] by {}
            }
        }
    }
    assert(c.take(n as int) =~= c);
    match best {
        None => None,
        Some((b, _)) => Some(b),
    }
}

/// Whether `find_best_trail` can be asked about `names`.
pub fn best_trail_checkable(from: Point, to: Point, names: &Vec<Vec<u8>>) -> (ok: bool)
    ensures
        ok == best_trail_defined(from, to, names@),
{
    let ghost c = candidates(names@);
    let fdx = from.x as i64 - to.x as i64;
    let fdy = from.y as i64 - to.y as i64;
    if fdx < -2147483647 || fdx > 2147483647 || fdy < -2147483647 || fdy > 2147483647 {
        return false;
    }
    let dx: i64 = if fdx < 0 { -fdx } else { fdx };
    let dy: i64 = if fdy < 0 { -fdy } else { fdy };
    let mut found: usize = 0;
    let ghost mut first: int = 0;
    let ghost mut second: int = 0;
    let mut all_fit = true;
    let n = names.len();
    for i in 0..n
        invariant
            n == names@.len() == c.len(),
            c == candidates(names@),
            dx == abs_int(from.x - to.x),
            dy == abs_int(from.y - to.y),
            abs_fits(from.x - to.x),
            abs_fits(from.y - to.y),
            found <= 2,
            found == 0 ==> forall|j: int| 0 <= j < i ==> c[j] is None,
            found == 1 ==> 0 <= first < i && c[first] is Some && forall|j: int|
                0 <= j < i && #[trigger] c[j] is Some ==> j == first,
            found == 2 ==> 0 <= first < second < i && c[first] is Some && c[second] is Some,
            all_fit == forall|k: int|
                0 <= k < i && c[k] is Some ==> score_fits(from, to, #[trigger] c[k]->0),
    {
        let parsed = parse_trail_file_name(names[i].as_slice());
        assert(parsed == c[i as int]);
        if let Some(cand) = parsed {
            if found == 0 {
                proof {
                    first = i as int;
                }
                found = 1;
            } else if found == 1 {
                proof {
                    second = i as int;
                }
                found = 2;
            }
            let fits = score_fits_exec(dx, dy, cand, Ghost(from), Ghost(to));
            all_fit = all_fit && fits;
        }
    }
    proof {
        if found == 2 {
            assert(0 <= first < second < c.len() && c[first] is Some && c[second] is Some);
        }
    }
    found < 2 || all_fit
}

} // verus!
