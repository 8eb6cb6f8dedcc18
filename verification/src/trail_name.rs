//! Names of trail files: `<from.x>-<from.y>-<to.x>-<to.y>.json`.
use vstd::prelude::*;
use crate::decimal::{
    MINUS, int_text, lemma_int_text_digits, lemma_parse_int_text, parse_i32_range,
    push_i32_text, spec_parse_i32,
};
use crate::geometry::Point;

verus! {

/// The bytes of `".json"`.
pub open spec fn json_suffix() -> Seq<u8> {
    seq![46u8, 106u8, 115u8, 111u8, 110u8]
}

/// `s` without its `".json"` ending, as `str::strip_suffix(".json")` gives it.
pub open spec fn strip_json(s: Seq<u8>) -> Option<Seq<u8>> {
    if s.len() >= 5 && s.skip(s.len() - 5) == json_suffix() {
        Some(s.take(s.len() - 5))
    } else {
        None
    }
}

/// The pieces of `s` between the `-` bytes, as `str::split("-")` yields them.
pub open spec fn split_dash(s: Seq<u8>) -> Seq<Seq<u8>>
    decreases s.len(),
{
    if s.len() == 0 {
        seq![Seq::<u8>::empty()]
    } else {
        let p = split_dash(s.drop_last());
        if s.last() == MINUS {
            p.push(Seq::<u8>::empty())
        } else {
            p.update(p.len() - 1, p.last().push(s.last()))
        }
    }
}

/// The number of `-` bytes in `s`.
pub open spec fn dash_count(s: Seq<u8>) -> nat
    decreases s.len(),
{
    if s.len() == 0 {
        0
    } else {
        dash_count(s.drop_last()) + if s.last() == MINUS {
            1nat
        } else {
            0nat
        }
    }
}

/// The name under which a trail from `first` to `last` is stored.
pub open spec fn spec_trail_name(first: Point, last: Point) -> Seq<u8> {
    int_text(first.x as int) + seq![MINUS] + int_text(first.y as int) + seq![MINUS] + int_text(
        last.x as int,
    ) + seq![MINUS] + int_text(last.y as int) + json_suffix()
}

/// The start and end points that a file name announces: the name ends in
/// `".json"`, what comes before splits at `-` into exactly four pieces,
/// and each piece reads as an `i32`.
pub open spec fn spec_parse_trail_name(name: Seq<u8>) -> Option<(Point, Point)> {
    match strip_json(name) {
        None => None,
        Some(stem) => {
            let parts = split_dash(stem);
            if parts.len() == 4 && spec_parse_i32(parts[0]) is Some && spec_parse_i32(
                parts[1],
            ) is Some && spec_parse_i32(parts[2]) is Some && spec_parse_i32(parts[3]) is Some {
                Some(
                    (
                        Point {
                            x: spec_parse_i32(parts[0])->0,
                            y: spec_parse_i32(parts[1])->0,
                        },
                        Point {
                            x: spec_parse_i32(parts[2])->0,
                            y: spec_parse_i32(parts[3])->0,
                        },
                    ),
                )
            } else {
                None
            }
        },
    }
}

/// Splitting always yields at least one piece, one more than there are dashes.
pub proof fn lemma_split_dash_len(s: Seq<u8>)
    ensures
        split_dash(s).len() == dash_count(s) + 1,
    decreases s.len(),
{
    if s.len() > 0 {
        lemma_split_dash_len(s.drop_last());
    }
}

/// Dashes of a concatenation add up.
proof fn lemma_dash_count_concat(a: Seq<u8>, b: Seq<u8>)
    ensures
        dash_count(a + b) == dash_count(a) + dash_count(b),
    decreases b.len(),
{
    if b.len() == 0 {
        assert(a + b =~= a);
    } else {
        lemma_dash_count_concat(a, b.drop_last());
        assert((a + b).drop_last() =~= a + b.drop_last());
    }
}

/// A text without dashes has no dash to count.
proof fn lemma_dash_count_none(s: Seq<u8>)
    requires
        !s.contains(MINUS),
    ensures
        dash_count(s) == 0,
    decreases s.len(),
{
    if s.len() > 0 {
        assert(!s.drop_last().contains(MINUS)) by {
            if s.drop_last().contains(MINUS) {
                let i = choose|i: int| 0 <= i < s.drop_last().len() && s.drop_last()[i] == MINUS;
                assert(s[i] == MINUS);
            }
        }
        lemma_dash_count_none(s.drop_last());
        assert(s.last() != MINUS) by {
            assert(s[s.len() - 1] == s.last());
        }
    }
}

/// A lone dash counts once.
proof fn lemma_dash_count_single_dash()
    ensures
        dash_count(seq![MINUS]) == 1,
{
    let d = seq![MINUS];
    assert(d.drop_last() =~= Seq::<u8>::empty());
    assert(dash_count(Seq::<u8>::empty()) == 0);
    assert(d.last() == MINUS);
}

/// Appending a dash-free run extends the last piece.
proof fn lemma_split_dash_append_plain(x: Seq<u8>, y: Seq<u8>)
    requires
        !y.contains(MINUS),
    ensures
        split_dash(x + y) == split_dash(x).update(
            split_dash(x).len() - 1,
            split_dash(x).last() + y,
        ),
    decreases y.len(),
{
    lemma_split_dash_len(x);
    if y.len() == 0 {
        assert(x + y =~= x);
        assert(split_dash(x).last() + y =~= split_dash(x).last());
        assert(split_dash(x).update(split_dash(x).len() - 1, split_dash(x).last()) =~= split_dash(
            x,
        ));
    } else {
        let y0 = y.drop_last();
        assert(!y0.contains(MINUS)) by {
            if y0.contains(MINUS) {
                let i = choose|i: int| 0 <= i < y0.len() && y0[i] == MINUS;
                assert(y[i] == MINUS);
            }
        }
        assert(y.last() != MINUS) by {
            assert(y[y.len() - 1] == y.last());
        }
        lemma_split_dash_append_plain(x, y0);
        assert((x + y).drop_last() =~= x + y0);
        assert((x + y).last() == y.last());
        assert(split_dash(x).last() + y =~= (split_dash(x).last() + y0).push(y.last()));
        assert(split_dash(x + y) =~= split_dash(x).update(
            split_dash(x).len() - 1,
            split_dash(x).last() + y,
        ));
    }
}

/// Appending a dash starts a new, empty piece.
proof fn lemma_split_dash_append_dash(x: Seq<u8>)
    ensures
        split_dash(x.push(MINUS)) == split_dash(x).push(Seq::<u8>::empty()),
{
    assert(x.push(MINUS).drop_last() =~= x);
}

/// Splitting `x`, a dash, and a dash-free `y` adds `y` as a new piece.
proof fn lemma_split_dash_then(x: Seq<u8>, y: Seq<u8>)
    requires
        !y.contains(MINUS),
    ensures
        split_dash(x + seq![MINUS] + y) == split_dash(x).push(y),
{
    lemma_split_dash_append_dash(x);
    assert(x + seq![MINUS] =~= x.push(MINUS));
    lemma_split_dash_append_plain(x.push(MINUS), y);
    let p = split_dash(x).push(Seq::<u8>::empty());
    assert(Seq::<u8>::empty() + y =~= y);
    assert(p.update(p.len() - 1, p.last() + y) =~= split_dash(x).push(y));
}

/// A trail's file name reads back as the trail's end points exactly when no
/// coordinate is negative: the `-` of a negative number splits the name into
/// more than four pieces.
pub proof fn lemma_trail_name_round_trip(first: Point, last: Point)
    ensures
        spec_parse_trail_name(spec_trail_name(first, last)) == (if first.x >= 0 && first.y >= 0
            && last.x >= 0 && last.y >= 0 {
            Some((first, last))
        } else {
            None
        }),
{
    let t0 = int_text(first.x as int);
    let t1 = int_text(first.y as int);
    let t2 = int_text(last.x as int);
    let t3 = int_text(last.y as int);
    let d = seq![MINUS];
    let stem = t0 + d + t1 + d + t2 + d + t3;
    let name = spec_trail_name(first, last);
    assert(name =~= stem + json_suffix());
    assert(name.skip(name.len() - 5) =~= json_suffix());
    assert(name.take(name.len() - 5) =~= stem);
    assert(strip_json(name) == Some(stem));
    lemma_int_text_digits(first.x as int);
    lemma_int_text_digits(first.y as int);
    lemma_int_text_digits(last.x as int);
    lemma_int_text_digits(last.y as int);
    if first.x >= 0 && first.y >= 0 && last.x >= 0 && last.y >= 0 {
        lemma_split_dash_append_plain(Seq::<u8>::empty(), t0);
        assert(Seq::<u8>::empty() + t0 =~= t0);
        assert(split_dash(Seq::<u8>::empty()).last() + t0 =~= t0);
        assert(split_dash(t0) =~= seq![t0]);
        lemma_split_dash_then(t0, t1);
        lemma_split_dash_then(t0 + d + t1, t2);
        lemma_split_dash_then(t0 + d + t1 + d + t2, t3);
        let parts = split_dash(stem);
        assert(parts =~= seq![t0, t1, t2, t3]);
        lemma_parse_int_text(first.x);
        lemma_parse_int_text(first.y);
        lemma_parse_int_text(last.x);
        lemma_parse_int_text(last.y);
    } else {
        lemma_dash_count_concat(t0, d);
        lemma_dash_count_concat(t0 + d, t1);
        lemma_dash_count_concat(t0 + d + t1, d);
        lemma_dash_count_concat(t0 + d + t1 + d, t2);
        lemma_dash_count_concat(t0 + d + t1 + d + t2, d);
        lemma_dash_count_concat(t0 + d + t1 + d + t2 + d, t3);
        lemma_dash_count_single_dash();
        assert forall|t: Seq<u8>, v: int|
            t == int_text(v) && (v >= 0 ==> !t.contains(MINUS)) && (v < 0 ==> t[0] == MINUS
                && t.len() > 0) implies dash_count(t) >= (if v < 0 {
            1nat
        } else {
            0nat
        }) by {
            if v < 0 {
                assert(t =~= seq![MINUS] + t.skip(1));
                lemma_dash_count_concat(seq![MINUS], t.skip(1));
                lemma_dash_count_single_dash();
            }
        }
        assert(dash_count(stem) > 3);
        lemma_split_dash_len(stem);
    }
}

/// The name under which the trail from `first` to `last` is stored, as
/// `format!("{}-{}-{}-{}.json", ..)` writes it.
pub fn trail_file_name(first: Point, last: Point) -> (name: Vec<u8>)
    ensures
        name@ == spec_trail_name(first, last),
{
    let mut name: Vec<u8> = Vec::new();
    push_i32_text(&mut name, first.x);
    name.push(MINUS);
    push_i32_text(&mut name, first.y);
    name.push(MINUS);
    push_i32_text(&mut name, last.x);
    name.push(MINUS);
    push_i32_text(&mut name, last.y);
    name.push(46u8);
    name.push(106u8);
    name.push(115u8);
    name.push(111u8);
    name.push(110u8);
    assert(name@ =~= spec_trail_name(first, last));
    name
}

/// Where the `j`-th piece starts, given the positions of the dashes before it.
pub open spec fn piece_start(seps: Seq<usize>, j: int) -> int {
    if j == 0 {
        0
    } else {
        seps[j - 1] + 1
    }
}

/// The start and end points that the file name `name` announces, if it is
/// the name of a trail file.
pub fn parse_trail_file_name(name: &[u8]) -> (r: Option<(Point, Point)>)
    ensures
        r == spec_parse_trail_name(name@),
{
    let len = name.len();
    if len < 5 || name[len - 5] != 46u8 || name[len - 4] != 106u8 || name[len - 3] != 115u8
        || name[len - 2] != 111u8 || name[len - 1] != 110u8 {
        proof {
            if len >= 5 && name@.skip(len - 5) == json_suffix() {
                assert(name@.skip(len - 5)[0] == name@[len - 5]);
                assert(name@.skip(len - 5)[1] == name@[len - 4]);
                assert(name@.skip(len - 5)[2] == name@[len - 3]);
                assert(name@.skip(len - 5)[3] == name@[len - 2]);
                assert(name@.skip(len - 5)[4] == name@[len - 1]);
            }
        }
        return None;
    }
    let stem_end = len - 5;
    let ghost stem = name@.take(stem_end as int);
    assert(name@.skip(len - 5) =~= json_suffix());
    assert(strip_json(name@) == Some(stem));
    let mut seps: Vec<usize> = Vec::new();
    let mut k: usize = 0;
    assert(stem.take(0) =~= Seq::<u8>::empty());
    while k < stem_end
        invariant
            stem_end + 5 == len == name@.len(),
            stem == name@.take(stem_end as int),
            k <= stem_end,
            split_dash(stem.take(k as int)).len() == seps@.len() + 1,
            forall|j: int|
                0 <= j < seps@.len() ==> piece_start(seps@, j) <= #[trigger] seps@[j] < k,
            piece_start(seps@, seps@.len() as int) <= k,
            forall|j: int|
                0 <= j < seps@.len() ==> #[trigger] split_dash(stem.take(k as int))[j]
                    == stem.subrange(piece_start(seps@, j), seps@[j] as int),
            split_dash(stem.take(k as int)).last() == stem.subrange(
                piece_start(seps@, seps@.len() as int),
                k as int,
            ),
        decreases stem_end - k,
    {
        let c = name[k];
        let ghost p = split_dash(stem.take(k as int));
        let ghost old_seps = seps@;
        assert(stem.take(k + 1).drop_last() =~= stem.take(k as int));
        assert(stem.take(k + 1).last() == c);
        if c == MINUS {
            seps.push(k);
            proof {
                let p2 = split_dash(stem.take(k + 1));
                assert(p2 == p.push(Seq::<u8>::empty()));
                assert forall|j: int| 0 <= j < seps@.len() implies #[trigger] p2[j] == stem.subrange(
                    piece_start(seps@, j),
                    seps@[j] as int,
                ) by {
                    if j < old_seps.len() {
                        assert(seps@[j] == old_seps[j]);
                        assert(piece_start(seps@, j) == piece_start(old_seps, j));
                    } else {
                        assert(piece_start(seps@, j) == piece_start(old_seps, j));
                    }
                }
                assert(p2.last() =~= stem.subrange(k + 1, k + 1));
                assert forall|j: int| 0 <= j < seps@.len() implies piece_start(seps@, j)
                    <= #[trigger] seps@[j] < k + 1 by {
                    if j < old_seps.len() {
                        assert(seps@[j] == old_seps[j]);
                    }
                }
            }
        } else {
            proof {
                let p2 = split_dash(stem.take(k + 1));
                assert(p2 == p.update(p.len() - 1, p.last().push(c)));
                assert(p2.last() =~= stem.subrange(piece_start(seps@, seps@.len() as int), k + 1));
                assert forall|j: int| 0 <= j < seps@.len() implies #[trigger] p2[j] == stem.subrange(
                    piece_start(seps@, j),
                    seps@[j] as int,
                ) by {
                    assert(p2[j] == p[j]);
                }
            }
        }
        k = k + 1;
    }
    assert(stem.take(stem_end as int) =~= stem);
    if seps.len() != 3 {
        return None;
    }
    let s0 = seps[0];
    let s1 = seps[1];
    let s2 = seps[2];
    let ghost parts = split_dash(stem);
    assert(parts[0] == stem.subrange(0, s0 as int));
    assert(parts[1] == stem.subrange(s0 + 1, s1 as int));
    assert(parts[2] == stem.subrange(s1 + 1, s2 as int));
    assert(parts[3] == stem.subrange(s2 + 1, stem_end as int));
    assert(stem.subrange(0, s0 as int) =~= name@.subrange(0, s0 as int));
    assert(stem.subrange(s0 + 1, s1 as int) =~= name@.subrange(s0 + 1, s1 as int));
    assert(stem.subrange(s1 + 1, s2 as int) =~= name@.subrange(s1 + 1, s2 as int));
    assert(stem.subrange(s2 + 1, stem_end as int) =~= name@.subrange(s2 + 1, stem_end as int));
    let a = parse_i32_range(name, 0, s0);
    let b = parse_i32_range(name, s0 + 1, s1);
    let c = parse_i32_range(name, s1 + 1, s2);
    let d = parse_i32_range(name, s2 + 1, stem_end);
    match (a, b, c, d) {
        (Some(fx), Some(fy), Some(lx), Some(ly)) => Some((Point { x: fx, y: fy }, Point { x: lx, y: ly })),
        _ => None,
    }
}

} // verus!
