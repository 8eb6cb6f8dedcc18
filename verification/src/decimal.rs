//! Decimal text of `i32` values, written and read as ASCII bytes the way
//! `Display` writes them and `i32::from_str` reads them.
use vstd::prelude::*;
use crate::geometry::in_i32;

verus! {

/// ASCII code of `'-'`.
pub const MINUS: u8 = 45;

/// ASCII code of `'+'`.
pub const PLUS: u8 = 43;

/// An ASCII decimal digit.
pub open spec fn is_digit(b: u8) -> bool {
    48 <= b <= 57
}

/// Every byte of `s` is an ASCII decimal digit.
pub open spec fn all_digits(s: Seq<u8>) -> bool {
    forall|i: int| 0 <= i < s.len() ==> is_digit(#[trigger] s[i])
}

/// The number that a run of decimal digits denotes.
pub open spec fn digits_value(s: Seq<u8>) -> nat
    decreases s.len(),
{
    if s.len() == 0 {
        0
    } else {
        digits_value(s.drop_last()) * 10 + (s.last() - 48) as nat
    }
}

/// The shortest decimal text of a natural number.
pub open spec fn nat_text(n: nat) -> Seq<u8>
    decreases n,
{
    if n < 10 {
        seq![(48 + n) as u8]
    } else {
        nat_text(n / 10).push((48 + n % 10) as u8)
    }
}

/// The decimal text of an integer: a `-` before the digits of a negative one.
pub open spec fn int_text(v: int) -> Seq<u8> {
    if v < 0 {
        seq![MINUS] + nat_text((-v) as nat)
    } else {
        nat_text(v as nat)
    }
}

/// What `i32::from_str` makes of the text `s`: an optional sign, then at
/// least one digit and nothing else, denoting a value that fits in `i32`.
pub open spec fn spec_parse_i32(s: Seq<u8>) -> Option<i32> {
    let neg = s.len() > 0 && s[0] == MINUS;
    let body = if s.len() > 0 && (s[0] == MINUS || s[0] == PLUS) {
        s.skip(1)
    } else {
        s
    };
    if body.len() > 0 && all_digits(body) {
        let v: int = if neg {
            -(digits_value(body) as int)
        } else {
            digits_value(body) as int
        };
        if in_i32(v) {
            Some(v as i32)
        } else {
            None
        }
    } else {
        None
    }
}

/// A longer run of digits denotes at least as much as its prefix.
proof fn lemma_digits_value_prefix(s: Seq<u8>, k: int)
    requires
        all_digits(s),
        0 <= k <= s.len(),
    ensures
        digits_value(s.take(k)) <= digits_value(s),
    decreases s.len(),
{
    if k < s.len() {
        let t = s.drop_last();
        assert(all_digits(t)) by {
            assert forall|i: int| 0 <= i < t.len() implies is_digit(#[trigger] t[i]) by {
                assert(t[i] == s[i]);
            }
        }
        lemma_digits_value_prefix(t, k);
        assert(t.take(k) =~= s.take(k));
    } else {
        assert(s.take(k) =~= s);
    }
}

/// The digits of `nat_text(n)` denote `n`.
proof fn lemma_nat_text(n: nat)
    ensures
        nat_text(n).len() > 0,
        all_digits(nat_text(n)),
        digits_value(nat_text(n)) == n,
        !nat_text(n).contains(MINUS),
    decreases n,
{
    if n >= 10 {
        lemma_nat_text(n / 10);
        let t = nat_text(n / 10);
        let s = nat_text(n);
        assert(s.drop_last() =~= t);
        assert(s.last() == (48 + n % 10) as u8);
        assert(n == (n / 10) * 10 + n % 10) by (nonlinear_arith);
        assert(digits_value(s) == digits_value(t) * 10 + (s.last() - 48) as nat);
        assert(digits_value(s) == n);
        assert(all_digits(s)) by {
            assert forall|i: int| 0 <= i < s.len() implies is_digit(#[trigger] s[i]) by {
                if i < t.len() {
                    assert(s[i] == t[i]);
                }
            }
        }
        assert(!s.contains(MINUS)) by {
            if s.contains(MINUS) {
                let i = choose|i: int| 0 <= i < s.len() && s[i] == MINUS;
                if i < t.len() {
                    assert(t[i] == s[i]);
                }
            }
        }
    } else {
        let s = nat_text(n);
        assert(s.drop_last() =~= Seq::<u8>::empty());
        assert(digits_value(s.drop_last()) == 0);
        assert(s.last() == (48 + n) as u8);
        assert(digits_value(s) == n);
        assert(!s.contains(MINUS)) by {
            if s.contains(MINUS) {
                let i = choose|i: int| 0 <= i < s.len() && s[i] == MINUS;
            }
        }
    }
}

/// The text of a number never holds a `-` unless the number is negative,
/// and then only in front.
pub proof fn lemma_int_text_digits(v: int)
    ensures
        int_text(v).len() > 0,
        v >= 0 ==> all_digits(int_text(v)) && !int_text(v).contains(MINUS),
        v < 0 ==> int_text(v)[0] == MINUS && int_text(v).skip(1) == nat_text((-v) as nat),
{
    lemma_nat_text(if v < 0 {
        (-v) as nat
    } else {
        v as nat
    });
    if v < 0 {
        assert(int_text(v).skip(1) =~= nat_text((-v) as nat));
    }
}

/// Reading back the text written for an `i32` gives the same value.
pub proof fn lemma_parse_int_text(v: i32)
    ensures
        spec_parse_i32(int_text(v as int)) == Some(v),
{
    if v < 0 {
        lemma_nat_text((-v) as nat);
        let s = int_text(v as int);
        assert(s.skip(1) =~= nat_text((-v) as nat));
    } else {
        lemma_nat_text(v as nat);
        let s = int_text(v as int);
        assert(is_digit(s[0]));
    }
}

/// Appends the decimal text of `n` to `out`.
fn push_nat_text(out: &mut Vec<u8>, n: u32)
    ensures
        final(out)@ == old(out)@ + nat_text(n as nat),
    decreases n,
{
    if n >= 10 {
        push_nat_text(out, n / 10);
        let ghost mid = out@;
        out.push(48 + (n % 10) as u8);
        assert(mid + seq![(48 + n % 10) as u8] =~= mid.push((48 + n % 10) as u8));
    } else {
        out.push(48 + n as u8);
    }
    proof {
        if n >= 10 {
            assert(old(out)@ + nat_text(n as nat) =~= (old(out)@ + nat_text((n / 10) as nat)).push(
                (48 + n % 10) as u8,
            ));
        } else {
            assert(old(out)@ + nat_text(n as nat) =~= old(out)@.push((48 + n) as u8));
        }
    }
}

/// Appends the decimal text of `v` to `out`, as `format!("{}", v)` writes it.
pub fn push_i32_text(out: &mut Vec<u8>, v: i32)
    ensures
        final(out)@ == old(out)@ + int_text(v as int),
{
    if v < 0 {
        out.push(MINUS);
        let magnitude: u32 = if v == i32::MIN {
            2147483648u32
        } else {
            (-v) as u32
        };
        let ghost mid = out@;
        push_nat_text(out, magnitude);
        assert(old(out)@ + int_text(v as int) =~= mid + nat_text(magnitude as nat));
    } else {
        push_nat_text(out, v as u32);
    }
}

/// Reads an `i32` from `s[start..end]` as `i32::from_str` reads it from text.
pub fn parse_i32_range(s: &[u8], start: usize, end: usize) -> (r: Option<i32>)
    requires
        start <= end <= s@.len(),
    ensures
        r == spec_parse_i32(s@.subrange(start as int, end as int)),
{
    let ghost text = s@.subrange(start as int, end as int);
    let mut i = start;
    let mut neg = false;
    if i < end && (s[i] == MINUS || s[i] == PLUS) {
        neg = s[i] == MINUS;
        i = i + 1;
        assert(text.skip(1) =~= s@.subrange(i as int, end as int));
    } else {
        assert(text =~= s@.subrange(i as int, end as int));
    }
    let digits_start = i;
    let ghost body = s@.subrange(digits_start as int, end as int);
    if i == end {
        return None;
    }
    let mut acc: u64 = 0;
    while i < end
        invariant
            start <= digits_start <= i <= end <= s@.len(),
            body == s@.subrange(digits_start as int, end as int),
            text == s@.subrange(start as int, end as int),
            body.len() > 0,
            neg == (text.len() > 0 && text[0] == MINUS),
            body == (if text.len() > 0 && (text[0] == MINUS || text[0] == PLUS) {
                text.skip(1)
            } else {
                text
            }),
            acc == digits_value(body.take(i - digits_start)),
            all_digits(body.take(i - digits_start)),
            acc <= 2147483648,
        decreases end - i,
    {
        let b = s[i];
        if b < 48 || b > 57 {
            assert(body[i - digits_start] == b);
            return None;
        }
        let ghost k = i - digits_start;
        assert(body.take(k + 1).drop_last() =~= body.take(k));
        assert(body.take(k + 1).last() == b);
        acc = acc * 10 + (b - 48) as u64;
        assert(all_digits(body.take(k + 1))) by {
            assert forall|j: int| 0 <= j < k + 1 implies is_digit(#[trigger] body.take(k + 1)[j]) by {
                if j < k {
                    assert(body.take(k + 1)[j] == body.take(k)[j]);
                }
            }
        }
        i = i + 1;
        if acc > 2147483648 {
            proof {
                if all_digits(body) {
                    lemma_digits_value_prefix(body, k + 1);
                }
            }
            return None;
        }
    }
    assert(body.take(body.len() as int) =~= body);
    if neg {
        let v: i64 = -(acc as i64);
        Some(v as i32)
    } else if acc <= 2147483647 {
        Some(acc as i32)
    } else {
        None
    }
}

/// Reads an `i32` from `s` as `i32::from_str` reads it from text.
pub fn parse_i32(s: &[u8]) -> (r: Option<i32>)
    ensures
        r == spec_parse_i32(s@),
{
    assert(s@.subrange(0, s@.len() as int) =~= s@);
    parse_i32_range(s, 0, s.len())
}

} // verus!
