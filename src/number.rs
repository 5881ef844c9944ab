use vstd::prelude::*;

use crate::text::{all_digits, digit_value, digits_value, is_digit};

verus! {

/// The value of `t` read as a decimal natural number no larger than `max`:
/// absent when `t` is empty, holds a non-digit, or names a larger number.
pub open spec fn natural_of(t: Seq<char>, max: nat) -> Option<nat> {
    if t.len() > 0 && all_digits(t) && digits_value(t) <= max {
        Some(digits_value(t))
    } else {
        None
    }
}

/// The first `k` digits of `f` read as a `k`-digit number, with zeros where `f` is shorter.
pub open spec fn scaled(f: Seq<char>, k: nat) -> nat
    decreases k,
{
    if k == 0 {
        0
    } else {
        10 * scaled(f, (k - 1) as nat) + if k - 1 < f.len() {
            digit_value(f[k - 1])
        } else {
            0
        }
    }
}

/// The index of the first non-digit of `t` at or after `i`.
pub open spec fn first_non_digit(t: Seq<char>, i: int) -> int
    decreases t.len() - i,
{
    if i < 0 || i >= t.len() || !is_digit(t[i]) {
        i
    } else {
        first_non_digit(t, i + 1)
    }
}

/// A decimal number `digits[.digits]` (at least one digit in all, a whole part that
/// fits in 64 bits), as whole nanoseconds: fraction digits past the ninth are dropped.
pub open spec fn decimal_nanos(t: Seq<char>) -> Option<nat> {
    let p = first_non_digit(t, 0);
    let whole = t.take(p);
    let frac = if p < t.len() {
        t.skip(p + 1)
    } else {
        Seq::<char>::empty()
    };
    if digits_value(whole) <= u64::MAX && (p == t.len() || (t[p] == '.' && all_digits(frac)))
        && (p > 0 || frac.len() > 0) {
        Some(digits_value(whole) * 1_000_000_000 + scaled(frac, 9))
    } else {
        None
    }
}

proof fn lemma_digits_value_step(s: Seq<char>, a: int, i: int)
    requires
        0 <= a <= i < s.len(),
    ensures
        digits_value(s.subrange(a, i + 1)) == 10 * digits_value(s.subrange(a, i)) + digit_value(
            s[i],
        ),
{
    assert(s.subrange(a, i + 1).drop_last() =~= s.subrange(a, i));
}

proof fn lemma_digits_value_prefix(t: Seq<char>, i: int)
    requires
        0 <= i <= t.len(),
    ensures
        digits_value(t.take(i)) <= digits_value(t),
    decreases t.len() - i,
{
    if i < t.len() {
        assert(t.drop_last().take(i) =~= t.take(i));
        assert(digits_value(t) == 10 * digits_value(t.drop_last()) + digit_value(t.last()));
        lemma_digits_value_prefix(t.drop_last(), i);
    } else {
        assert(t.take(i) =~= t);
    }
}

proof fn lemma_first_non_digit(t: Seq<char>, i: int)
    requires
        0 <= i <= t.len(),
    ensures
        i <= first_non_digit(t, i) <= t.len(),
        forall|j: int| i <= j < first_non_digit(t, i) ==> is_digit(#[trigger] t[j]),
        first_non_digit(t, i) < t.len() ==> !is_digit(t[first_non_digit(t, i)]),
    decreases t.len() - i,
{
    if i < t.len() && is_digit(t[i]) {
        lemma_first_non_digit(t, i + 1);
    }
}

/// The value of the digits `s[a..b]` when all are digits and it is at most `max`.
fn bounded_value(s: &Vec<char>, a: usize, b: usize, max: u64) -> (r: Option<u64>)
    requires
        a <= b <= s@.len(),
    ensures
        r == (if all_digits(s@.subrange(a as int, b as int)) && digits_value(
            s@.subrange(a as int, b as int),
        ) <= max {
            Some(digits_value(s@.subrange(a as int, b as int)) as u64)
        } else {
            None::<u64>
        }),
{
    let ghost t = s@.subrange(a as int, b as int);
    let mut acc: u64 = 0;
    let mut i: usize = a;
    while i < b
        invariant
            a <= i <= b <= s@.len(),
            t == s@.subrange(a as int, b as int),
            all_digits(s@.subrange(a as int, i as int)),
            acc == digits_value(s@.subrange(a as int, i as int)),
            acc <= max,
        decreases b - i,
    {
        let c = s[i];
        if !('0' <= c && c <= '9') {
            assert(t[i - a] == c);
            return None;
        }
        proof {
            lemma_digits_value_step(s@, a as int, i as int);
            assert(all_digits(s@.subrange(a as int, i + 1)));
        }
        let d = (c as u32 - '0' as u32) as u64;
        let next: u128 = acc as u128 * 10 + d as u128;
        if next > max as u128 {
            proof {
                assert(s@.subrange(a as int, i + 1) =~= t.take(i + 1 - a));
                lemma_digits_value_prefix(t, i + 1 - a);
            }
            return None;
        }
        acc = next as u64;
        i = i + 1;
    }
    assert(s@.subrange(a as int, i as int) =~= t);
    Some(acc)
}

/// Reads `s[a..b]` as a decimal natural number no larger than `max`.
pub fn parse_natural(s: &Vec<char>, a: usize, b: usize, max: u64) -> (r: Option<u64>)
    requires
        a <= b <= s@.len(),
    ensures
        r matches Some(v) ==> natural_of(s@.subrange(a as int, b as int), max as nat) == Some(
            v as nat,
        ),
        r is None ==> natural_of(s@.subrange(a as int, b as int), max as nat) is None,
{
    if a == b {
        return None;
    }
    bounded_value(s, a, b, max)
}

/// Reads `s[a..b]` as a decimal number, in whole nanoseconds.
#[verifier::loop_isolation(false)]
pub fn parse_decimal_nanos(s: &Vec<char>, a: usize, b: usize) -> (r: Option<u128>)
    requires
        a <= b <= s@.len(),
    ensures
        r matches Some(v) ==> decimal_nanos(s@.subrange(a as int, b as int)) == Some(v as nat),
        r is None ==> decimal_nanos(s@.subrange(a as int, b as int)) is None,
{
    let ghost t = s@.subrange(a as int, b as int);
    let mut p: usize = a;
    while p < b && '0' <= s[p] && s[p] <= '9'
        invariant
            a <= p <= b <= s@.len(),
            t == s@.subrange(a as int, b as int),
            first_non_digit(t, 0) == first_non_digit(t, p - a),
        decreases b - p,
    {
        assert(t[p - a] == s@[p as int]);
        p = p + 1;
    }
    proof {
        lemma_first_non_digit(t, 0);
        assert(first_non_digit(t, 0) == p - a);
        assert(t.take(p - a) =~= s@.subrange(a as int, p as int));
    }
    let whole = bounded_value(s, a, p, u64::MAX);
    let w = match whole {
        Some(w) => w,
        None => {
            return None;
        },
    };
    let mut frac_start: usize = p;
    if p < b {
        if s[p] != '.' {
            assert(t[p - a] == s@[p as int]);
            return None;
        }
        frac_start = p + 1;
    }
    proof {
        if p < b {
            assert(t.skip(p - a + 1) =~= s@.subrange(frac_start as int, b as int));
        } else {
            assert(s@.subrange(frac_start as int, b as int) =~= Seq::<char>::empty());
        }
    }
    let ghost f = s@.subrange(frac_start as int, b as int);
    if p == a && frac_start == b {
        assert(f.len() == 0);
        return None;
    }
    let mut j: usize = frac_start;
    while j < b
        invariant
            frac_start <= j <= b <= s@.len(),
            f == s@.subrange(frac_start as int, b as int),
            forall|m: int| frac_start <= m < j ==> is_digit(#[trigger] s@[m]),
        decreases b - j,
    {
        if !('0' <= s[j] && s[j] <= '9') {
            assert(f[j - frac_start] == s@[j as int]);
            return None;
        }
        j = j + 1;
    }
    assert(all_digits(f));
    let mut nanos: u64 = 0;
    let mut k: usize = 0;
    while k < 9
        invariant
            frac_start <= b <= s@.len(),
            f == s@.subrange(frac_start as int, b as int),
            all_digits(f),
            k <= 9,
            nanos == scaled(f, k as nat),
            nanos < pow10(k as nat),
        decreases 9 - k,
    {
        proof {
            reveal_with_fuel(pow10, 10);
        }
        let mut d: u64 = 0;
        if k < b - frac_start {
            assert(is_digit(f[k as int]));
            d = (s[frac_start + k] as u32 - '0' as u32) as u64;
        }
        nanos = nanos * 10 + d;
        k = k + 1;
    }
    proof {
        reveal_with_fuel(pow10, 10);
    }
    Some(w as u128 * 1_000_000_000 + nanos as u128)
}

/// Ten to the `k`.
pub open spec fn pow10(k: nat) -> nat
    decreases k,
{
    if k == 0 {
        1
    } else {
        10 * pow10((k - 1) as nat)
    }
}

} // verus!
