use vstd::prelude::*;

verus! {

/// ASCII whitespace: what separates the fields of the kernel's records.
pub open spec fn is_space(c: char) -> bool {
    c == ' ' || c == '\t' || c == '\n' || c == '\r' || c == '\x0B' || c == '\x0C'
}

/// An ASCII decimal digit.
pub open spec fn is_digit(c: char) -> bool {
    '0' <= c && c <= '9'
}

/// The value of an ASCII digit.
pub open spec fn digit_value(c: char) -> nat {
    (c as u32 - '0' as u32) as nat
}

/// The value of a run of decimal digits, most significant first.
pub open spec fn digits_value(s: Seq<char>) -> nat
    decreases s.len(),
{
    if s.len() == 0 {
        0
    } else {
        10 * digits_value(s.drop_last()) + digit_value(s.last())
    }
}

/// Every character of `s` is a digit.
pub open spec fn all_digits(s: Seq<char>) -> bool {
    forall|i: int| 0 <= i < s.len() ==> is_digit(#[trigger] s[i])
}

/// A field starts at `i`: a non-space character at the start or after a space.
pub open spec fn is_field_start(s: Seq<char>, i: int) -> bool {
    0 <= i < s.len() && !is_space(s[i]) && (i == 0 || is_space(s[i - 1]))
}

/// How many fields start before position `i`.
pub open spec fn fields_before(s: Seq<char>, i: int) -> nat
    decreases i,
{
    if i <= 0 {
        0
    } else if is_field_start(s, i - 1) {
        fields_before(s, i - 1) + 1
    } else {
        fields_before(s, i - 1)
    }
}

/// The end of the field that runs from `i`: the first space at or after `i`.
pub open spec fn field_end(s: Seq<char>, i: int) -> int
    decreases s.len() - i,
{
    if i < 0 || i >= s.len() || is_space(s[i]) {
        i
    } else {
        field_end(s, i + 1)
    }
}

/// The `k`-th (from zero) whitespace-delimited field of `s`, if `s` has that many.
pub open spec fn field(s: Seq<char>, k: nat) -> Option<Seq<char>> {
    if exists|a: int| is_field_start(s, a) && fields_before(s, a) == k {
        let a = choose|a: int| is_field_start(s, a) && fields_before(s, a) == k;
        Some(s.subrange(a, field_end(s, a)))
    } else {
        None
    }
}

proof fn lemma_fields_before_monotonic(s: Seq<char>, i: int, j: int)
    requires
        i <= j,
    ensures
        fields_before(s, i) <= fields_before(s, j),
    decreases j - i,
{
    if i < j {
        lemma_fields_before_monotonic(s, i, j - 1);
    }
}

proof fn lemma_field_start_unique(s: Seq<char>, a: int, b: int)
    requires
        is_field_start(s, a),
        is_field_start(s, b),
        fields_before(s, a) == fields_before(s, b),
    ensures
        a == b,
{
    if a < b {
        lemma_fields_before_monotonic(s, a + 1, b);
    } else if b < a {
        lemma_fields_before_monotonic(s, b + 1, a);
    }
}

/// Whether `c` is ASCII whitespace.
pub fn char_is_space(c: char) -> (r: bool)
    ensures
        r == is_space(c),
{
    c == ' ' || c == '\t' || c == '\n' || c == '\r' || c == '\x0B' || c == '\x0C'
}

/// The characters of `s`, in order.
pub fn chars_of(s: &str) -> (v: Vec<char>)
    ensures
        v@ == s@,
{
    broadcast use vstd::string::axiom_spec_iter;

    let mut v: Vec<char> = Vec::new();
    for c in it: s.chars()
        invariant
            v@ == it.seq().take(it.index()),
            it.seq() == s@,
    {
        v.push(c);
    }
    v
}

/// The position range `[a, b)` of the `k`-th whitespace-delimited field of `s`.
pub fn find_field(s: &Vec<char>, k: usize) -> (r: Option<(usize, usize)>)
    ensures
        r is None <==> field(s@, k as nat) is None,
        r matches Some((a, b)) ==> a <= b <= s@.len() && field(s@, k as nat) == Some(
            s@.subrange(a as int, b as int),
        ),
{
    let n = s.len();
    let mut count: usize = 0;
    let mut i: usize = 0;
    while i < n
        invariant
            i <= n == s@.len(),
            count == fields_before(s@, i as int),
            count <= k,
            forall|a: int| 0 <= a < i && is_field_start(s@, a) ==> fields_before(s@, a) < k,
        decreases n - i,
    {
        let starts = !char_is_space(s[i]) && (i == 0 || char_is_space(s[i - 1]));
        assert(starts == is_field_start(s@, i as int));
        if starts {
            if count == k {
                let mut j: usize = i;
                while j < n && !char_is_space(s[j])
                    invariant
                        i <= j <= n == s@.len(),
                        field_end(s@, i as int) == field_end(s@, j as int),
                    decreases n - j,
                {
                    j = j + 1;
                }
                proof {
                    let ks = k as nat;
                    assert(is_field_start(s@, i as int) && fields_before(s@, i as int) == ks);
                    let a = choose|a: int| is_field_start(s@, a) && fields_before(s@, a) == ks;
                    lemma_field_start_unique(s@, a, i as int);
                }
                return Some((i, j));
            }
            count = count + 1;
        }
        i = i + 1;
    }
    proof {
        assert forall|a: int| is_field_start(s@, a) implies fields_before(s@, a) != k as nat by {
        }
    }
    None
}

} // verus!
