use vstd::prelude::*;

use crate::text::chars_of;

verus! {

/// A line of `s` starts at `i`.
pub open spec fn is_line_start(s: Seq<char>, i: int) -> bool {
    0 <= i < s.len() && (i == 0 || s[i - 1] == '\n')
}

/// The position of the line feed that ends the line holding `i`, or the end of `s`.
pub open spec fn line_end(s: Seq<char>, i: int) -> int
    decreases s.len() - i,
{
    if i < 0 || i >= s.len() || s[i] == '\n' {
        i
    } else {
        line_end(s, i + 1)
    }
}

/// The end of the text of the line that starts at `i`: a carriage return just
/// before its line feed is no part of it.
pub open spec fn line_text_end(s: Seq<char>, i: int) -> int {
    let e = line_end(s, i);
    if e < s.len() && e > i && s[e - 1] == '\r' {
        e - 1
    } else {
        e
    }
}

/// The first tab in `s[j..end)`, or `end`.
pub open spec fn first_tab(s: Seq<char>, j: int, end: int) -> int
    decreases end - j,
{
    if j >= end || s[j] == '\t' {
        j
    } else {
        first_tab(s, j + 1, end)
    }
}

/// The marker that begins the state line.
pub open spec fn state_marker() -> Seq<char> {
    seq!['S', 't', 'a', 't', 'e', ':']
}

/// The text at `i` begins with the state marker.
pub open spec fn has_marker_at(s: Seq<char>, i: int) -> bool {
    0 <= i && i + 6 <= s.len() && s.subrange(i, i + 6) == state_marker()
}

/// The state named by the first line at or after `i` that begins with `State:`:
/// the rest of that line after its first tab; absent when no such line exists or
/// it has no tab.
pub open spec fn state_from(s: Seq<char>, i: int) -> Option<Seq<char>>
    decreases s.len() - i,
{
    if i < 0 || i >= s.len() {
        None
    } else if is_line_start(s, i) && has_marker_at(s, i) {
        let e = line_text_end(s, i);
        let t = first_tab(s, i, e);
        if t < e {
            Some(s.subrange(t + 1, e))
        } else {
            None
        }
    } else {
        state_from(s, i + 1)
    }
}

/// The process state given in the text of a status record.
pub open spec fn state_of(status: Seq<char>) -> Option<Seq<char>> {
    state_from(status, 0)
}

proof fn lemma_line_end(s: Seq<char>, i: int)
    requires
        0 <= i <= s.len(),
    ensures
        i <= line_end(s, i) <= s.len(),
    decreases s.len() - i,
{
    if i < s.len() && s[i] != '\n' {
        lemma_line_end(s, i + 1);
    }
}

/// Finds the process state in the text of a status record: the text after the tab
/// of the first line that begins with `State:` (for example `S (sleeping)`).
pub fn find_state(status: &str) -> (r: Option<String>)
    ensures
        r matches Some(v) ==> state_of(status@) == Some(v@),
        r is None ==> state_of(status@) is None,
{
    let s = chars_of(status);
    let n = s.len();
    let mut i: usize = 0;
    while i < n
        invariant
            i <= n == s@.len(),
            s@ == status@,
            state_from(s@, 0) == state_from(s@, i as int),
        decreases n - i,
    {
        let at_line_start = i == 0 || s[i - 1] == '\n';
        let marked = n - i >= 6 && s[i] == 'S' && s[i + 1] == 't' && s[i + 2] == 'a' && s[i + 3]
            == 't' && s[i + 4] == 'e' && s[i + 5] == ':';
        assert(marked ==> s@.subrange(i as int, i + 6) =~= state_marker());
        assert(has_marker_at(s@, i as int) ==> marked) by {
            if has_marker_at(s@, i as int) {
                let m = s@.subrange(i as int, i + 6);
                assert(m[0] == 'S' && m[1] == 't' && m[2] == 'a' && m[3] == 't' && m[4] == 'e'
                    && m[5] == ':');
            }
        }
        if at_line_start && marked {
            let mut e: usize = i;
            while e < n && s[e] != '\n'
                invariant
                    i <= e <= n == s@.len(),
                    line_end(s@, i as int) == line_end(s@, e as int),
                decreases n - e,
            {
                e = e + 1;
            }
            proof {
                lemma_line_end(s@, e as int);
            }
            if e < n && e > i && s[e - 1] == '\r' {
                e = e - 1;
            }
            let mut t: usize = i;
            while t < e && s[t] != '\t'
                invariant
                    i <= t <= e <= n == s@.len(),
                    first_tab(s@, i as int, e as int) == first_tab(s@, t as int, e as int),
                decreases e - t,
            {
                t = t + 1;
            }
            if t < e {
                let text = status.substring_char(t + 1, e);
                return Some(text.to_owned());
            }
            return None;
        }
        i = i + 1;
    }
    None
}

} // verus!
