//! Character-level string predicates and their executable deciders:
//! exact equality and case-insensitive containment of an ASCII pattern.

use vstd::prelude::*;

verus! {

/// A character of scanned text matches a character of a lowercase
/// pattern: either exactly, or as its ASCII uppercase form.
pub open spec fn chars_match_ci(c: char, p: char) -> bool {
    c == p || (97 <= p as u32 <= 122 && c as u32 == p as u32 - 32)
}

/// The pattern occurs in `text` starting at position `i`, with ASCII
/// letters compared case-insensitively.
pub open spec fn matches_at(text: Seq<char>, pat: Seq<char>, i: int) -> bool {
    forall|j: int| 0 <= j < pat.len() ==> chars_match_ci(text[i + j], pat[j])
}

/// The pattern occurs somewhere in `text`, with ASCII letters compared
/// case-insensitively.
pub open spec fn contains_ci(text: Seq<char>, pat: Seq<char>) -> bool {
    exists|i: int| 0 <= i && i + pat.len() <= text.len() && matches_at(text, pat, i)
}

/// Decides `chars_match_ci`.
pub fn char_matches_ci(c: char, p: char) -> (r: bool)
    ensures
        r == chars_match_ci(c, p),
{
    if c == p {
        true
    } else {
        let cv = c as u32;
        let pv = p as u32;
        97 <= pv && pv <= 122 && pv >= 32 && cv == pv - 32
    }
}

/// Exact string equality, decided character by character.
pub fn str_eq(a: &str, b: &str) -> (r: bool)
    ensures
        r == (a@ == b@),
{
    let alen = a.unicode_len();
    let blen = b.unicode_len();
    if alen != blen {
        return false;
    }
    let mut i: usize = 0;
    while i < alen
        invariant
            alen == a@.len(),
            alen == b@.len(),
            i <= alen,
            forall|j: int| 0 <= j < i ==> a@[j] == b@[j],
        decreases alen - i,
    {
        if a.get_char(i) != b.get_char(i) {
            return false;
        }
        i += 1;
    }
    proof {
        assert(a@ =~= b@);
    }
    true
}

/// Decides `matches_at` for a fixed start position.
fn matches_at_pos(text: &str, pat: &str, i: usize) -> (r: bool)
    requires
        i + pat@.len() <= text@.len(),
        text@.len() <= usize::MAX,
    ensures
        r == matches_at(text@, pat@, i as int),
{
    let m = pat.unicode_len();
    let mut j: usize = 0;
    while j < m
        invariant
            m == pat@.len(),
            i + m <= text@.len(),
            text@.len() <= usize::MAX,
            j <= m,
            forall|k: int| 0 <= k < j ==> chars_match_ci(text@[i + k], pat@[k]),
        decreases m - j,
    {
        let c = text.get_char(i + j);
        let p = pat.get_char(j);
        if !char_matches_ci(c, p) {
            return false;
        }
        j += 1;
    }
    true
}

/// Decides `contains_ci` by scanning every start position.
pub fn contains_ci_str(text: &str, pat: &str) -> (r: bool)
    ensures
        r == contains_ci(text@, pat@),
{
    let n = text.unicode_len();
    let m = pat.unicode_len();
    if m > n {
        return false;
    }
    let mut i: usize = 0;
    while i <= n - m
        invariant
            n == text@.len(),
            m == pat@.len(),
            m <= n,
            i <= n - m + 1,
            forall|k: int| 0 <= k < i ==> !matches_at(text@, pat@, k),
        decreases n - i,
    {
        if matches_at_pos(text, pat, i) {
            return true;
        }
        i += 1;
    }
    false
}

} // verus!
