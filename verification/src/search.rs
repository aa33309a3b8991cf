//! The optional-value component's operation: a linear scan for the first
//! occurrence of a character. Not finding the character is a valid outcome,
//! reported as `None`, never through a failure channel.

use vstd::prelude::*;

verus! {

/// `c` occurs nowhere in `s`.
pub open spec fn absent(s: Seq<char>, c: char) -> bool {
    forall|i: int| 0 <= i < s.len() ==> s[i] != c
}

/// The first occurrence of `c` in `s` is at position `p` (zero-based, counted
/// in characters).
pub open spec fn first_occurrence_at(s: Seq<char>, c: char, p: int) -> bool {
    &&& 0 <= p < s.len()
    &&& s[p] == c
    &&& forall|i: int| 0 <= i < p ==> s[i] != c
}

/// Scans `s` left to right and reports the position of the first occurrence
/// of `c`, or `None` when `c` never occurs.
pub fn find_char(s: &str, c: char) -> (r: Option<usize>)
    ensures
        match r {
            Some(p) => first_occurrence_at(s@, c, p as int),
            None => absent(s@, c),
        },
{
    let n = s.unicode_len();
    let mut i: usize = 0;
    while i < n
        invariant
            n == s@.len(),
            i <= n,
            forall|j: int| 0 <= j < i ==> s@[j] != c,
        decreases n - i,
    {
        if s.get_char(i) == c {
            return Some(i);
        }
        i += 1;
    }
    None
}

/// The search demonstration: looks `l` up in `s` and forwards an absent
/// result to its own caller unchanged, via the short-circuit operator.
pub fn question_option(s: &str, l: char) -> (r: Option<usize>)
    ensures
        match r {
            Some(p) => first_occurrence_at(s@, l, p as int),
            None => absent(s@, l),
        },
{
    let pos = find_char(s, l)?;

    Some(pos)
}

} // verus!
