//! Comparisons between strings and string slices.

use vstd::prelude::*;

verus! {

/// Whether `s` begins with `prefix`.
pub open spec fn spec_starts_with(s: Seq<char>, prefix: Seq<char>) -> bool {
    prefix.len() <= s.len() && s.subrange(0, prefix.len() as int) == prefix
}

/// Whether `s` begins with `prefix`.
pub fn starts_with(s: &String, prefix: &str) -> (b: bool)
    ensures
        b == spec_starts_with(s@, prefix@),
{
    let ss = s.as_str();
    let n = ss.unicode_len();
    let m = prefix.unicode_len();
    if m > n {
        return false;
    }
    let mut i: usize = 0;
    while i < m
        invariant
            m == prefix@.len(),
            n == s@.len(),
            ss@ == s@,
            m <= n,
            i <= m,
            forall|j: int| 0 <= j < i ==> s@[j] == prefix@[j],
        decreases m - i,
    {
        if ss.get_char(i) != prefix.get_char(i) {
            return false;
        }
        i = i + 1;
    }
    assert(s@.subrange(0, m as int) =~= prefix@);
    true
}

/// Whether `s` and `t` have the same characters.
pub fn equals_str(s: &String, t: &str) -> (b: bool)
    ensures
        b == (s@ == t@),
{
    let ss = s.as_str();
    if ss.unicode_len() != t.unicode_len() {
        return false;
    }
    let r = starts_with(s, t);
    proof {
        if r {
            assert(s@ =~= t@) by {
                assert(s@.subrange(0, t@.len() as int) == t@);
            }
        } else {
            assert(s@.subrange(0, s@.len() as int) =~= s@);
        }
    }
    r
}

} // verus!
