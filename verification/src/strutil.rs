//! Small verified helpers on string slices.

use vstd::prelude::*;
use vstd::string::StrSliceExecFns;

verus! {

/// First index at or after `from` where `c` occurs in `t`, or `t.len()` when
/// `c` does not occur there.
pub open spec fn find_char(t: Seq<char>, from: int, c: char) -> int
    decreases t.len() - from,
    when 0 <= from <= t.len()
{
    if from >= t.len() {
        t.len() as int
    } else if t[from] == c {
        from
    } else {
        find_char(t, from + 1, c)
    }
}

/// Character-by-character equality of two string slices.
pub fn str_eq(a: &str, b: &str) -> (r: bool)
    ensures
        r == (a@ == b@),
{
    let n = a.unicode_len();
    if n != b.unicode_len() {
        return false;
    }
    let mut i: usize = 0;
    while i < n
        invariant
            n == a@.len(),
            n == b@.len(),
            i <= n,
            forall|j: int| 0 <= j < i ==> a@[j] == b@[j],
        decreases n - i,
    {
        if a.get_char(i) != b.get_char(i) {
            return false;
        }
        i += 1;
    }
    proof {
        assert(a@ =~= b@);
    }
    true
}

/// First position at or after `from` holding the character `c`.
pub fn find_char_at(s: &str, from: usize, c: char) -> (r: usize)
    requires
        from <= s@.len(),
    ensures
        r as int == find_char(s@, from as int, c),
        from <= r <= s@.len(),
        r < s@.len() ==> s@[r as int] == c,
    decreases s@.len() - from,
{
    if from == s.unicode_len() {
        from
    } else if s.get_char(from) == c {
        from
    } else {
        find_char_at(s, from + 1, c)
    }
}

} // verus!
