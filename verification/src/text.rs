//! Character-level helpers on string slices.

use vstd::prelude::*;
use vstd::string::StrSliceExecFns;

verus! {

/// Whether two string slices hold the same characters.
pub fn str_eq(a: &str, b: &str) -> (r: bool)
    ensures
        r == (a@ == b@),
{
    let na = a.unicode_len();
    let nb = b.unicode_len();
    if na != nb {
        proof {
            assert(a@ != b@) by {
                assert(a@.len() != b@.len());
            }
        }
        return false;
    }
    for i in 0..na
        invariant
            na == a@.len(),
            na == b@.len(),
            i <= na,
            forall|j: int| 0 <= j < i ==> a@[j] == b@[j],
    {
        if a.get_char(i) != b.get_char(i) {
            return false;
        }
    }
    proof {
        assert(a@ =~= b@);
    }
    true
}

} // verus!
