//! Text comparison for the modules that look things up by name.

use vstd::prelude::*;
use vstd::string::StringExecFns;

verus! {

/// Whether both texts hold the same characters in the same order.
pub(crate) fn same_text(a: &str, b: &str) -> (same: bool)
    ensures
        same == (a@ == b@),
{
    let left = String::from_str(a);
    let right = String::from_str(b);
    left == right
}

} // verus!
