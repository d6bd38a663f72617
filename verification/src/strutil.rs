//! String-slice equality with a stated meaning, for the symbol and
//! command modules.

use vstd::prelude::*;

verus! {

/// Relies on str's PartialEq: two string slices are equal exactly when
/// their character sequences are equal.
#[verifier::external_body]
pub fn str_eq(a: &str, b: &str) -> (r: bool)
    ensures
        r == (a@ == b@),
{
    a == b
}

} // verus!
