use vstd::prelude::*;
use crate::types::Address;

verus! {

/// The access-control check of the admin operations: whether the caller is
/// the expected identity.  Stateless; callers translate a `false` result
/// into an `Unauthorized` outcome.
pub fn is_authorized(caller: &Address, expected: &Address) -> (r: bool)
    ensures
        r == (caller@ == expected@),
{
    caller.same_as(expected)
}

} // verus!
