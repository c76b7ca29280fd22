//! The authorization gate: an endpoint names the capabilities it requires,
//! and a caller passes only if it holds every one of them.

use vstd::prelude::*;
use crate::error::ApiError;

verus! {

/// A named capability that a user account may hold.
#[derive(Debug, PartialEq, Eq, Structural, Copy, Clone, Hash)]
pub enum Permission {
    ExtendedAccess,
    ListHelper,
    ListModerator,
    ListAdministrator,
    Moderator,
    Administrator,
}

/// An authenticated caller, with the capabilities its session resolved to.
#[derive(Debug, Clone, PartialEq, Eq)]
pub struct Caller {
    pub user_id: i32,
    pub permissions: Vec<Permission>,
}

/// Every capability in `required` is among those in `held`.
pub open spec fn holds_all(held: Seq<Permission>, required: Seq<Permission>) -> bool {
    forall|i: int| 0 <= i < required.len() ==> held.contains(#[trigger] required[i])
}

fn holds(held: &Vec<Permission>, p: Permission) -> (r: bool)
    ensures
        r == held@.contains(p),
{
    let mut i: usize = 0;
    while i < held.len()
        invariant
            i <= held@.len(),
            forall|j: int| 0 <= j < i ==> held@[j] != p,
        decreases held@.len() - i,
    {
        if held[i] == p {
            return true;
        }
        i = i + 1;
    }
    false
}

/// Lets `caller` through if it holds every capability in `required`, and
/// refuses it with `Forbidden` otherwise.
pub fn authorize(caller: Caller, required: &[Permission]) -> (r: Result<Caller, ApiError>)
    ensures
        holds_all(caller.permissions@, required@) ==> r == Ok::<Caller, ApiError>(caller),
        !holds_all(caller.permissions@, required@) ==> r == Err::<Caller, ApiError>(
            ApiError::Forbidden,
        ),
{
    let mut i: usize = 0;
    while i < required.len()
        invariant
            i <= required@.len(),
            holds_all(caller.permissions@, required@.subrange(0, i as int)),
        decreases required@.len() - i,
    {
        if !holds(&caller.permissions, required[i]) {
            assert(!caller.permissions@.contains(required@[i as int]));
            return Err(ApiError::Forbidden);
        }
        assert forall|j: int| 0 <= j < i + 1 implies caller.permissions@.contains(
            #[trigger] required@.subrange(0, i + 1)[j],
        ) by {
            if j < i {
                assert(required@.subrange(0, i + 1)[j] == required@.subrange(0, i as int)[j]);
            }
        }
        i = i + 1;
    }
    assert(required@.subrange(0, i as int) =~= required@);
    Ok(caller)
}

} // verus!
