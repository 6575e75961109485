//! Admin authorization.
use vstd::prelude::*;

use crate::address::Address;
use crate::drip_oracle::errors::Error;
use crate::drip_oracle::model::admin_check;
use crate::invocation::Invocation;

verus! {

/// Requires `caller` to be the recorded admin and to have signed the call.
///
/// The admin is read first, then compared; only a caller who is the admin needs
/// a signature.
pub fn require_admin(call: &Invocation, admin: &Option<Address>, caller: &Address) -> (r: Result<
    (),
    Error,
>)
    requires
        admin_check(*admin, *caller) is Ok ==> call.signed_by(*caller),
    ensures
        r == admin_check(*admin, *caller),
{
    match admin {
        None => Err(Error::NotInitialized),
        Some(recorded) => if *caller != *recorded {
            Err(Error::NotAuthorized)
        } else {
            Ok(())
        },
    }
}

} // verus!
