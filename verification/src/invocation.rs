//! What a contract call is told about the ledger it runs on.
use vstd::prelude::*;

use crate::address::Address;

verus! {

/// The surroundings of one contract call.
pub struct Invocation {
    /// The host in which new lists are made.
    pub env: soroban_sdk::Env,
    /// The ledger clock, in seconds.
    pub timestamp: u64,
    /// The addresses whose signatures the host has checked for this call.
    pub signers: Vec<Address>,
}

impl Invocation {
    /// `who` has authorized this call.
    pub open spec fn signed_by(self, who: Address) -> bool {
        self.signers@.contains(who)
    }
}

/// A call is authorized by its signers and by no one else.
pub proof fn signers_authorize(call: Invocation, who: Address)
    ensures
        call.signed_by(who) <==> exists|i: int|
            0 <= i < call.signers@.len() && call.signers@[i] == who,
{
}

} // verus!
