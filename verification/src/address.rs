//! Ledger addresses as plain values.
use vstd::prelude::*;

verus! {

/// The words by which an address is kept inside a host list: whether it names
/// a contract, and the high and the low half of its identifier.
pub type AddressWords = (bool, u128, u128);

/// An account or a contract on the ledger.
///
/// `high` and `low` are the two big-endian halves of the 32-byte identifier:
/// the ed25519 public key of an account, or the hash that names a contract.
#[derive(Clone, Copy, Debug, PartialEq, Eq, Structural)]
pub struct Address {
    pub is_contract: bool,
    pub high: u128,
    pub low: u128,
}

/// The address that `words` stand for.
pub open spec fn address_of_words(words: AddressWords) -> Address {
    Address { is_contract: words.0, high: words.1, low: words.2 }
}

impl Address {
    /// The words that stand for this address.
    pub open spec fn spec_words(self) -> AddressWords {
        (self.is_contract, self.high, self.low)
    }

    /// The words that stand for this address.
    pub fn words(&self) -> (words: AddressWords)
        ensures
            words == self.spec_words(),
            address_of_words(words) == *self,
            words == (self.is_contract, self.high, self.low),
    {
        (self.is_contract, self.high, self.low)
    }

    /// The address that `words` stand for.
    pub fn from_words(words: AddressWords) -> (address: Address)
        ensures
            address == address_of_words(words),
            address.spec_words() == words,
            address == (Address { is_contract: words.0, high: words.1, low: words.2 }),
    {
        Address { is_contract: words.0, high: words.1, low: words.2 }
    }
}

} // verus!
