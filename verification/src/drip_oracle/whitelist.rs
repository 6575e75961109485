//! The oracles that may submit prices for an asset.
use vstd::prelude::*;

use crate::address::{Address, AddressWords};
use crate::drip_oracle::model::{other_than, without};
use crate::host;

verus! {

/// A list of oracle addresses in insertion order, kept in the host.
pub struct Whitelist {
    pub entries: soroban_sdk::Vec<AddressWords>,
}

impl View for Whitelist {
    type V = Seq<Address>;

    open spec fn view(&self) -> Seq<Address> {
        Seq::new(
            host::address_items(self.entries).len(),
            |i: int| crate::address::address_of_words(host::address_items(self.entries)[i]->0),
        )
    }
}

impl Whitelist {
    /// Every item of the host list is an address.
    pub open spec fn wf(self) -> bool {
        forall|i: int|
            0 <= i < host::address_items(self.entries).len() ==> (
            #[trigger] host::address_items(self.entries)[i]) is Some
    }

    /// An empty list.
    pub fn new(env: &soroban_sdk::Env) -> (list: Whitelist)
        ensures
            list.wf(),
            list@ == Seq::<Address>::empty(),
    {
        Whitelist { entries: host::addresses_new(env) }
    }

    /// The number of addresses.
    pub fn len(&self) -> (n: u32)
        ensures
            n == self@.len(),
    {
        host::addresses_len(&self.entries)
    }

    /// The address at position `i`, or `None` past the end.
    pub fn get(&self, i: u32) -> (address: Option<Address>)
        requires
            self.wf(),
        ensures
            address == if i < self@.len() {
                Some(self@[i as int])
            } else {
                None
            },
    {
        match host::addresses_get(&self.entries, i) {
            Some(words) => Some(Address::from_words(words)),
            None => None,
        }
    }

    /// Appends an address.
    pub fn push_back(&mut self, address: Address)
        requires
            old(self).wf(),
            old(self)@.len() < u32::MAX,
        ensures
            final(self).wf(),
            final(self)@ == old(self)@.push(address),
    {
        let words: AddressWords = address.words();
        host::addresses_push_back(&mut self.entries, words);
        assert(self@ =~= old(self)@.push(address));
    }
}

/// Whether `needle` is on the list.
pub fn list_contains(list: &Whitelist, needle: &Address) -> (found: bool)
    requires
        list.wf(),
    ensures
        found == list@.contains(*needle),
{
    let mut i: u32 = 0;
    while i < list.len()
        invariant
            list.wf(),
            i <= list@.len(),
            forall|j: int| 0 <= j < i ==> list@[j] != *needle,
        decreases list@.len() - i,
    {
        if let Some(address) = list.get(i) {
            if address == *needle {
                assert(list@[i as int] == *needle);
                return true;
            }
        }
        i += 1;
    }
    false
}

/// A copy of the list without `oracle`, and whether `oracle` was on it.
pub fn list_without(env: &soroban_sdk::Env, list: &Whitelist, oracle: &Address) -> (r: (
    Whitelist,
    bool,
))
    requires
        list.wf(),
    ensures
        r.0.wf(),
        r.0@ == without(list@, *oracle),
        r.1 == list@.contains(*oracle),
{
    let mut kept = Whitelist::new(env);
    let mut changed = false;
    let mut i: u32 = 0;
    let n: u32 = list.len();
    assert(list@.take(0).filter(other_than(*oracle)) =~= Seq::empty()) by {
        reveal(Seq::filter);
    }
    while i < n
        invariant
            list.wf(),
            kept.wf(),
            i <= n == list@.len(),
            kept@ == list@.take(i as int).filter(other_than(*oracle)),
            kept@.len() <= i,
            changed == exists|j: int| 0 <= j < i && list@[j] == *oracle,
        decreases list@.len() - i,
    {
        proof {
            reveal(Seq::filter);
            assert(list@.take(i + 1).drop_last() =~= list@.take(i as int));
        }
        if let Some(address) = list.get(i) {
            if address == *oracle {
                changed = true;
            } else {
                kept.push_back(address);
            }
        }
        i += 1;
    }
    assert(list@.take(i as int) =~= list@);
    (kept, changed)
}

} // verus!
