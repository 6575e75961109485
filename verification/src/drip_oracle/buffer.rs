//! The recent observations of an asset.
use vstd::prelude::*;

use crate::address::Address;
use crate::drip_oracle::storage::Observation;
use crate::host;
use crate::host::ObservationWords;

verus! {

/// The observation that `words` stand for.
pub open spec fn observation_of_words(words: ObservationWords) -> Observation {
    Observation {
        price: words.0,
        timestamp: words.1,
        oracle: Address { is_contract: words.2, high: words.3, low: words.4 },
    }
}

/// A list of observations, oldest first, kept in the host.
pub struct ObservationBuffer {
    pub entries: soroban_sdk::Vec<ObservationWords>,
}

impl View for ObservationBuffer {
    type V = Seq<Observation>;

    open spec fn view(&self) -> Seq<Observation> {
        Seq::new(
            host::observation_items(self.entries).len(),
            |i: int| observation_of_words(host::observation_items(self.entries)[i]->0),
        )
    }
}

impl ObservationBuffer {
    /// Every item of the host list is an observation.
    pub open spec fn wf(self) -> bool {
        forall|i: int|
            0 <= i < host::observation_items(self.entries).len() ==> (
            #[trigger] host::observation_items(self.entries)[i]) is Some
    }

    /// An empty buffer.
    pub fn new(env: &soroban_sdk::Env) -> (buffer: ObservationBuffer)
        ensures
            buffer.wf(),
            buffer@ == Seq::<Observation>::empty(),
    {
        ObservationBuffer { entries: host::observations_new(env) }
    }

    /// The number of observations.
    pub fn len(&self) -> (n: u32)
        ensures
            n == self@.len(),
    {
        host::observations_len(&self.entries)
    }

    /// The observation at position `i`, or `None` past the end.
    pub fn get(&self, i: u32) -> (observation: Option<Observation>)
        requires
            self.wf(),
        ensures
            observation == if i < self@.len() {
                Some(self@[i as int])
            } else {
                None
            },
    {
        match host::observations_get(&self.entries, i) {
            Some((price, timestamp, is_contract, high, low)) => Some(
                Observation { price, timestamp, oracle: Address { is_contract, high, low } },
            ),
            None => None,
        }
    }

    /// The newest observation, or `None` where there is none.
    pub fn last(&self) -> (observation: Option<Observation>)
        requires
            self.wf(),
        ensures
            observation == if self@.len() > 0 {
                Some(self@.last())
            } else {
                None
            },
    {
        let n: u32 = self.len();
        if n == 0 {
            None
        } else {
            self.get(n - 1)
        }
    }

    /// The timestamp of the observation at position `idx`.
    pub fn get_unchecked_ts(&self, idx: u32) -> (timestamp: u64)
        requires
            self.wf(),
            idx < self@.len(),
        ensures
            timestamp == self@[idx as int].timestamp,
    {
        self.get(idx).unwrap().timestamp
    }

    /// The price of the observation at position `idx`.
    pub fn get_unchecked_price(&self, idx: u32) -> (price: i128)
        requires
            self.wf(),
            idx < self@.len(),
        ensures
            price == self@[idx as int].price,
    {
        self.get(idx).unwrap().price
    }

    /// Appends an observation as the newest.
    pub fn push_back(&mut self, observation: Observation)
        requires
            old(self).wf(),
            old(self)@.len() < u32::MAX,
        ensures
            final(self).wf(),
            final(self)@ == old(self)@.push(observation),
    {
        let words: ObservationWords = (
            observation.price,
            observation.timestamp,
            observation.oracle.is_contract,
            observation.oracle.high,
            observation.oracle.low,
        );
        host::observations_push_back(&mut self.entries, words);
        assert(self@ =~= old(self)@.push(observation));
    }

    /// Takes the oldest observation out.
    pub fn remove_oldest(&mut self)
        requires
            old(self).wf(),
            old(self)@.len() > 0,
        ensures
            final(self).wf(),
            final(self)@ == old(self)@.drop_first(),
    {
        host::observations_remove(&mut self.entries, 0);
        assert(self@ =~= old(self)@.drop_first());
    }
}

} // verus!
