//! DripOracle: a time-weighted average price for fiat-denominated streams.
use vstd::prelude::*;

use crate::address::Address;
use crate::invocation::Invocation;

pub mod admin;
pub mod answers;
pub mod buffer;
pub mod errors;
pub mod laws;
pub mod model;
pub mod storage;
pub mod twap;
pub mod whitelist;

use buffer::ObservationBuffer;
use errors::Error;
use model::{admin_check, empty_feed, nothing_recorded, FeedView, OracleView};
use storage::{AssetConfig, DataKey, Observation};
use twap::{bump_persistent, BUFFER_MAX, CLOCK_DRIFT_TOLERANCE, MAX_DECIMALS};
use whitelist::{list_contains, Whitelist};

verus! {

/// What is recorded for one asset.
pub struct Feed {
    pub asset: Address,
    pub config: Option<AssetConfig>,
    pub oracles: Whitelist,
    pub observations: ObservationBuffer,
}

impl View for Feed {
    type V = FeedView;

    open spec fn view(&self) -> FeedView {
        FeedView {
            config: self.config,
            oracles: self.oracles@,
            observations: self.observations@,
        }
    }
}

impl Feed {
    pub open spec fn wf(self) -> bool {
        self.oracles.wf() && self.observations.wf()
    }
}

/// The position of `asset` among the feeds.
pub open spec fn is_feed_of(feeds: Seq<Feed>, i: int, asset: Address) -> bool {
    0 <= i < feeds.len() && feeds[i].asset == asset
}

/// What `feeds` record for `asset`.
pub open spec fn feed_of(feeds: Seq<Feed>, asset: Address) -> FeedView {
    if exists|i: int| is_feed_of(feeds, i, asset) {
        feeds[choose|i: int| is_feed_of(feeds, i, asset)]@
    } else {
        empty_feed()
    }
}

/// Each asset has at most one feed.
pub open spec fn unique_assets(feeds: Seq<Feed>) -> bool {
    forall|i: int, j: int|
        0 <= i < j < feeds.len() ==> (#[trigger] feeds[i]).asset != (#[trigger] feeds[j]).asset
}

/// What `feeds` record for every asset.
pub open spec fn all_feeds(feeds: Seq<Feed>) -> Map<Address, FeedView> {
    Map::total(|asset: Address| feed_of(feeds, asset))
}

pub(crate) proof fn lemma_feed_of(feeds: Seq<Feed>, i: int)
    requires
        unique_assets(feeds),
        0 <= i < feeds.len(),
    ensures
        feed_of(feeds, feeds[i].asset) == feeds[i]@,
{
    assert(is_feed_of(feeds, i, feeds[i].asset));
}

/// Replacing one feed by another of the same asset changes that asset alone.
proof fn lemma_feed_replaced(before: Seq<Feed>, after: Seq<Feed>, i: int)
    requires
        unique_assets(before),
        0 <= i < before.len(),
        after.len() == before.len(),
        forall|j: int| 0 <= j < before.len() && j != i ==> after[j] == before[j],
        after[i].asset == before[i].asset,
    ensures
        unique_assets(after),
        all_feeds(after) == all_feeds(before).insert(after[i].asset, after[i]@),
{
    assert forall|j: int, k: int| 0 <= j < k < after.len() implies (#[trigger] after[j]).asset != (
    #[trigger] after[k]).asset by {
        assert(before[j].asset != before[k].asset);
    }
    assert forall|asset: Address| asset != after[i].asset implies feed_of(after, asset) == feed_of(
        before,
        asset,
    ) by {
        if exists|j: int| is_feed_of(before, j, asset) {
            let j = choose|j: int| is_feed_of(before, j, asset);
            assert(is_feed_of(after, j, asset));
            lemma_feed_of(after, j);
        } else if exists|j: int| is_feed_of(after, j, asset) {
            let j = choose|j: int| is_feed_of(after, j, asset);
            assert(is_feed_of(before, j, asset));
        }
    }
    lemma_feed_of(after, i);
    assert(all_feeds(after) =~= all_feeds(before).insert(after[i].asset, after[i]@));
}

/// A feed of a new asset changes that asset alone.
proof fn lemma_feed_added(before: Seq<Feed>, feed: Feed)
    requires
        unique_assets(before),
        forall|j: int| !is_feed_of(before, j, feed.asset),
    ensures
        unique_assets(before.push(feed)),
        all_feeds(before.push(feed)) == all_feeds(before).insert(feed.asset, feed@),
{
    let after = before.push(feed);
    assert forall|j: int, k: int| 0 <= j < k < after.len() implies (#[trigger] after[j]).asset != (
    #[trigger] after[k]).asset by {
        assert(!is_feed_of(before, j, feed.asset));
    }
    assert forall|asset: Address| asset != feed.asset implies feed_of(after, asset) == feed_of(
        before,
        asset,
    ) by {
        if exists|j: int| is_feed_of(before, j, asset) {
            let j = choose|j: int| is_feed_of(before, j, asset);
            assert(is_feed_of(after, j, asset));
            lemma_feed_of(after, j);
        } else if exists|j: int| is_feed_of(after, j, asset) {
            let j = choose|j: int| is_feed_of(after, j, asset);
            assert(is_feed_of(before, j, asset));
        }
    }
    lemma_feed_of(after, before.len() as int);
    assert(all_feeds(after) =~= all_feeds(before).insert(feed.asset, feed@));
}

/// A price aggregator over a bounded buffer of observations per asset, fed by a
/// whitelist of oracles per asset and administered by a single admin.
pub struct DripOracle {
    pub admin: Option<Address>,
    pub feeds: Vec<Feed>,
    /// The entries whose lifetimes the host is to extend.
    pub touched: Vec<DataKey>,
}

impl View for DripOracle {
    type V = OracleView;

    open spec fn view(&self) -> OracleView {
        OracleView {
            admin: self.admin,
            feeds: all_feeds(self.feeds@),
            touched: self.touched@,
        }
    }
}

impl DripOracle {
    /// Each asset has at most one feed, and its lists hold what they should.
    pub open spec fn wf(self) -> bool {
        &&& unique_assets(self.feeds@)
        &&& forall|i: int| 0 <= i < self.feeds@.len() ==> (#[trigger] self.feeds@[i]).wf()
    }

    /// The position of the feed of `asset`.
    fn find(&self, asset: &Address) -> (position: Option<usize>)
        requires
            self.wf(),
        ensures
            match position {
                Some(i) => i < self.feeds@.len() && self.feeds@[i as int].asset == *asset
                    && self@.feed(*asset) == self.feeds@[i as int]@,
                None => (forall|i: int| !is_feed_of(self.feeds@, i, *asset)) && self@.feed(*asset)
                    == empty_feed(),
            },
    {
        let mut i: usize = 0;
        while i < self.feeds.len()
            invariant
                self.wf(),
                i <= self.feeds@.len(),
                forall|j: int| 0 <= j < i ==> (#[trigger] self.feeds@[j]).asset != *asset,
            decreases self.feeds@.len() - i,
        {
            if self.feeds[i].asset == *asset {
                proof {
                    assert(is_feed_of(self.feeds@, i as int, *asset));
                }
                return Some(i);
            }
            i += 1;
        }
        None
    }

    /// A contract of which nothing is recorded yet.
    pub fn new() -> (oracle: DripOracle)
        ensures
            oracle.wf(),
            oracle@ == nothing_recorded(),
    {
        let oracle = DripOracle { admin: None, feeds: Vec::new(), touched: Vec::new() };
        proof {
            assert(oracle@.feeds =~= nothing_recorded().feeds);
        }
        oracle
    }

    /// One-time setup: records the admin. A second call is refused, so the
    /// whitelists and configurations cannot be pointed at another admin.
    pub fn init(&mut self, admin: Address) -> (r: Result<(), Error>)
        requires
            old(self).wf(),
        ensures
            final(self).wf(),
            r == old(self)@.init_result(),
            final(self)@ == old(self)@.after_init(admin),
    {
        if self.admin.is_some() {
            return Err(Error::AlreadyInitialized);
        }
        self.admin = Some(admin);
        Ok(())
    }

    /// Sets the parameters of an asset. Admin only.
    ///
    /// Refused are more than `MAX_DECIMALS` decimals, and a zero window or
    /// staleness bound. The window may be longer than the staleness bound. An
    /// accepted call extends the lifetime of the entry.
    pub fn configure_asset(
        &mut self,
        call: &Invocation,
        admin: &Address,
        asset: Address,
        decimals: u32,
        window_size: u64,
        max_staleness: u64,
    ) -> (r: Result<(), Error>)
        requires
            old(self).wf(),
            admin_check(old(self).admin, *admin) is Ok ==> call.signed_by(*admin),
        ensures
            final(self).wf(),
            ({
                let config = AssetConfig { decimals, window_size, max_staleness };
                &&& r == old(self)@.configure_asset_result(*admin, config)
                &&& final(self)@ == old(self)@.after_configure_asset(*admin, asset, config)
            }),
    {
        if let Err(error) = admin::require_admin(call, &self.admin, admin) {
            return Err(error);
        }
        if decimals > MAX_DECIMALS || window_size == 0 || max_staleness == 0 {
            return Err(Error::InvalidConfig);
        }
        let config = AssetConfig { decimals, window_size, max_staleness };
        match self.find(&asset) {
            Some(i) => {
                self.feeds[i].config = Some(config);
                proof {
                    lemma_feed_replaced(old(self).feeds@, self.feeds@, i as int);
                }
            },
            None => {
                let feed = Feed {
                    asset,
                    config: Some(config),
                    oracles: Whitelist::new(&call.env),
                    observations: ObservationBuffer::new(&call.env),
                };
                proof {
                    lemma_feed_added(self.feeds@, feed);
                }
                self.feeds.push(feed);
            },
        }
        self.touched.push(DataKey::AssetConfig(asset));
        Ok(())
    }

    /// Appends `oracle` to the whitelist of an asset. Admin only. An oracle
    /// that is on it already stays where it is.
    pub fn add_oracle(
        &mut self,
        call: &Invocation,
        admin: &Address,
        asset: Address,
        oracle: Address,
    ) -> (r: Result<(), Error>)
        requires
            old(self).wf(),
            admin_check(old(self).admin, *admin) is Ok ==> call.signed_by(*admin),
            old(self)@.after_add_oracle(*admin, asset, oracle).feed(asset).oracles.len()
                <= u32::MAX,
        ensures
            final(self).wf(),
            r == old(self)@.add_oracle_result(*admin, asset),
            final(self)@ == old(self)@.after_add_oracle(*admin, asset, oracle),
    {
        if let Err(error) = admin::require_admin(call, &self.admin, admin) {
            return Err(error);
        }
        match self.find(&asset) {
            Some(i) => {
                if self.feeds[i].config.is_none() {
                    return Err(Error::AssetNotConfigured);
                }
                if !list_contains(&self.feeds[i].oracles, &oracle) {
                    self.feeds[i].oracles.push_back(oracle);
                    proof {
                        lemma_feed_replaced(old(self).feeds@, self.feeds@, i as int);
                    }
                    bump_persistent(&mut self.touched, DataKey::Oracles(asset));
                }
                Ok(())
            },
            None => Err(Error::AssetNotConfigured),
        }
    }

    /// Takes `oracle` off the whitelist of an asset. Admin only. Nothing
    /// happens where it is not on it.
    pub fn remove_oracle(
        &mut self,
        call: &Invocation,
        admin: &Address,
        asset: Address,
        oracle: Address,
    ) -> (r: Result<(), Error>)
        requires
            old(self).wf(),
            admin_check(old(self).admin, *admin) is Ok ==> call.signed_by(*admin),
        ensures
            final(self).wf(),
            r == old(self)@.remove_oracle_result(*admin),
            final(self)@ == old(self)@.after_remove_oracle(*admin, asset, oracle),
    {
        if let Err(error) = admin::require_admin(call, &self.admin, admin) {
            return Err(error);
        }
        if let Some(f) = self.find(&asset) {
            let (kept, changed) = whitelist::list_without(
                &call.env,
                &self.feeds[f].oracles,
                &oracle,
            );
            if changed {
                self.feeds[f].oracles = kept;
                proof {
                    lemma_feed_replaced(old(self).feeds@, self.feeds@, f as int);
                }
                bump_persistent(&mut self.touched, DataKey::Oracles(asset));
            }
        }
        Ok(())
    }

    /// Accepts a new price observation from a whitelisted oracle, which has to
    /// sign the call.
    ///
    /// The timestamp must be later than that of the newest stored observation,
    /// and at most `CLOCK_DRIFT_TOLERANCE` ahead of the ledger clock. Beyond
    /// `BUFFER_MAX` observations the oldest is dropped.
    pub fn submit_observation(
        &mut self,
        call: &Invocation,
        oracle: Address,
        asset: Address,
        price: i128,
        timestamp: u64,
    ) -> (r: Result<(), Error>)
        requires
            old(self).wf(),
            call.signed_by(oracle),
            old(self)@.submission_admitted(oracle, asset, price) ==> call.timestamp
                + CLOCK_DRIFT_TOLERANCE <= u64::MAX,
            old(self)@.submit_observation_result(
                call.timestamp,
                asset,
                (Observation { price, timestamp, oracle }),
            ) is Ok ==> old(self)@.feed(asset).observations.len() < u32::MAX,
        ensures
            final(self).wf(),
            ({
                let observation = Observation { price, timestamp, oracle };
                &&& r == old(self)@.submit_observation_result(call.timestamp, asset, observation)
                &&& final(self)@ == old(self)@.after_submit_observation(
                    call.timestamp,
                    asset,
                    observation,
                )
            }),
    {
        if price <= 0 {
            return Err(Error::InvalidPrice);
        }
        let i: usize = match self.find(&asset) {
            Some(i) => i,
            None => {
                return Err(Error::AssetNotConfigured);
            },
        };
        if self.feeds[i].config.is_none() {
            return Err(Error::AssetNotConfigured);
        }
        if !list_contains(&self.feeds[i].oracles, &oracle) {
            return Err(Error::OracleNotWhitelisted);
        }
        if timestamp > call.timestamp + CLOCK_DRIFT_TOLERANCE {
            return Err(Error::TimestampInvalid);
        }
        if let Some(last) = self.feeds[i].observations.last() {
            if timestamp <= last.timestamp {
                return Err(Error::TimestampInvalid);
            }
        }
        self.feeds[i].observations.push_back(Observation { price, timestamp, oracle });
        if self.feeds[i].observations.len() > BUFFER_MAX {
            self.feeds[i].observations.remove_oldest();
        }
        proof {
            lemma_feed_replaced(old(self).feeds@, self.feeds@, i as int);
        }
        bump_persistent(&mut self.touched, DataKey::Observations(asset));
        bump_persistent(&mut self.touched, DataKey::Oracles(asset));
        Ok(())
    }

    /// The time-weighted average price over the asset's window, with the
    /// precision of its prices.
    pub fn get_twap(&self, call: &Invocation, asset: &Address) -> (r: Result<(i128, u32), Error>)
        requires
            self.wf(),
        ensures
            r == self@.twap(call.timestamp, *asset),
    {
        match self.find(asset) {
            Some(i) => match self.feeds[i].config {
                Some(config) => match twap::compute(call, &self.feeds[i].observations, &config) {
                    Ok(price) => Ok((price, config.decimals)),
                    Err(error) => Err(error),
                },
                None => Err(Error::AssetNotConfigured),
            },
            None => Err(Error::AssetNotConfigured),
        }
    }

    /// The number of oracles on the whitelist of `asset`.
    pub fn oracle_count(&self, asset: &Address) -> (n: u32)
        requires
            self.wf(),
        ensures
            n == self@.feed(*asset).oracles.len(),
    {
        match self.find(asset) {
            Some(i) => self.feeds[i].oracles.len(),
            None => 0,
        }
    }

    /// The number of observations buffered for `asset`.
    pub fn observation_count(&self, asset: &Address) -> (n: u32)
        requires
            self.wf(),
        ensures
            n == self@.feed(*asset).observations.len(),
    {
        match self.find(asset) {
            Some(i) => self.feeds[i].observations.len(),
            None => 0,
        }
    }

    /// Whether `oracle` is on the whitelist of `asset`.
    pub fn is_whitelisted(&self, asset: &Address, oracle: &Address) -> (listed: bool)
        requires
            self.wf(),
        ensures
            listed == self@.feed(*asset).oracles.contains(*oracle),
    {
        match self.find(asset) {
            Some(i) => list_contains(&self.feeds[i].oracles, oracle),
            None => false,
        }
    }

    /// The recorded admin, or `None` before `init`.
    pub fn admin_address(&self) -> (admin: Option<Address>)
        ensures
            admin == self@.admin,
    {
        self.admin
    }
}

} // verus!
