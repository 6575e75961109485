//! The price oracle as a mathematical object: what each call answers, and what
//! the ledger holds after it.
use vstd::prelude::*;

use crate::address::Address;
use crate::drip_oracle::errors::Error;
use crate::drip_oracle::storage::{AssetConfig, DataKey, Observation};
use crate::drip_oracle::twap::{
    average, BUFFER_MAX, CLOCK_DRIFT_TOLERANCE, MAX_DECIMALS,
};

verus! {

/// What is recorded for one asset.
#[verifier::ext_equal]
pub struct FeedView {
    pub config: Option<AssetConfig>,
    pub oracles: Seq<Address>,
    pub observations: Seq<Observation>,
}

/// What the price oracle has on the ledger, and the entries whose lifetimes it
/// has asked to extend.
#[verifier::ext_equal]
pub struct OracleView {
    pub admin: Option<Address>,
    /// Defined for every asset: one that was never mentioned has an empty feed.
    pub feeds: Map<Address, FeedView>,
    pub touched: Seq<DataKey>,
}

/// Nothing is recorded.
pub open spec fn empty_feed() -> FeedView {
    FeedView { config: None, oracles: Seq::empty(), observations: Seq::empty() }
}

/// The state of a contract that was never called.
pub open spec fn nothing_recorded() -> OracleView {
    OracleView {
        admin: None,
        feeds: Map::total(|asset: Address| empty_feed()),
        touched: Seq::empty(),
    }
}

/// The timestamps increase from one observation to the next.
pub open spec fn in_order(observations: Seq<Observation>) -> bool {
    forall|i: int, j: int|
        0 <= i < j < observations.len() ==> (#[trigger] observations[i]).timestamp < (
        #[trigger] observations[j]).timestamp
}

/// What holds of every buffer that the contract itself has built: it is within
/// its bound, oldest first, and its prices are positive.
pub open spec fn buffer_valid(observations: Seq<Observation>) -> bool {
    &&& observations.len() <= BUFFER_MAX
    &&& in_order(observations)
    &&& forall|i: int| 0 <= i < observations.len() ==> (#[trigger] observations[i]).price > 0
}

impl FeedView {
    /// What holds of every feed that the contract itself has built.
    pub open spec fn valid(self) -> bool {
        &&& self.config matches Some(config) ==> config_allowed(config)
        &&& self.config is None ==> self.oracles.len() == 0 && self.observations.len() == 0
        &&& self.oracles.no_duplicates()
        &&& buffer_valid(self.observations)
    }
}

/// `admin` admits `caller`.
pub open spec fn admin_check(admin: Option<Address>, caller: Address) -> Result<(), Error> {
    match admin {
        None => Err(Error::NotInitialized),
        Some(a) => if caller == a {
            Ok(())
        } else {
            Err(Error::NotAuthorized)
        },
    }
}

/// The parameters that an asset may have.
pub open spec fn config_allowed(config: AssetConfig) -> bool {
    config.decimals <= MAX_DECIMALS && config.window_size > 0 && config.max_staleness > 0
}

/// Holds of every address but `oracle`.
pub open spec fn other_than(oracle: Address) -> spec_fn(Address) -> bool {
    |a: Address| a != oracle
}

/// `list` without `oracle`, the others in their order.
pub open spec fn without(list: Seq<Address>, oracle: Address) -> Seq<Address> {
    list.filter(other_than(oracle))
}

/// `buffer` after one more observation: once more than `BUFFER_MAX` are there,
/// the oldest goes.
pub open spec fn rolled(buffer: Seq<Observation>, newest: Observation) -> Seq<Observation> {
    if buffer.len() + 1 > BUFFER_MAX {
        buffer.push(newest).drop_first()
    } else {
        buffer.push(newest)
    }
}

impl OracleView {
    /// What is recorded for `asset`.
    pub open spec fn feed(self, asset: Address) -> FeedView {
        self.feeds[asset]
    }

    /// What holds of every state that the contract itself has reached.
    pub open spec fn valid(self) -> bool {
        &&& self.feeds.dom() == Set::<Address>::full()
        &&& forall|asset: Address| (#[trigger] self.feed(asset)).valid()
    }

    /// This state with the feed of `asset` replaced.
    pub open spec fn with_feed(self, asset: Address, feed: FeedView) -> OracleView {
        OracleView { feeds: self.feeds.insert(asset, feed), ..self }
    }

    /// This state with one more entry to extend.
    pub open spec fn touching(self, key: DataKey) -> OracleView {
        OracleView { touched: self.touched.push(key), ..self }
    }

    /// `init` accepts one call.
    pub open spec fn init_result(self) -> Result<(), Error> {
        if self.admin is Some {
            Err(Error::AlreadyInitialized)
        } else {
            Ok(())
        }
    }

    pub open spec fn after_init(self, admin: Address) -> OracleView {
        if self.init_result() is Ok {
            OracleView { admin: Some(admin), ..self }
        } else {
            self
        }
    }

    /// The admin may give an asset any allowed parameters.
    pub open spec fn configure_asset_result(self, caller: Address, config: AssetConfig) -> Result<
        (),
        Error,
    > {
        if admin_check(self.admin, caller) is Err {
            admin_check(self.admin, caller)
        } else if !config_allowed(config) {
            Err(Error::InvalidConfig)
        } else {
            Ok(())
        }
    }

    pub open spec fn after_configure_asset(
        self,
        caller: Address,
        asset: Address,
        config: AssetConfig,
    ) -> OracleView {
        if self.configure_asset_result(caller, config) is Ok {
            self.with_feed(
                asset,
                FeedView { config: Some(config), ..self.feed(asset) },
            ).touching(DataKey::AssetConfig(asset))
        } else {
            self
        }
    }

    /// The admin may whitelist an oracle for a configured asset.
    pub open spec fn add_oracle_result(self, caller: Address, asset: Address) -> Result<(), Error> {
        if admin_check(self.admin, caller) is Err {
            admin_check(self.admin, caller)
        } else if self.feed(asset).config is None {
            Err(Error::AssetNotConfigured)
        } else {
            Ok(())
        }
    }

    pub open spec fn after_add_oracle(
        self,
        caller: Address,
        asset: Address,
        oracle: Address,
    ) -> OracleView {
        let feed = self.feed(asset);
        if self.add_oracle_result(caller, asset) is Ok && !feed.oracles.contains(oracle) {
            self.with_feed(
                asset,
                FeedView { oracles: feed.oracles.push(oracle), ..feed },
            ).touching(DataKey::Oracles(asset))
        } else {
            self
        }
    }

    /// The admin may take an oracle off any whitelist, whether it is on it or
    /// not.
    pub open spec fn remove_oracle_result(self, caller: Address) -> Result<(), Error> {
        admin_check(self.admin, caller)
    }

    pub open spec fn after_remove_oracle(
        self,
        caller: Address,
        asset: Address,
        oracle: Address,
    ) -> OracleView {
        let feed = self.feed(asset);
        if self.remove_oracle_result(caller) is Ok && feed.oracles.contains(oracle) {
            self.with_feed(
                asset,
                FeedView { oracles: without(feed.oracles, oracle), ..feed },
            ).touching(DataKey::Oracles(asset))
        } else {
            self
        }
    }

    /// Whether a submission gets as far as the comparison with the clock.
    pub open spec fn submission_admitted(
        self,
        oracle: Address,
        asset: Address,
        price: i128,
    ) -> bool {
        price > 0 && self.feed(asset).config is Some && self.feed(asset).oracles.contains(oracle)
    }

    /// A whitelisted oracle may submit a positive price for a configured asset,
    /// not too far ahead of the clock, and later than all before it.
    pub open spec fn submit_observation_result(
        self,
        now: u64,
        asset: Address,
        observation: Observation,
    ) -> Result<(), Error> {
        let feed = self.feed(asset);
        if observation.price <= 0 {
            Err(Error::InvalidPrice)
        } else if feed.config is None {
            Err(Error::AssetNotConfigured)
        } else if !feed.oracles.contains(observation.oracle) {
            Err(Error::OracleNotWhitelisted)
        } else if observation.timestamp > now + CLOCK_DRIFT_TOLERANCE {
            Err(Error::TimestampInvalid)
        } else if feed.observations.len() > 0 && observation.timestamp
            <= feed.observations.last().timestamp {
            Err(Error::TimestampInvalid)
        } else {
            Ok(())
        }
    }

    pub open spec fn after_submit_observation(
        self,
        now: u64,
        asset: Address,
        observation: Observation,
    ) -> OracleView {
        let feed = self.feed(asset);
        if self.submit_observation_result(now, asset, observation) is Ok {
            self.with_feed(
                asset,
                FeedView { observations: rolled(feed.observations, observation), ..feed },
            ).touching(DataKey::Observations(asset)).touching(DataKey::Oracles(asset))
        } else {
            self
        }
    }

    /// The average of a configured asset with the precision of its prices.
    pub open spec fn twap(self, now: u64, asset: Address) -> Result<(i128, u32), Error> {
        match self.feed(asset).config {
            None => Err(Error::AssetNotConfigured),
            Some(config) => match average(self.feed(asset).observations, config, now) {
                Ok(price) => Ok((price, config.decimals)),
                Err(error) => Err(error),
            },
        }
    }
}

} // verus!
