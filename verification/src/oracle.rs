//! A single price feed, pushed by its admin, for fiat-denominated streams.
use vstd::arithmetic::power::pow;
use vstd::prelude::*;

use crate::address::Address;
use crate::invocation::Invocation;

verus! {

/// The entries that the feed keeps on the ledger.
#[derive(Clone, Copy, Debug, PartialEq, Eq, Structural)]
pub enum DataKey {
    /// The address permitted to configure the feed and submit prices.
    Admin,
    /// The feed configuration.
    Config,
    /// The price submitted last.
    Price,
}

/// The feed configuration.
#[derive(Clone, Copy, Debug, PartialEq, Eq, Structural)]
pub struct OracleConfig {
    pub oracle_address: Address,
    pub decimals: u32,
    pub asset_peg: u32,
    pub max_staleness: u64,
}

/// A price, timestamped at submission.
#[derive(Clone, Copy, Debug, PartialEq, Eq, Structural)]
pub struct PriceData {
    pub price: u64,
    /// The ledger timestamp at which the price was recorded.
    pub updated_at: u64,
}

/// Why the feed refused a call.
#[derive(Copy, Clone, Debug, PartialEq, Eq, PartialOrd, Ord, Structural)]
pub enum Error {
    /// The price is older than `max_staleness`.
    OracleStalePrice,
    /// There is no configuration, or no admin yet.
    OracleNotConfigured,
    /// The price is zero.
    InvalidPrice,
    /// The feed is being read already.
    OracleLocked,
    CalculationOverflow,
    /// The caller is not the admin.
    NotAuthorized,
    /// The admin is already set.
    AlreadyInitialized,
    /// The feed is configured but no price was ever submitted.
    NoPriceAvailable,
    /// The fiat value does not fit in a `u64`.
    ArithmeticOverflow,
    /// `10^decimals` does not fit in a `u128`.
    InvalidDecimals,
}

/// The number under which clients see an error. Two numbers are shared by two
/// errors each.
pub open spec fn error_code(error: Error) -> u32 {
    match error {
        Error::OracleStalePrice => 1001,
        Error::OracleNotConfigured => 1002,
        Error::InvalidPrice => 1003,
        Error::OracleLocked => 1004,
        Error::CalculationOverflow => 1005,
        Error::NotAuthorized => 1004,
        Error::AlreadyInitialized => 1005,
        Error::NoPriceAvailable => 1006,
        Error::ArithmeticOverflow => 1007,
        Error::InvalidDecimals => 1008,
    }
}

impl Error {
    /// The number under which clients see this error.
    pub fn code(self) -> (code: u32)
        ensures
            code == error_code(self),
    {
        match self {
            Error::OracleStalePrice => 1001,
            Error::OracleNotConfigured => 1002,
            Error::InvalidPrice => 1003,
            Error::OracleLocked => 1004,
            Error::CalculationOverflow => 1005,
            Error::NotAuthorized => 1004,
            Error::AlreadyInitialized => 1005,
            Error::NoPriceAvailable => 1006,
            Error::ArithmeticOverflow => 1007,
            Error::InvalidDecimals => 1008,
        }
    }
}

/// The greatest `decimals` that a configuration may have.
pub const MAX_DECIMALS: u32 = 38;

/// A price feed with what it has on the ledger.
#[derive(Clone, Copy, Debug, PartialEq, Eq, Structural)]
pub struct TwapOracleIntegration {
    pub admin: Option<Address>,
    pub config: Option<OracleConfig>,
    pub price: Option<PriceData>,
    /// Set while the price is being read.
    pub locked: bool,
}

/// `admin` admits `caller`.
pub open spec fn admin_check(admin: Option<Address>, caller: Address) -> Result<(), Error> {
    match admin {
        None => Err(Error::OracleNotConfigured),
        Some(a) => if caller == a {
            Ok(())
        } else {
            Err(Error::NotAuthorized)
        },
    }
}

/// The fiat value of `token_amount` at `price`, rounded down.
pub open spec fn fiat_value(token_amount: u64, price: u64, decimals: u32) -> int {
    (token_amount * price) / pow(10, decimals as nat)
}

impl TwapOracleIntegration {
    /// What `initialize` answers.
    pub open spec fn initialize_result(self) -> Result<(), Error> {
        if self.admin is Some {
            Err(Error::AlreadyInitialized)
        } else {
            Ok(())
        }
    }

    pub open spec fn after_initialize(self, admin: Address) -> Self {
        if self.initialize_result() is Ok {
            TwapOracleIntegration { admin: Some(admin), ..self }
        } else {
            self
        }
    }

    /// What `configure_oracle` answers.
    pub open spec fn configure_result(self, caller: Address, config: OracleConfig) -> Result<
        (),
        Error,
    > {
        if admin_check(self.admin, caller) is Err {
            admin_check(self.admin, caller)
        } else if config.decimals > MAX_DECIMALS {
            Err(Error::InvalidDecimals)
        } else {
            Ok(())
        }
    }

    pub open spec fn after_configure(self, caller: Address, config: OracleConfig) -> Self {
        if self.configure_result(caller, config) is Ok {
            TwapOracleIntegration { config: Some(config), ..self }
        } else {
            self
        }
    }

    /// What `submit_price` answers.
    pub open spec fn submit_result(self, caller: Address, price: u64) -> Result<(), Error> {
        if admin_check(self.admin, caller) is Err {
            admin_check(self.admin, caller)
        } else if price == 0 {
            Err(Error::InvalidPrice)
        } else {
            Ok(())
        }
    }

    pub open spec fn after_submit(self, now: u64, caller: Address, price: u64) -> Self {
        if self.submit_result(caller, price) is Ok {
            TwapOracleIntegration { price: Some(PriceData { price, updated_at: now }), ..self }
        } else {
            self
        }
    }

    /// The price at `now`, where there is a fresh one.
    pub open spec fn price_at(self, now: u64) -> Result<u64, Error> {
        if self.locked {
            Err(Error::OracleLocked)
        } else {
            match (self.config, self.price) {
                (None, _) => Err(Error::OracleNotConfigured),
                (Some(_), None) => Err(Error::NoPriceAvailable),
                (Some(config), Some(data)) => if now - data.updated_at > config.max_staleness {
                    Err(Error::OracleStalePrice)
                } else if data.price == 0 {
                    Err(Error::InvalidPrice)
                } else {
                    Ok(data.price)
                },
            }
        }
    }

    /// The fiat value of `token_amount` at `now`, where there is a fresh price
    /// and the value can be represented.
    pub open spec fn payout_at(self, now: u64, token_amount: u64) -> Result<u64, Error> {
        match self.price_at(now) {
            Err(error) => Err(error),
            Ok(price) => {
                let decimals = self.config->0.decimals;
                if pow(10, decimals as nat) > u128::MAX {
                    Err(Error::InvalidDecimals)
                } else if fiat_value(token_amount, price, decimals) > u64::MAX {
                    Err(Error::ArithmeticOverflow)
                } else {
                    Ok(fiat_value(token_amount, price, decimals) as u64)
                }
            },
        }
    }

    /// A feed of which nothing is recorded yet.
    pub fn new() -> (feed: Self)
        ensures
            feed == (TwapOracleIntegration {
                admin: None,
                config: None,
                price: None,
                locked: false,
            }),
    {
        TwapOracleIntegration { admin: None, config: None, price: None, locked: false }
    }

    /// Sets the address allowed to configure the feed and submit prices, once.
    pub fn initialize(&mut self, admin: Address) -> (r: Result<(), Error>)
        ensures
            r == old(self).initialize_result(),
            *final(self) == old(self).after_initialize(admin),
    {
        if self.admin.is_some() {
            return Err(Error::AlreadyInitialized);
        }
        self.admin = Some(admin);
        Ok(())
    }

    /// Stores the feed configuration. Admin only.
    ///
    /// More than `MAX_DECIMALS` decimals are refused here rather than at every
    /// later read.
    pub fn configure_oracle(
        &mut self,
        call: &Invocation,
        caller: &Address,
        config: OracleConfig,
    ) -> (r: Result<(), Error>)
        requires
            admin_check(old(self).admin, *caller) is Ok ==> call.signed_by(*caller),
        ensures
            r == old(self).configure_result(*caller, config),
            *final(self) == old(self).after_configure(*caller, config),
    {
        if let Err(error) = require_admin(call, &self.admin, caller) {
            return Err(error);
        }
        if config.decimals > MAX_DECIMALS {
            return Err(Error::InvalidDecimals);
        }
        self.config = Some(config);
        Ok(())
    }

    /// Records a price, stamped with the current ledger time. Admin only.
    pub fn submit_price(&mut self, call: &Invocation, caller: &Address, price: u64) -> (r: Result<
        (),
        Error,
    >)
        requires
            admin_check(old(self).admin, *caller) is Ok ==> call.signed_by(*caller),
        ensures
            r == old(self).submit_result(*caller, price),
            *final(self) == old(self).after_submit(call.timestamp, *caller, price),
    {
        if let Err(error) = require_admin(call, &self.admin, caller) {
            return Err(error);
        }
        if price == 0 {
            return Err(Error::InvalidPrice);
        }
        self.price = Some(PriceData { price, updated_at: call.timestamp });
        Ok(())
    }

    /// Returns the latest price, refusing one that is older than
    /// `max_staleness`. The feed is locked while it is read.
    pub fn get_twap_price(&mut self, call: &Invocation) -> (r: Result<u64, Error>)
        ensures
            r == old(self).price_at(call.timestamp),
            *final(self) == *old(self),
    {
        if self.locked {
            return Err(Error::OracleLocked);
        }
        self.locked = true;

        let config: OracleConfig = match self.config {
            Some(config) => config,
            None => {
                self.locked = false;
                return Err(Error::OracleNotConfigured);
            },
        };
        let data: PriceData = match self.price {
            Some(data) => data,
            None => {
                self.locked = false;
                return Err(Error::NoPriceAvailable);
            },
        };

        let age: u64 = call.timestamp.saturating_sub(data.updated_at);
        if age > config.max_staleness {
            self.locked = false;
            return Err(Error::OracleStalePrice);
        }
        if data.price == 0 {
            self.locked = false;
            return Err(Error::InvalidPrice);
        }

        self.locked = false;
        Ok(data.price)
    }

    /// Converts a token amount into its fiat equivalent.
    pub fn calculate_fiat_stream_payout(&mut self, call: &Invocation, token_amount: u64) -> (r:
        Result<u64, Error>)
        ensures
            r == old(self).payout_at(call.timestamp, token_amount),
            *final(self) == *old(self),
    {
        let current_price: u64 = match self.get_twap_price(call) {
            Ok(price) => price,
            Err(error) => {
                return Err(error);
            },
        };
        let config: OracleConfig = match self.config {
            Some(config) => config,
            None => {
                return Err(Error::OracleNotConfigured);
            },
        };
        let precision: u128 = match power_of_ten(config.decimals) {
            Some(precision) => precision,
            None => {
                return Err(Error::InvalidDecimals);
            },
        };
        proof {
            vstd::arithmetic::power::lemma_pow_positive(10, config.decimals as nat);
            assert(0 <= token_amount * current_price <= u64::MAX * u64::MAX) by (nonlinear_arith)
                requires
                    0 <= token_amount <= u64::MAX,
                    0 <= current_price <= u64::MAX,
            ;
        }
        let product: u128 = match (token_amount as u128).checked_mul(current_price as u128) {
            Some(product) => product,
            None => {
                return Err(Error::ArithmeticOverflow);
            },
        };
        let value: u128 = product / precision;
        if value > u64::MAX as u128 {
            return Err(Error::ArithmeticOverflow);
        }
        Ok(value as u64)
    }
}

/// `10^exponent`, where it fits in a `u128`.
pub fn power_of_ten(exponent: u32) -> (power: Option<u128>)
    ensures
        power == if pow(10, exponent as nat) <= u128::MAX {
            Some(pow(10, exponent as nat) as u128)
        } else {
            None
        },
{
    let mut power: u128 = 1;
    let mut i: u32 = 0;
    proof {
        vstd::arithmetic::power::lemma_pow0(10);
    }
    while i < exponent
        invariant
            i <= exponent,
            power == pow(10, i as nat),
        decreases exponent - i,
    {
        proof {
            reveal(pow);
            assert(pow(10, (i + 1) as nat) == 10 * pow(10, i as nat));
            vstd::arithmetic::power::lemma_pow_increases(10, (i + 1) as nat, exponent as nat);
        }
        power = match power.checked_mul(10) {
            Some(next) => next,
            None => {
                return None;
            },
        };
        i += 1;
    }
    Some(power)
}

/// Requires that `caller` is the recorded admin and has signed the call.
pub fn require_admin(call: &Invocation, admin: &Option<Address>, caller: &Address) -> (r: Result<
    (),
    Error,
>)
    requires
        admin_check(*admin, *caller) is Ok ==> call.signed_by(*caller),
    ensures
        r == admin_check(*admin, *caller),
{
    match admin {
        None => Err(Error::OracleNotConfigured),
        Some(recorded) => if *caller != *recorded {
            Err(Error::NotAuthorized)
        } else {
            Ok(())
        },
    }
}

// ─── What holds of the feed as a whole ───────────────────────────────

impl TwapOracleIntegration {
    /// What holds of every state that the contract itself has reached.
    pub open spec fn valid(self) -> bool {
        &&& self.config matches Some(config) ==> config.decimals <= MAX_DECIMALS
        &&& self.price matches Some(data) ==> data.price > 0
        &&& !self.locked
    }
}

/// The first state is valid, and every call leads from valid states to valid
/// states.
pub proof fn calls_keep_validity(
    s: TwapOracleIntegration,
    caller: Address,
    config: OracleConfig,
    now: u64,
    price: u64,
)
    ensures
        (TwapOracleIntegration { admin: None, config: None, price: None, locked: false }).valid(),
        s.valid() ==> s.after_initialize(caller).valid(),
        s.valid() ==> s.after_configure(caller, config).valid(),
        s.valid() ==> s.after_submit(now, caller, price).valid(),
{
}

/// A call that answers with an error leaves everything as it was.
pub proof fn refused_calls_change_nothing(
    s: TwapOracleIntegration,
    caller: Address,
    config: OracleConfig,
    now: u64,
    price: u64,
)
    ensures
        s.initialize_result() is Err ==> s.after_initialize(caller) == s,
        s.configure_result(caller, config) is Err ==> s.after_configure(caller, config) == s,
        s.submit_result(caller, price) is Err ==> s.after_submit(now, caller, price) == s,
{
}

/// Once there is an admin, `initialize` is refused and no call changes the
/// admin.
pub proof fn admin_is_set_once(
    s: TwapOracleIntegration,
    caller: Address,
    config: OracleConfig,
    now: u64,
    price: u64,
)
    ensures
        s.initialize_result() is Ok ==> s.after_initialize(caller).admin == Some(caller),
        s.after_initialize(caller).initialize_result() == Err::<(), Error>(
            Error::AlreadyInitialized,
        ),
        s.admin is Some ==> s.after_initialize(caller).admin == s.admin,
        s.after_configure(caller, config).admin == s.admin,
        s.after_submit(now, caller, price).admin == s.admin,
{
}

/// Only the admin changes the configuration or the price.
pub proof fn changes_are_authorized(
    s: TwapOracleIntegration,
    caller: Address,
    config: OracleConfig,
    now: u64,
    price: u64,
)
    ensures
        s.after_configure(caller, config) != s ==> s.admin == Some(caller),
        s.after_submit(now, caller, price) != s ==> s.admin == Some(caller),
{
}

/// An accepted price is read back as long as it is fresh, and refused as stale
/// after that.
pub proof fn submitted_price_is_read_back(
    s: TwapOracleIntegration,
    caller: Address,
    now: u64,
    price: u64,
    later: u64,
)
    requires
        s.submit_result(caller, price) is Ok,
        s.config is Some,
        !s.locked,
    ensures
        s.after_submit(now, caller, price).price_at(later) == if later - now <= (
        s.config->0).max_staleness {
            Ok::<u64, Error>(price)
        } else {
            Err(Error::OracleStalePrice)
        },
{
}

/// `10^38` fits in a `u128` and `10^39` does not.
proof fn lemma_decimals_bound()
    ensures
        pow(10, MAX_DECIMALS as nat) <= u128::MAX,
        pow(10, (MAX_DECIMALS + 1) as nat) > u128::MAX,
{
    reveal(pow);
    reveal_with_fuel(pow, 20);
    vstd::arithmetic::power::lemma_pow_adds(10, 19, 19);
    vstd::arithmetic::power::lemma_pow_adds(10, 38, 1);
    assert(pow(10, 19) == 10_000_000_000_000_000_000);
    assert(pow(10, 1) == 10);
}

/// The precision of a configuration can be computed exactly where its decimals
/// are allowed.
pub proof fn allowed_decimals_have_a_precision(decimals: u32)
    ensures
        decimals <= MAX_DECIMALS <==> pow(10, decimals as nat) <= u128::MAX,
{
    lemma_decimals_bound();
    if decimals <= MAX_DECIMALS {
        vstd::arithmetic::power::lemma_pow_increases(10, decimals as nat, MAX_DECIMALS as nat);
    } else {
        vstd::arithmetic::power::lemma_pow_increases(
            10,
            (MAX_DECIMALS + 1) as nat,
            decimals as nat,
        );
    }
}

/// In a valid state a payout fails only for want of a configuration or a fresh
/// price, or because the value does not fit.
pub proof fn valid_feed_pays_out(s: TwapOracleIntegration, now: u64, token_amount: u64)
    requires
        s.valid(),
        s.price_at(now) is Ok,
    ensures
        s.payout_at(now, token_amount) is Ok || s.payout_at(now, token_amount) == Err::<u64, Error>(
            Error::ArithmeticOverflow,
        ),
        s.payout_at(now, token_amount) is Err ==> fiat_value(
            token_amount,
            s.price_at(now)->Ok_0,
            (s.config->0).decimals,
        ) > u64::MAX,
{
    allowed_decimals_have_a_precision((s.config->0).decimals);
}

/// A payout is the exact value rounded down to a whole unit.
pub proof fn payout_is_rounded_down(s: TwapOracleIntegration, now: u64, token_amount: u64)
    requires
        s.payout_at(now, token_amount) is Ok,
    ensures
        ({
            let payout = s.payout_at(now, token_amount)->Ok_0;
            let precision = pow(10, (s.config->0).decimals as nat);
            payout * precision <= token_amount * s.price_at(now)->Ok_0 < (payout + 1) * precision
        }),
{
    let precision = pow(10, (s.config->0).decimals as nat);
    let price = s.price_at(now)->Ok_0;
    let product = token_amount * price;
    vstd::arithmetic::power::lemma_pow_positive(10, (s.config->0).decimals as nat);
    assert(product >= 0) by (nonlinear_arith)
        requires
            product == token_amount * price,
            token_amount >= 0,
            price >= 0,
    ;
    vstd::arithmetic::div_mod::lemma_fundamental_div_mod(product, precision);
    let q = product / precision;
    assert(q * precision <= product < (q + 1) * precision) by (nonlinear_arith)
        requires
            product == precision * q + product % precision,
            0 <= product % precision < precision,
    ;
    vstd::arithmetic::div_mod::lemma_div_pos_is_pos(product, precision);
}

/// More tokens are never worth less.
pub proof fn payout_grows_with_the_amount(
    s: TwapOracleIntegration,
    now: u64,
    less: u64,
    more: u64,
)
    requires
        less <= more,
        s.payout_at(now, more) is Ok,
    ensures
        s.payout_at(now, less) is Ok,
        s.payout_at(now, less)->Ok_0 <= s.payout_at(now, more)->Ok_0,
{
    let precision = pow(10, (s.config->0).decimals as nat);
    let price = s.price_at(now)->Ok_0;
    vstd::arithmetic::power::lemma_pow_positive(10, (s.config->0).decimals as nat);
    assert(0 <= less * price <= more * price) by (nonlinear_arith)
        requires
            0 <= less <= more,
            price >= 0,
    ;
    vstd::arithmetic::div_mod::lemma_div_is_ordered(less * price, more * price, precision);
    vstd::arithmetic::div_mod::lemma_div_pos_is_pos(less * price, precision);
}

// ─── What each call answers ──────────────────────────────────────────

/// `initialize` is accepted exactly where there is no admin, and then records the
/// admin and nothing else.
pub proof fn initialize_is_accepted_without_an_admin(s: TwapOracleIntegration, admin: Address)
    ensures
        match s.initialize_result() {
            Ok(_) => s.admin is None,
            Err(error) => error == Error::AlreadyInitialized && s.admin is Some,
        },
        s.after_initialize(admin) == (TwapOracleIntegration {
            admin: if s.admin is None {
                Some(admin)
            } else {
                s.admin
            },
            config: s.config,
            price: s.price,
            locked: s.locked,
        }),
{
}

/// The admin is admitted, everyone else is refused, and before there is an admin
/// no one is admitted.
pub proof fn admin_alone_is_admitted(admin: Option<Address>, caller: Address)
    ensures
        match admin_check(admin, caller) {
            Ok(_) => admin == Some(caller),
            Err(Error::OracleNotConfigured) => admin is None,
            Err(Error::NotAuthorized) => admin is Some && admin != Some(caller),
            Err(_) => false,
        },
{
}

/// The admin may give the feed any configuration whose precision `10^decimals`
/// fits in a `u128`. It is recorded as it is, and nothing else changes.
pub proof fn admin_may_configure(
    s: TwapOracleIntegration,
    caller: Address,
    config: OracleConfig,
)
    ensures
        match s.configure_result(caller, config) {
            Ok(_) => s.admin == Some(caller) && pow(10, config.decimals as nat) <= u128::MAX,
            Err(Error::OracleNotConfigured) => s.admin is None,
            Err(Error::NotAuthorized) => s.admin is Some && s.admin != Some(caller),
            Err(Error::InvalidDecimals) => s.admin == Some(caller) && pow(
                10,
                config.decimals as nat,
            ) > u128::MAX,
            Err(_) => false,
        },
        s.configure_result(caller, config) is Ok ==> s.after_configure(caller, config) == (
        TwapOracleIntegration {
            admin: s.admin,
            config: Some(config),
            price: s.price,
            locked: s.locked,
        }),
        s.configure_result(caller, config) is Err ==> s.after_configure(caller, config) == s,
{
    allowed_decimals_have_a_precision(config.decimals);
}

/// The admin may push any price but zero. It is recorded as it is with the time
/// of the push, in the place of the last one, and nothing else changes.
pub proof fn admin_may_push_any_price(
    s: TwapOracleIntegration,
    now: u64,
    caller: Address,
    price: u64,
)
    ensures
        match s.submit_result(caller, price) {
            Ok(_) => s.admin == Some(caller) && price > 0,
            Err(Error::OracleNotConfigured) => s.admin is None,
            Err(Error::NotAuthorized) => s.admin is Some && s.admin != Some(caller),
            Err(Error::InvalidPrice) => s.admin == Some(caller) && price == 0,
            Err(_) => false,
        },
        s.submit_result(caller, price) is Ok ==> s.after_submit(now, caller, price) == (
        TwapOracleIntegration {
            admin: s.admin,
            config: s.config,
            price: Some(PriceData { price, updated_at: now }),
            locked: s.locked,
        }),
        s.submit_result(caller, price) is Err ==> s.after_submit(now, caller, price) == s,
{
}

/// A read answers with the recorded price exactly where the feed is free and
/// configured, and the price is there, not older than the bound, and not zero.
/// Each refusal names the first of these that fails.
pub proof fn price_is_read_where_it_is_fresh(s: TwapOracleIntegration, now: u64)
    ensures
        ({
            let fresh = (s.price->0).updated_at + (s.config->0).max_staleness >= now;
            match s.price_at(now) {
                Ok(price) => !s.locked && s.config is Some && s.price is Some && fresh && price > 0
                    && price == (s.price->0).price,
                Err(Error::OracleLocked) => s.locked,
                Err(Error::OracleNotConfigured) => !s.locked && s.config is None,
                Err(Error::NoPriceAvailable) => !s.locked && s.config is Some && s.price is None,
                Err(Error::OracleStalePrice) => !s.locked && s.config is Some && s.price is Some
                    && !fresh,
                Err(Error::InvalidPrice) => !s.locked && s.config is Some && s.price is Some
                    && fresh && (s.price->0).price == 0,
                Err(_) => false,
            }
        }),
{
}

/// With a price `p` and `d` decimals, an amount `a` is paid out as the `v` with
/// `v * 10^d <= a * p < (v + 1) * 10^d`. It is refused as an overflow exactly where
/// `a * p` is at least `2^64 * 10^d`, and for its decimals exactly where `10^d` is
/// no `u128`. Where no price can be read, the payout is refused as the read is.
pub proof fn payout_is_the_value_of_the_amount(
    s: TwapOracleIntegration,
    now: u64,
    token_amount: u64,
)
    ensures
        match s.price_at(now) {
            Err(error) => s.payout_at(now, token_amount) == Err::<u64, Error>(error),
            Ok(price) => {
                let precision = pow(10, (s.config->0).decimals as nat);
                match s.payout_at(now, token_amount) {
                    Ok(value) => precision <= u128::MAX && value * precision <= token_amount * price
                        < (value + 1) * precision,
                    Err(Error::ArithmeticOverflow) => precision <= u128::MAX && token_amount * price
                        >= (u64::MAX + 1) * precision,
                    Err(Error::InvalidDecimals) => precision > u128::MAX,
                    Err(_) => false,
                }
            },
        },
{
    if s.payout_at(now, token_amount) is Ok {
        payout_is_rounded_down(s, now, token_amount);
    } else if s.price_at(now) is Ok {
        let precision = pow(10, (s.config->0).decimals as nat);
        let price = s.price_at(now)->Ok_0;
        let product = token_amount * price;
        vstd::arithmetic::power::lemma_pow_positive(10, (s.config->0).decimals as nat);
        vstd::arithmetic::div_mod::lemma_fundamental_div_mod(product, precision);
        let q = product / precision;
        if precision <= u128::MAX {
            assert(product >= (u64::MAX + 1) * precision) by (nonlinear_arith)
                requires
                    precision > 0,
                    q >= u64::MAX + 1,
                    product == precision * q + product % precision,
                    0 <= product % precision,
            ;
        }
    }
}

/// Amounts that are paid out one by one come to what they are paid out for
/// together, or to one unit less.
pub proof fn payouts_lose_at_most_one_unit_by_splitting(
    s: TwapOracleIntegration,
    now: u64,
    a: u64,
    b: u64,
)
    requires
        a + b <= u64::MAX,
        s.payout_at(now, (a + b) as u64) is Ok,
    ensures
        s.payout_at(now, a) is Ok,
        s.payout_at(now, b) is Ok,
        ({
            let parts = s.payout_at(now, a)->Ok_0 + s.payout_at(now, b)->Ok_0;
            parts <= s.payout_at(now, (a + b) as u64)->Ok_0 <= parts + 1
        }),
{
    let whole = (a + b) as u64;
    payout_grows_with_the_amount(s, now, a, whole);
    payout_grows_with_the_amount(s, now, b, whole);
    payout_is_rounded_down(s, now, a);
    payout_is_rounded_down(s, now, b);
    payout_is_rounded_down(s, now, whole);
    let d = pow(10, (s.config->0).decimals as nat);
    let p = s.price_at(now)->Ok_0 as int;
    let x = s.payout_at(now, a)->Ok_0 as int;
    let y = s.payout_at(now, b)->Ok_0 as int;
    let z = s.payout_at(now, whole)->Ok_0 as int;
    vstd::arithmetic::power::lemma_pow_positive(10, (s.config->0).decimals as nat);
    assert(x + y <= z <= x + y + 1) by (nonlinear_arith)
        requires
            d > 0,
            x * d <= a * p < (x + 1) * d,
            y * d <= b * p < (y + 1) * d,
            z * d <= (a + b) * p < (z + 1) * d,
    ;
}

} // verus!
