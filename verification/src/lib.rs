//! The rules of the Conduit payment-stream contracts: the price oracle with its
//! time-weighted average, the admin-pushed price feed, the batch processor, the
//! signatures that open streams from another chain, and the state of a stream.
//!
//! What a contract has on the ledger is a plain value here, and a call is a
//! function on it: its `ensures` says what it answers and what it leaves behind.
//! `host` holds what is taken from the Soroban host and believed.
pub mod address;
pub mod batch_transfer_processor;
pub mod drip_oracle;
pub mod factory;
pub mod host;
pub mod invocation;
pub mod oracle;
pub mod stream;
