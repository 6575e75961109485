//! A payment stream between two addresses.
pub mod state;
pub mod storage;
