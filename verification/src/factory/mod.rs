//! Stream creation on behalf of a remote signer.
pub mod signature;
