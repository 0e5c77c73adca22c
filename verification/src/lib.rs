//! Verified conversions and test-environment logic for bdk's bridge between two
//! `bitcoin` crate versions.
pub mod bitcoin_032;
pub mod bitcoind_rpc;
pub mod chain;
pub mod consensus;
pub mod convert;
pub mod electrum;
pub mod primitives;
pub mod testenv;
pub mod witness;
