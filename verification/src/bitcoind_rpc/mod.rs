//! The pieces of `bdk_bitcoind_rpc` that convert values of `bitcoincore-rpc`'s `bitcoin` version.
pub mod compat;
