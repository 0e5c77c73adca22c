//! The pieces of `bdk_electrum` that convert values of `electrum-client`'s `bitcoin` version.
pub mod compat;
