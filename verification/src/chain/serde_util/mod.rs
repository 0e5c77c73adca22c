//! The element encodings behind the serde formats of changeset collections whose `bitcoin`
//! types carry no serde support of their own.
pub mod tx_set;
pub mod txout_map;
