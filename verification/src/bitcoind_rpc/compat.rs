//! Conversions between the `bitcoin` version that bdk tracks and the `bitcoin 0.32` that
//! `bitcoincore-rpc` uses: hashes by their bytes, transactions and blocks by their consensus
//! encoding.
pub use crate::convert::{
    block_from_032, blockhash_from_032, blockhash_to_032, tx_from_032, tx_to_032, txid_from_032,
    txid_to_032,
};
