//! Conversions between the `bitcoin` version that bdk tracks and the `bitcoin 0.32` that the
//! client crates of the test environment use: hashes by their bytes, transactions, headers and
//! blocks by their consensus encoding, scripts by their bytes, amounts by their satoshis and
//! addresses by their string form.
pub use crate::convert::{
    address_from_032, address_to_032, amount_from_032, amount_to_032, block_from_032,
    blockhash_from_032, blockhash_to_032, header_from_032, spk_from_032, spk_to_032, tx_from_032,
    tx_to_032, txid_from_032, txid_to_032,
};
