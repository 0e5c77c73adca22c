//! Conversions between the `bitcoin` version that bdk tracks and the `bitcoin 0.32` that
//! `electrum-client` uses.
pub use crate::convert::{
    blockhash_from_032, header_from_032, merkle_node_to_032, tx_from_032, tx_to_032,
    txid_from_032, txid_to_032,
};
use crate::primitives::{ScriptBuf, Txid};
use vstd::prelude::*;

verus! {

/// Borrows a script pubkey as a `bitcoin 0.32` script: the same bytes.
pub fn spk_to_032(spk: &ScriptBuf) -> (r: &ScriptBuf)
    ensures
        r@ == spk@,
{
    spk
}

/// An entry of a script history response as `electrum-client` returns it.
#[derive(Clone, Copy, Debug)]
pub struct GetHistoryRes {
    /// Txid of the transaction.
    pub tx_hash: Txid,
    /// Confirmation height; 0 and -1 mark unconfirmed transactions.
    pub height: i32,
}

/// An entry of a script history response, with the txid in the `bitcoin` version bdk tracks.
#[derive(Clone, Copy, Debug)]
pub struct HistoryRes {
    /// Txid of the transaction.
    pub tx_hash: Txid,
    /// Confirmation height. Heights 0 and -1 are reserved for unconfirmed transactions.
    pub height: i32,
}

/// Converts a script history response from `electrum-client`: entry by entry, in order, with
/// the same txid bytes and heights.
pub fn history_from_032(history: Vec<GetHistoryRes>) -> (r: Vec<HistoryRes>)
    ensures
        r@.len() == history@.len(),
        forall|i: int|
            0 <= i < r@.len() ==> (#[trigger] r@[i]).tx_hash@ == history@[i].tx_hash@
                && r@[i].height == history@[i].height,
{
    let mut out: Vec<HistoryRes> = Vec::new();
    let mut i: usize = 0;
    while i < history.len()
        invariant
            i <= history@.len(),
            out@.len() == i,
            forall|j: int|
                0 <= j < i ==> (#[trigger] out@[j]).tx_hash@ == history@[j].tx_hash@
                    && out@[j].height == history@[j].height,
        decreases history@.len() - i,
    {
        let res = history[i];
        out.push(HistoryRes { tx_hash: crate::convert::txid_from_032(res.tx_hash), height: res.height });
        i = i + 1;
    }
    out
}

} // verus!
