//! Conversions between the values of the two `bitcoin` versions.
//!
//! Hashes are converted by copying their 32 bytes, scripts by moving their bytes, amounts by
//! their satoshis, and transactions and headers by a round trip through their consensus encoding
//! (serialized by one version, deserialized by the other). The wire format is the same for both
//! versions, so a conversion gives back the value it was handed (a transaction only where each
//! witness fits the decoder's limit).
use crate::bitcoin_032;
use crate::consensus::{
    deserialize_header, deserialize_tx, header_wf, serialize_header, serialize_tx, tx_decoding,
    tx_encoding, tx_wf, witnesses_within_limit,
};
use crate::witness::{lemma_within_limit_fits, tx_witnesses_within_limit};
use crate::primitives::{
    Address, Amount, Block, BlockHash, Header, ScriptBuf, Transaction, TransactionModel, Txid,
    TxMerkleNode, MAX_MONEY,
};
use vstd::prelude::*;

verus! {

broadcast use vstd::array::group_array_axioms;

/// Every executable transaction has 32-byte txids in its outpoints.
pub proof fn lemma_tx_wf(t: &Transaction)
    ensures
        tx_wf(t@),
{
    assert forall|i: int| 0 <= i < t@.input.len() implies #[trigger] t@.input[i].previous_output.txid.len()
        == 32 by {
        assert(t@.input[i] == t.input@[i]@);
    }
}

/// Converts a txid of `bitcoin 0.32` to the version bdk tracks.
pub fn txid_from_032(txid: Txid) -> (r: Txid)
    ensures
        r@ == txid@,
{
    Txid { bytes: txid.bytes }
}

/// Converts a txid to `bitcoin 0.32`.
pub fn txid_to_032(txid: Txid) -> (r: Txid)
    ensures
        r@ == txid@,
{
    Txid { bytes: txid.bytes }
}

/// Converts a block hash of `bitcoin 0.32` to the version bdk tracks.
pub fn blockhash_from_032(hash: BlockHash) -> (r: BlockHash)
    ensures
        r@ == hash@,
{
    BlockHash { bytes: hash.bytes }
}

/// Converts a block hash to `bitcoin 0.32`.
pub fn blockhash_to_032(hash: BlockHash) -> (r: BlockHash)
    ensures
        r@ == hash@,
{
    BlockHash { bytes: hash.bytes }
}

/// Converts a merkle node to `bitcoin 0.32`.
pub fn merkle_node_to_032(node: TxMerkleNode) -> (r: TxMerkleNode)
    ensures
        r@ == node@,
{
    TxMerkleNode { bytes: node.bytes }
}

/// Re-encodes a transaction and decodes it with the other version, or `None` where that
/// decoding fails: exactly where some witness exceeds the decoder's limit, which is checked
/// before encoding. The transaction comes back unchanged.
pub fn try_tx_round_trip(tx: &Transaction) -> (r: Option<Transaction>)
    ensures
        r is Some <==> witnesses_within_limit(tx@),
        r matches Some(t) ==> t@ == tx@,
        r matches Some(t) ==> tx_decoding(tx_encoding(tx@)) == Some(t@),
{
    if !tx_witnesses_within_limit(tx) {
        return None;
    }
    proof {
        lemma_tx_wf(tx);
        lemma_within_limit_fits(tx@);
    }
    let bytes = serialize_tx(tx);
    deserialize_tx(bytes.as_slice())
}

/// Converts a transaction of `bitcoin 0.32` to the version bdk tracks, through its consensus
/// encoding; the transaction comes back unchanged. Its witnesses must fit the decoder's limit
/// (elsewhere the decoding fails).
pub fn tx_from_032(tx: &Transaction) -> (r: Transaction)
    requires
        witnesses_within_limit(tx@),
    ensures
        r@ == tx@,
{
    try_tx_round_trip(tx).unwrap()
}

/// Converts a transaction to `bitcoin 0.32`, through its consensus encoding; the transaction
/// comes back unchanged. Its witnesses must fit the decoder's limit.
pub fn tx_to_032(tx: &Transaction) -> (r: Transaction)
    requires
        witnesses_within_limit(tx@),
    ensures
        r@ == tx@,
{
    try_tx_round_trip(tx).unwrap()
}

/// Converts a block header of `bitcoin 0.32` to the version bdk tracks, through its 80-byte
/// consensus encoding; the header comes back unchanged.
pub fn header_from_032(header: Header) -> (r: Header)
    ensures
        r@ == header@,
{
    let bytes = serialize_header(&header);
    assert(header_wf(header@));
    deserialize_header(bytes.as_slice()).unwrap()
}

/// Whether every transaction of a block survives the round trip: each witness within the
/// decoder's limit.
pub open spec fn block_round_trips(b: Block) -> bool {
    forall|i: int| 0 <= i < b.txdata@.len() ==> witnesses_within_limit(#[trigger] b.txdata@[i]@)
}

/// Converts a block of `bitcoin 0.32` to the version bdk tracks: the header and each
/// transaction through its consensus encoding, in order. The block comes back unchanged, so it
/// encodes to the same bytes and has the same hash and txids.
pub fn block_from_032(block: &Block) -> (r: Block)
    requires
        block_round_trips(*block),
    ensures
        r@ == block@,
{
    let header = header_from_032(block.header);
    let mut txdata: Vec<Transaction> = Vec::new();
    let n = block.txdata.len();
    let mut i: usize = 0;
    while i < n
        invariant
            n == block.txdata@.len(),
            i <= n,
            block_round_trips(*block),
            txdata@.len() == i,
            forall|j: int| 0 <= j < i ==> (#[trigger] txdata@[j])@ == block.txdata@[j]@,
        decreases n - i,
    {
        assert(witnesses_within_limit(block.txdata@[i as int]@));
        let t = tx_from_032(&block.txdata[i]);
        txdata.push(t);
        i = i + 1;
    }
    let r = Block { header, txdata };
    assert(r@.txdata =~= block@.txdata);
    r
}

/// Converts a block like [`block_from_032`], or `None` where some transaction does not survive
/// the round trip.
pub fn try_block_from_032(block: &Block) -> (r: Option<Block>)
    ensures
        r is Some <==> block_round_trips(*block),
        r matches Some(b) ==> b@ == block@,
{
    let mut i: usize = 0;
    while i < block.txdata.len()
        invariant
            i <= block.txdata@.len(),
            forall|j: int| 0 <= j < i ==> witnesses_within_limit(#[trigger] block.txdata@[j]@),
        decreases block.txdata@.len() - i,
    {
        if !tx_witnesses_within_limit(&block.txdata[i]) {
            return None;
        }
        i = i + 1;
    }
    Some(block_from_032(block))
}

/// Converts a script pubkey of `bitcoin 0.32` to the version bdk tracks, moving its bytes.
pub fn spk_from_032(spk: ScriptBuf) -> (r: ScriptBuf)
    ensures
        r@ == spk@,
{
    ScriptBuf::from_bytes(spk.into_bytes())
}

/// Converts a script pubkey to `bitcoin 0.32`, moving its bytes.
pub fn spk_to_032(spk: ScriptBuf) -> (r: ScriptBuf)
    ensures
        r@ == spk@,
{
    ScriptBuf::from_bytes(spk.into_bytes())
}

/// Converts an amount of `bitcoin 0.32` to the version bdk tracks, which holds no amount above
/// the supply cap.
pub fn amount_from_032(amount: bitcoin_032::Amount) -> (r: Amount)
    requires
        amount.sat <= MAX_MONEY,
    ensures
        r.spec_sat() == amount.sat,
{
    Amount::from_sat(amount.to_sat()).unwrap()
}

/// Converts an amount of `bitcoin 0.32` to the version bdk tracks, or `None` above the supply
/// cap.
pub fn try_amount_from_032(amount: bitcoin_032::Amount) -> (r: Option<Amount>)
    ensures
        r is Some <==> amount.sat <= MAX_MONEY,
        r matches Some(a) ==> a.spec_sat() == amount.sat,
{
    Amount::from_sat(amount.to_sat())
}

/// Converts an amount to `bitcoin 0.32`.
pub fn amount_to_032(amount: Amount) -> (r: bitcoin_032::Amount)
    ensures
        r.sat == amount.spec_sat(),
        r.sat <= MAX_MONEY,
{
    bitcoin_032::Amount::from_sat(amount.to_sat())
}

/// Converts an address of `bitcoin 0.32` to the version bdk tracks through its string form: the
/// text is parsed again, and an address, held as its own normal form, comes back unchanged.
pub fn address_from_032(address: &Address) -> (r: Address)
    ensures
        r@ == address@,
{
    Address::from_text(address.as_str()).unwrap()
}

/// Converts an address to `bitcoin 0.32` through its string form; it comes back unchanged.
pub fn address_to_032(address: &Address) -> (r: Address)
    ensures
        r@ == address@,
{
    Address::from_text(address.as_str()).unwrap()
}

} // verus!
