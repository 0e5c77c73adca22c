//! Building and mining a block from a `getblocktemplate` answer.
//!
//! The node is asked for the template and handed the mined block by the caller; everything in
//! between is here: the BIP-34 coinbase scriptSig, the coinbase outputs, the transaction list,
//! the merkle root, the header and the search for a nonce that meets the target.
use crate::consensus::{
    block_hash, compute_txid, header_encoding, hex_decode, hex_decoding, merkle_root,
    concat, merkle_root_of, push_data_encoding, push_int_encoding, script_push_int, script_push_slice,
    sha256d, target_is_met, target_met, txid_of, witnesses_fit,
};
use crate::primitives::{
    Block, BlockHash, Header, HeaderModel, OutPoint, OutPointModel, ScriptBuf, Transaction,
    TransactionModel, TxIn, TxInModel, TxOut, TxOutModel, Txid, TxMerkleNode,
};
use crate::witness::tx_witnesses_fit;
use vstd::prelude::*;

verus! {

/// The `OP_TRUE` opcode: a script made of it alone can be spent by anyone.
pub const OP_TRUE: u8 = 0x51u8;

/// The `OP_0` opcode (an empty push), used to pad a short coinbase scriptSig.
pub const OP_0: u8 = 0x00u8;

/// Parameters for mining one block.
#[derive(Debug, Default)]
pub struct MineParams {
    /// If `true`, the block holds the coinbase only, none of the mempool transactions.
    pub empty: bool,
    /// A custom block timestamp; by default `max(min_time, now)`.
    pub time: Option<u32>,
    /// A custom coinbase output script; by default `OP_TRUE`.
    pub coinbase_address: Option<ScriptBuf>,
}

/// A transaction that the block template offers, with its fee in satoshis.
#[derive(Debug)]
pub struct TemplateTransaction {
    pub data: Transaction,
    pub fee: i64,
}

/// The fields of a `getblocktemplate` answer that mining reads.
#[derive(Debug)]
pub struct BlockTemplate {
    /// The preferred block version.
    pub version: i32,
    /// The hash of the current tip.
    pub previous_block_hash: BlockHash,
    /// The non-coinbase transactions to include.
    pub transactions: Vec<TemplateTransaction>,
    /// The hex strings to include in the coinbase scriptSig, in the order of their keys.
    pub coinbase_aux: Vec<String>,
    /// The most the coinbase may claim, in satoshis: subsidy plus the fees of `transactions`.
    pub coinbase_value: i64,
    /// The smallest acceptable block time.
    pub min_time: u32,
    /// The compact target of the next block.
    pub bits: u32,
    /// The height of the next block.
    pub height: u32,
    /// The witness commitment script, in hex, for the unmodified template.
    pub default_witness_commitment: Option<String>,
}

/// Why a block could not be mined.
#[derive(Debug, Clone, Copy, PartialEq, Eq, Structural)]
pub enum MineError {
    /// The template's witness commitment is not valid hex.
    WitnessCommitmentHex,
    /// No nonce makes the header hash meet the target.
    NonceNotFound,
}

/// A block that meets its target, with its hash and height.
#[derive(Debug)]
pub struct MinedBlock {
    pub height: u32,
    pub block: Block,
    pub hash: BlockHash,
}

// ---------------------------------------------------------------------------------------------
// Specification
// ---------------------------------------------------------------------------------------------

/// The script that the coinbase pays to.
pub open spec fn coinbase_spk(params: MineParams) -> Seq<u8> {
    match params.coinbase_address {
        Some(s) => s@,
        None => seq![OP_TRUE],
    }
}

/// The texts of the template's coinbase auxiliary data.
pub open spec fn aux_texts(t: BlockTemplate) -> Seq<Seq<char>> {
    t.coinbase_aux@.map_values(|s: String| s@)
}

/// Every auxiliary text is hex of fewer than 2^32 bytes.
pub open spec fn aux_valid(auxes: Seq<Seq<char>>) -> bool {
    forall|i: int|
        0 <= i < auxes.len() ==> (#[trigger] hex_decoding(auxes[i])) is Some
            && hex_decoding(auxes[i])->0.len() < 0x1_0000_0000
}

/// The pushes of the decoded auxiliary data, in order.
pub open spec fn aux_pushes(auxes: Seq<Seq<char>>) -> Seq<u8>
    decreases auxes.len(),
{
    if auxes.len() == 0 {
        Seq::empty()
    } else {
        aux_pushes(auxes.drop_last()) + push_data_encoding(hex_decoding(auxes.last())->0)
    }
}

/// The coinbase scriptSig: the BIP-34 height push, the auxiliary pushes, and an `OP_0` when
/// that is shorter than the two bytes a scriptSig must hold.
pub open spec fn coinbase_script_sig_spec(height: u32, auxes: Seq<Seq<char>>) -> Seq<u8> {
    let body = push_int_encoding(height as i64) + aux_pushes(auxes);
    if body.len() < 2 {
        body + seq![OP_0]
    } else {
        body
    }
}

/// The sum of the fees of the template's transactions.
pub open spec fn fee_total(txs: Seq<TemplateTransaction>) -> int
    decreases txs.len(),
{
    if txs.len() == 0 {
        0
    } else {
        fee_total(txs.drop_last()) + txs.last().fee
    }
}

/// The amounts in the template are ones that mining accepts: a coinbase value that is not
/// negative, and for an empty block fees that are not negative, whose sum fits in 64 bits and
/// does not exceed the coinbase value.
pub open spec fn amounts_valid(params: MineParams, t: BlockTemplate) -> bool {
    &&& t.coinbase_value >= 0
    &&& params.empty ==> {
        &&& forall|i: int|
            0 <= i < t.transactions@.len() ==> (#[trigger] t.transactions@[i]).fee >= 0
        &&& fee_total(t.transactions@) <= t.coinbase_value
    }
}

/// Whether the template's transactions, where the block includes them, are ones whose
/// witnesses the `bitcoin` crate can hold (as every transaction it decoded is).
pub open spec fn txs_fit(params: MineParams, t: BlockTemplate) -> bool {
    !params.empty ==> forall|i: int|
        0 <= i < t.transactions@.len() ==> witnesses_fit(#[trigger] t.transactions@[i].data@)
}

/// The coinbase outputs: for an empty block one output of the coinbase value less the fees of
/// the left-out transactions; otherwise one output of the whole coinbase value, followed by the
/// zero-value witness commitment output when the template has one.
pub open spec fn coinbase_outputs_spec(params: MineParams, t: BlockTemplate) -> Result<
    Seq<TxOutModel>,
    MineError,
> {
    let spk = coinbase_spk(params);
    if params.empty {
        Ok(
            seq![
                TxOutModel {
                    value: (t.coinbase_value - fee_total(t.transactions@)) as u64,
                    script_pubkey: spk,
                },
            ],
        )
    } else {
        let first = TxOutModel { value: t.coinbase_value as u64, script_pubkey: spk };
        match t.default_witness_commitment {
            None => Ok(seq![first]),
            Some(s) => match hex_decoding(s@) {
                None => Err(MineError::WitnessCommitmentHex),
                Some(b) => Ok(seq![first, TxOutModel { value: 0, script_pubkey: b }]),
            },
        }
    }
}

/// The null outpoint that a coinbase input spends: an all-zero txid and index `u32::MAX`.
pub open spec fn null_outpoint() -> OutPointModel {
    OutPointModel { txid: Seq::new(32, |i: int| 0u8), vout: 0xffff_ffff }
}

/// The coinbase transaction: version 1, lock time 0, one input spending the null outpoint with
/// the given scriptSig, the final sequence and no witness, and the given outputs.
pub open spec fn coinbase_tx_spec(script_sig: Seq<u8>, outputs: Seq<TxOutModel>) -> TransactionModel {
    TransactionModel {
        version: 1,
        lock_time: 0,
        input: seq![
            TxInModel {
                previous_output: null_outpoint(),
                script_sig,
                sequence: 0xffff_ffff,
                witness: Seq::empty(),
            },
        ],
        output: outputs,
    }
}

/// The block's transactions: the coinbase, then (unless the block is empty) the template's
/// transactions in order.
pub open spec fn txdata_spec(empty: bool, coinbase: TransactionModel, t: BlockTemplate) -> Seq<
    TransactionModel,
> {
    if empty {
        seq![coinbase]
    } else {
        seq![coinbase] + t.transactions@.map_values(|x: TemplateTransaction| x.data@)
    }
}

/// The block time: the custom time if given, otherwise the later of the template's minimum
/// time and the current time (in seconds, cut to 32 bits).
pub open spec fn block_time_spec(time: Option<u32>, min_time: u32, now: u64) -> u32 {
    match time {
        Some(t) => t,
        None => if min_time >= now as u32 {
            min_time
        } else {
            now as u32
        },
    }
}

/// A header with its nonce replaced.
pub open spec fn with_nonce(h: HeaderModel, nonce: u32) -> HeaderModel {
    HeaderModel {
        version: h.version,
        prev_blockhash: h.prev_blockhash,
        merkle_root: h.merkle_root,
        time: h.time,
        bits: h.bits,
        nonce,
    }
}

/// Whether the header, with the given nonce, hashes to a value that meets its target.
pub open spec fn nonce_meets(h: HeaderModel, nonce: u32) -> bool {
    target_met(h.bits, sha256d(header_encoding(with_nonce(h, nonce))))
}

/// Whether no nonce makes the header's hash meet its target.
pub open spec fn no_nonce_meets(h: HeaderModel) -> bool {
    forall|k: u32| !#[trigger] target_met(h.bits, sha256d(header_encoding(with_nonce(h, k))))
}

/// The header to mine: the template's version, previous hash and bits, the merkle root of the
/// block's transactions, the block time and nonce 0.
pub open spec fn unmined_header_spec(
    t: BlockTemplate,
    txdata: Seq<TransactionModel>,
    time: u32,
) -> HeaderModel {
    HeaderModel {
        version: t.version,
        prev_blockhash: t.previous_block_hash@,
        merkle_root: merkle_root_of(txdata.map_values(|x: TransactionModel| txid_of(x))),
        time,
        bits: t.bits,
        nonce: 0,
    }
}

// ---------------------------------------------------------------------------------------------
// Lemmas
// ---------------------------------------------------------------------------------------------

/// The coinbase of an empty block claims the coinbase value less the fees of the transactions
/// it leaves out: with those fees, exactly the template's coinbase value.
pub proof fn law_empty_block_coinbase_value(params: MineParams, t: BlockTemplate)
    requires
        params.empty,
        amounts_valid(params, t),
    ensures
        coinbase_outputs_spec(params, t) matches Ok(outs) && outs.len() == 1 && outs[0].value
            + fee_total(t.transactions@) == t.coinbase_value,
{
    lemma_fee_total_monotone(t.transactions@, 0);
    assert(t.transactions@.take(0) =~= Seq::<TemplateTransaction>::empty());
}

/// A coinbase scriptSig starts with the push of the block height (BIP-34) and holds at least
/// two bytes.
pub proof fn law_coinbase_script_sig_shape(height: u32, auxes: Seq<Seq<char>>)
    ensures
        coinbase_script_sig_spec(height, auxes).len() >= 2,
        coinbase_script_sig_spec(height, auxes).subrange(
            0,
            push_int_encoding(height as i64).len() as int,
        ) == push_int_encoding(height as i64),
{
    lemma_push_int_nonempty(height as i64);
    let p = push_int_encoding(height as i64);
    let body = p + aux_pushes(auxes);
    assert(body.subrange(0, p.len() as int) =~= p);
    assert((body + seq![OP_0]).subrange(0, p.len() as int) =~= p);
}

/// The coinbase pays the custom coinbase script where one is given and `OP_TRUE` only where
/// none is, in an empty block as in a full one. An empty block's single output claims the
/// coinbase value less the fees of the left-out transactions; a full block's first output claims
/// the whole coinbase value and is followed by the zero-value witness commitment exactly where
/// the template has one. Only a commitment that is not hex is an error.
pub proof fn law_coinbase_outputs(params: MineParams, t: BlockTemplate)
    requires
        amounts_valid(params, t),
    ensures
        coinbase_outputs_spec(params, t) matches Ok(outs) ==> {
            &&& outs.len() >= 1
            &&& params.coinbase_address is Some ==> outs[0].script_pubkey
                == params.coinbase_address->0@
            &&& params.coinbase_address is None ==> outs[0].script_pubkey == seq![0x51u8]
            &&& params.empty ==> outs.len() == 1 && outs[0].value + fee_total(t.transactions@)
                == t.coinbase_value
            &&& !params.empty ==> outs[0].value == t.coinbase_value
            &&& !params.empty && t.default_witness_commitment is None ==> outs.len() == 1
            &&& !params.empty && t.default_witness_commitment is Some ==> outs.len() == 2
                && outs[1].value == 0 && Some(outs[1].script_pubkey) == hex_decoding(
                t.default_witness_commitment->0@,
            )
        },
        coinbase_outputs_spec(params, t) is Err <==> !params.empty
            && t.default_witness_commitment is Some && hex_decoding(
            t.default_witness_commitment->0@,
        ) is None,
{
    if params.empty {
        law_empty_block_coinbase_value(params, t);
    }
}

/// A non-empty block holds the coinbase and then the template's transactions in the template's
/// order (parents before children, as the node lists them); an empty block holds the coinbase
/// alone.
pub proof fn law_block_transactions(empty: bool, coinbase: TransactionModel, t: BlockTemplate)
    ensures
        txdata_spec(empty, coinbase, t)[0] == coinbase,
        empty ==> txdata_spec(empty, coinbase, t).len() == 1,
        !empty ==> txdata_spec(empty, coinbase, t).len() == t.transactions@.len() + 1,
        !empty ==> forall|i: int|
            0 <= i < t.transactions@.len() ==> #[trigger] txdata_spec(empty, coinbase, t)[i + 1]
                == t.transactions@[i].data@,
{
}

/// What a mined block is, in terms of the template, the parameters and the clock: the header
/// carries the template's version, previous block hash and bits, the custom time or else the
/// later of the minimum time and now, and the merkle root of the block's own txids in block
/// order; the hash is the header's, it meets the target, and no smaller nonce does. The block
/// holds the coinbase first, then the template's transactions in order unless it is empty. The
/// coinbase spends the null outpoint with the height push first in its scriptSig, and pays the
/// custom script or else `OP_TRUE`. The witness-commitment error comes exactly where a full
/// block's commitment is not hex.
pub proof fn law_mined_block(
    params: MineParams,
    t: BlockTemplate,
    now: u64,
    r: Result<MinedBlock, MineError>,
)
    requires
        amounts_valid(params, t),
        mine_result_spec(r, params, t, now),
    ensures
        r matches Ok(m) ==> {
            let b = m.block@;
            let h = b.header;
            &&& m.height == t.height
            &&& h.version == t.version
            &&& h.prev_blockhash == t.previous_block_hash@
            &&& h.bits == t.bits
            &&& params.time matches Some(x) ==> h.time == x
            &&& params.time is None ==> h.time == (if (now as u32) > t.min_time {
                now as u32
            } else {
                t.min_time
            })
            &&& h.merkle_root == merkle_root_of(b.txdata.map_values(|x: TransactionModel| txid_of(x)))
            &&& m.hash@ == sha256d(header_encoding(h))
            &&& target_met(h.bits, m.hash@)
            &&& forall|k: u32|
                k < h.nonce ==> !target_met(
                    h.bits,
                    sha256d(
                        header_encoding(
                            HeaderModel {
                                version: h.version,
                                prev_blockhash: h.prev_blockhash,
                                merkle_root: h.merkle_root,
                                time: h.time,
                                bits: h.bits,
                                nonce: k,
                            },
                        ),
                    ),
                )
            &&& params.empty ==> b.txdata.len() == 1
            &&& !params.empty ==> b.txdata.len() == t.transactions@.len() + 1
            &&& !params.empty ==> forall|i: int|
                0 <= i < t.transactions@.len() ==> #[trigger] b.txdata[i + 1]
                    == t.transactions@[i].data@
            &&& b.txdata[0].version == 1 && b.txdata[0].lock_time == 0
            &&& b.txdata[0].input.len() == 1
            &&& b.txdata[0].input[0].previous_output.txid == Seq::new(32, |i: int| 0u8)
            &&& b.txdata[0].input[0].previous_output.vout == 0xffff_ffff
            &&& b.txdata[0].input[0].sequence == 0xffff_ffff
            &&& b.txdata[0].input[0].witness.len() == 0
            &&& b.txdata[0].input[0].script_sig.len() >= 2
            &&& b.txdata[0].input[0].script_sig.subrange(
                0,
                push_int_encoding(t.height as i64).len() as int,
            ) == push_int_encoding(t.height as i64)
            &&& b.txdata[0].output.len() >= 1
            &&& params.coinbase_address is Some ==> b.txdata[0].output[0].script_pubkey
                == params.coinbase_address->0@
            &&& params.coinbase_address is None ==> b.txdata[0].output[0].script_pubkey
                == seq![0x51u8]
            &&& params.empty ==> b.txdata[0].output[0].value + fee_total(t.transactions@)
                == t.coinbase_value
            &&& !params.empty ==> b.txdata[0].output[0].value == t.coinbase_value
            &&& (params.empty || t.default_witness_commitment is None) ==> b.txdata[0].output.len()
                == 1
            &&& !params.empty && t.default_witness_commitment is Some ==> b.txdata[0].output.len()
                == 2 && b.txdata[0].output[1].value == 0 && Some(
                b.txdata[0].output[1].script_pubkey,
            ) == hex_decoding(t.default_witness_commitment->0@)
            &&& b.txdata[0].input[0].script_sig.subrange(
                0,
                (push_int_encoding(t.height as i64).len() + concat(
                    aux_texts(t).map_values(
                        |a: Seq<char>| push_data_encoding(hex_decoding(a)->0),
                    ),
                ).len()) as int,
            ) == push_int_encoding(t.height as i64) + concat(
                aux_texts(t).map_values(|a: Seq<char>| push_data_encoding(hex_decoding(a)->0)),
            )
        },
        r == Err::<MinedBlock, MineError>(MineError::NonceNotFound) ==> ({
            let outs = coinbase_outputs_spec(params, t)->Ok_0;
            let txdata = txdata_spec(
                params.empty,
                coinbase_tx_spec(coinbase_script_sig_spec(t.height, aux_texts(t)), outs),
                t,
            );
            &&& coinbase_outputs_spec(params, t) is Ok
            &&& no_nonce_meets(
                HeaderModel {
                    version: t.version,
                    prev_blockhash: t.previous_block_hash@,
                    merkle_root: merkle_root_of(txdata.map_values(|x: TransactionModel| txid_of(x))),
                    time: block_time_spec(params.time, t.min_time, now),
                    bits: t.bits,
                    nonce: 0,
                },
            )
        }),
        r == Err::<MinedBlock, MineError>(MineError::WitnessCommitmentHex) <==> !params.empty
            && t.default_witness_commitment is Some && hex_decoding(
            t.default_witness_commitment->0@,
        ) is None,
{
    law_coinbase_outputs(params, t);
    law_coinbase_script_sig_shape(t.height, aux_texts(t));
    law_coinbase_script_sig_content(t.height, aux_texts(t));
    if let Ok(outputs) = coinbase_outputs_spec(params, t) {
        let coinbase = coinbase_tx_spec(coinbase_script_sig_spec(t.height, aux_texts(t)), outputs);
        law_block_transactions(params.empty, coinbase, t);
        if r == Err::<MinedBlock, MineError>(MineError::NonceNotFound) {
            let txdata = txdata_spec(params.empty, coinbase, t);
            let h0 = unmined_header_spec(t, txdata, block_time_spec(params.time, t.min_time, now));
            assert forall|k: u32| !#[trigger] target_met(
                h0.bits,
                sha256d(header_encoding(with_nonce(h0, k))),
            ) by {
                assert(!nonce_meets(h0, k));
            }
            assert(no_nonce_meets(h0));
        }
        if let Ok(m) = r {
            let h = m.block@.header;
            assert forall|k: u32| k < h.nonce implies !target_met(
                h.bits,
                sha256d(
                    header_encoding(
                        HeaderModel {
                            version: h.version,
                            prev_blockhash: h.prev_blockhash,
                            merkle_root: h.merkle_root,
                            time: h.time,
                            bits: h.bits,
                            nonce: k,
                        },
                    ),
                ),
            ) by {
                let txdata = txdata_spec(params.empty, coinbase, t);
                let h0 = unmined_header_spec(t, txdata, block_time_spec(params.time, t.min_time, now));
                assert(!nonce_meets(h0, k));
                assert(with_nonce(h0, k) == HeaderModel {
                    version: h.version,
                    prev_blockhash: h.prev_blockhash,
                    merkle_root: h.merkle_root,
                    time: h.time,
                    bits: h.bits,
                    nonce: k,
                });
            }
        }
    }
}

/// The auxiliary pushes are the pushes of each decoded auxiliary text, one after the other in
/// the template's order.
pub proof fn law_aux_pushes_in_order(auxes: Seq<Seq<char>>)
    ensures
        aux_pushes(auxes) == concat(
            auxes.map_values(|a: Seq<char>| push_data_encoding(hex_decoding(a)->0)),
        ),
    decreases auxes.len(),
{
    if auxes.len() > 0 {
        law_aux_pushes_in_order(auxes.drop_last());
        let f = |a: Seq<char>| push_data_encoding(hex_decoding(a)->0);
        assert(auxes.map_values(f).drop_last() =~= auxes.drop_last().map_values(f));
    }
}

/// The coinbase scriptSig is the height push followed by the pushes of the auxiliary texts in
/// order, padded with `OP_0` to two bytes where it is shorter.
pub proof fn law_coinbase_script_sig_content(height: u32, auxes: Seq<Seq<char>>)
    ensures
        ({
            let pushes = push_int_encoding(height as i64) + concat(
                auxes.map_values(|a: Seq<char>| push_data_encoding(hex_decoding(a)->0)),
            );
            let sig = coinbase_script_sig_spec(height, auxes);
            &&& sig.subrange(0, pushes.len() as int) == pushes
            &&& pushes.len() >= 2 ==> sig.len() == pushes.len()
            &&& pushes.len() < 2 ==> sig.len() == 2 && sig[1] == 0x00u8
        }),
{
    law_aux_pushes_in_order(auxes);
    let pushes = push_int_encoding(height as i64) + aux_pushes(auxes);
    assert((pushes + seq![OP_0]).subrange(0, pushes.len() as int) =~= pushes);
    assert(pushes.subrange(0, pushes.len() as int) =~= pushes);
    lemma_push_int_nonempty(height as i64);
}

/// Pushing an integer appends at least one byte.
pub proof fn lemma_push_int_nonempty(n: i64)
    ensures
        push_int_encoding(n).len() >= 1,
{
}

/// The pushes of a prefix of the auxiliary data, extended by one more.
proof fn lemma_aux_pushes_step(auxes: Seq<Seq<char>>, i: int)
    requires
        0 <= i < auxes.len(),
    ensures
        aux_pushes(auxes.take(i + 1)) == aux_pushes(auxes.take(i)) + push_data_encoding(
            hex_decoding(auxes[i])->0,
        ),
{
    assert(auxes.take(i + 1).drop_last() =~= auxes.take(i));
}

/// The fee total of a prefix, extended by one more transaction.
proof fn lemma_fee_total_step(txs: Seq<TemplateTransaction>, i: int)
    requires
        0 <= i < txs.len(),
    ensures
        fee_total(txs.take(i + 1)) == fee_total(txs.take(i)) + txs[i].fee,
{
    assert(txs.take(i + 1).drop_last() =~= txs.take(i));
}

/// With fees that are not negative, the fee total grows along prefixes.
proof fn lemma_fee_total_monotone(txs: Seq<TemplateTransaction>, i: int)
    requires
        0 <= i <= txs.len(),
        forall|j: int| 0 <= j < txs.len() ==> (#[trigger] txs[j]).fee >= 0,
    ensures
        0 <= fee_total(txs.take(i)) <= fee_total(txs),
    decreases txs.len() - i,
{
    if i == txs.len() {
        assert(txs.take(i) =~= txs);
        lemma_fee_total_nonneg(txs, txs.len() as int);
    } else {
        lemma_fee_total_step(txs, i);
        lemma_fee_total_nonneg(txs, i);
        lemma_fee_total_monotone(txs, i + 1);
    }
}

/// With fees that are not negative, every prefix sum is not negative.
proof fn lemma_fee_total_nonneg(txs: Seq<TemplateTransaction>, i: int)
    requires
        0 <= i <= txs.len(),
        forall|j: int| 0 <= j < txs.len() ==> (#[trigger] txs[j]).fee >= 0,
    ensures
        fee_total(txs.take(i)) >= 0,
    decreases i,
{
    if i == 0 {
        assert(txs.take(0) =~= Seq::<TemplateTransaction>::empty());
    } else {
        lemma_fee_total_step(txs, i - 1);
        lemma_fee_total_nonneg(txs, i - 1);
    }
}

// ---------------------------------------------------------------------------------------------
// Executable functions
// ---------------------------------------------------------------------------------------------

impl MineParams {
    /// The coinbase output script: the custom one if given, otherwise `OP_TRUE` (anyone can
    /// spend).
    pub fn address_or_anyone_can_spend(&self) -> (r: ScriptBuf)
        ensures
            r@ == coinbase_spk(*self),
            self.coinbase_address is Some ==> r@ == self.coinbase_address->0@,
            self.coinbase_address is None ==> r@ == seq![0x51u8],
    {
        match &self.coinbase_address {
            Some(spk) => spk.copy(),
            None => ScriptBuf::from_bytes(vec![OP_TRUE]),
        }
    }
}

/// Builds the coinbase scriptSig: BIP-34 requires the height to be its first push; the
/// auxiliary data follows, and an `OP_0` pads it to the two bytes it must hold at least.
#[verifier::rlimit(30)]
pub fn coinbase_script_sig(height: u32, coinbase_aux: &Vec<String>) -> (r: Vec<u8>)
    requires
        aux_valid(coinbase_aux@.map_values(|s: String| s@)),
    ensures
        r@ == coinbase_script_sig_spec(height, coinbase_aux@.map_values(|s: String| s@)),
        r@.len() >= 2,
        r@.subrange(0, push_int_encoding(height as i64).len() as int) == push_int_encoding(
            height as i64,
        ),
{
    let ghost auxes = coinbase_aux@.map_values(|s: String| s@);
    let mut script = script_push_int(Vec::new(), height as i64);
    proof {
        lemma_push_int_nonempty(height as i64);
        assert(auxes.take(0) =~= Seq::<Seq<char>>::empty());
        assert(script@ =~= push_int_encoding(height as i64) + aux_pushes(auxes.take(0)));
    }
    let mut i: usize = 0;
    while i < coinbase_aux.len()
        invariant
            i <= coinbase_aux@.len(),
            auxes == coinbase_aux@.map_values(|s: String| s@),
            aux_valid(auxes),
            script@ == push_int_encoding(height as i64) + aux_pushes(auxes.take(i as int)),
        decreases coinbase_aux@.len() - i,
    {
        assert(auxes[i as int] == coinbase_aux@[i as int]@);
        assert(hex_decoding(auxes[i as int]) is Some);
        let bytes = hex_decode(coinbase_aux[i].as_str()).unwrap();
        proof {
            lemma_aux_pushes_step(auxes, i as int);
        }
        script = script_push_slice(script, bytes);
        i = i + 1;
    }
    proof {
        assert(auxes.take(i as int) =~= auxes);
    }
    if script.len() < 2 {
        script.push(OP_0);
    }
    proof {
        lemma_push_int_nonempty(height as i64);
        assert(script@.subrange(0, push_int_encoding(height as i64).len() as int)
            =~= push_int_encoding(height as i64));
    }
    script
}

/// Like [`coinbase_script_sig`], but `None` where some auxiliary text is not hex of fewer than
/// 2^32 bytes.
pub fn try_coinbase_script_sig(height: u32, coinbase_aux: &Vec<String>) -> (r: Option<Vec<u8>>)
    ensures
        r is Some <==> aux_valid(coinbase_aux@.map_values(|s: String| s@)),
        r matches Some(v) ==> v@ == coinbase_script_sig_spec(
            height,
            coinbase_aux@.map_values(|s: String| s@),
        ),
{
    let ghost auxes = coinbase_aux@.map_values(|s: String| s@);
    let mut i: usize = 0;
    while i < coinbase_aux.len()
        invariant
            i <= coinbase_aux@.len(),
            auxes == coinbase_aux@.map_values(|s: String| s@),
            forall|j: int|
                0 <= j < i ==> (#[trigger] hex_decoding(auxes[j])) is Some && hex_decoding(
                    auxes[j],
                )->0.len() < 0x1_0000_0000,
        decreases coinbase_aux@.len() - i,
    {
        assert(auxes[i as int] == coinbase_aux@[i as int]@);
        match hex_decode(coinbase_aux[i].as_str()) {
            Some(bytes) => {
                if bytes.len() as u64 >= 0x1_0000_0000u64 {
                    return None;
                }
            },
            None => {
                return None;
            },
        }
        i = i + 1;
    }
    Some(coinbase_script_sig(height, coinbase_aux))
}

/// Sums the fees of the template's transactions, as satoshis.
fn total_fees(txs: &Vec<TemplateTransaction>) -> (r: u64)
    requires
        forall|i: int| 0 <= i < txs@.len() ==> (#[trigger] txs@[i]).fee >= 0,
        fee_total(txs@) <= u64::MAX,
    ensures
        r == fee_total(txs@),
{
    let mut sum: u64 = 0;
    let mut i: usize = 0;
    proof {
        assert(txs@.take(0) =~= Seq::<TemplateTransaction>::empty());
    }
    while i < txs.len()
        invariant
            i <= txs@.len(),
            forall|j: int| 0 <= j < txs@.len() ==> (#[trigger] txs@[j]).fee >= 0,
            fee_total(txs@) <= u64::MAX,
            sum == fee_total(txs@.take(i as int)),
        decreases txs@.len() - i,
    {
        proof {
            lemma_fee_total_step(txs@, i as int);
            lemma_fee_total_monotone(txs@, i as int + 1);
        }
        sum = sum + txs[i].fee as u64;
        i = i + 1;
    }
    proof {
        assert(txs@.take(i as int) =~= txs@);
    }
    sum
}

/// Builds the coinbase outputs (see [`coinbase_outputs_spec`]).
pub fn coinbase_outputs(params: &MineParams, template: &BlockTemplate) -> (r: Result<
    Vec<TxOut>,
    MineError,
>)
    requires
        amounts_valid(*params, *template),
    ensures
        match (r, coinbase_outputs_spec(*params, *template)) {
            (Ok(v), Ok(s)) => v@.map_values(|o: TxOut| o@) == s,
            (Err(e), Err(f)) => e == f,
            _ => false,
        },
        r matches Ok(v) ==> v@.len() >= 1 && v@[0]@.script_pubkey == (
        match params.coinbase_address {
            Some(s) => s@,
            None => seq![0x51u8],
        }),
        r matches Ok(v) ==> (params.empty ==> v@.len() == 1 && v@[0].value + fee_total(
            template.transactions@,
        ) == template.coinbase_value),
        r matches Ok(v) ==> (!params.empty ==> v@[0].value == template.coinbase_value),
{
    if params.empty {
        proof {
            lemma_fee_total_monotone(template.transactions@, 0);
            assert(template.transactions@.take(template.transactions@.len() as int)
                =~= template.transactions@);
            lemma_fee_total_nonneg(template.transactions@, template.transactions@.len() as int);
        }
        let fees = total_fees(&template.transactions);
        let value = template.coinbase_value as u64 - fees;
        let out = vec![TxOut { value, script_pubkey: params.address_or_anyone_can_spend() }];
        proof {
            assert(out@.map_values(|o: TxOut| o@) =~= coinbase_outputs_spec(*params, *template)->Ok_0);
        }
        Ok(out)
    } else {
        let first = TxOut {
            value: template.coinbase_value as u64,
            script_pubkey: params.address_or_anyone_can_spend(),
        };
        match &template.default_witness_commitment {
            None => {
                let out = vec![first];
                proof {
                    assert(out@.map_values(|o: TxOut| o@) =~= coinbase_outputs_spec(
                        *params,
                        *template,
                    )->Ok_0);
                }
                Ok(out)
            },
            Some(hex) => match hex_decode(hex.as_str()) {
                None => Err(MineError::WitnessCommitmentHex),
                Some(bytes) => {
                    let out = vec![first, TxOut { value: 0, script_pubkey: ScriptBuf::from_bytes(bytes) }];
                    proof {
                        assert(out@.map_values(|o: TxOut| o@) =~= coinbase_outputs_spec(
                            *params,
                            *template,
                        )->Ok_0);
                    }
                    Ok(out)
                },
            },
        }
    }
}

/// Builds the coinbase transaction (see [`coinbase_tx_spec`]).
pub fn coinbase_tx(script_sig: Vec<u8>, outputs: Vec<TxOut>) -> (r: Transaction)
    ensures
        r@ == coinbase_tx_spec(script_sig@, outputs@.map_values(|o: TxOut| o@)),
{
    let input = TxIn {
        previous_output: OutPoint { txid: Txid { bytes: [0u8; 32] }, vout: 0xffff_ffffu32 },
        script_sig: ScriptBuf::from_bytes(script_sig),
        sequence: 0xffff_ffffu32,
        witness: Vec::new(),
    };
    let ins = vec![input];
    let r = Transaction { version: 1, lock_time: 0, input: ins, output: outputs };
    proof {
        assert(r@.input[0].previous_output.txid =~= null_outpoint().txid);
        assert(r@.input[0].witness =~= Seq::<Seq<u8>>::empty());
        assert(r@.input =~= coinbase_tx_spec(script_sig@, outputs@.map_values(|o: TxOut| o@)).input);
    }
    r
}

/// Computes the block time (see [`block_time_spec`]).
pub fn block_time(time: Option<u32>, min_time: u32, now: u64) -> (r: u32)
    ensures
        r == block_time_spec(time, min_time, now),
{
    match time {
        Some(t) => t,
        None => {
            let now32 = now as u32;
            if min_time >= now32 {
                min_time
            } else {
                now32
            }
        },
    }
}

/// Searches the nonces in increasing order for the first one whose header hash meets the
/// target; `None` if there is none.
pub fn find_nonce(header: Header) -> (r: Option<(Header, BlockHash)>)
    ensures
        r matches Some((h, hash)) ==> {
            &&& h@ == with_nonce(header@, h.nonce)
            &&& hash@ == sha256d(header_encoding(h@))
            &&& nonce_meets(header@, h.nonce)
            &&& forall|k: u32| k < h.nonce ==> !nonce_meets(header@, k)
        },
        r is None ==> forall|k: u32| !nonce_meets(header@, k),
{
    let mut h = header;
    let mut n: u64 = 0;
    while n <= 0xffff_ffff
        invariant
            n <= 0x1_0000_0000,
            h@ == with_nonce(header@, h.nonce),
            forall|k: u32| k < n ==> !nonce_meets(header@, k),
        decreases 0x1_0000_0000 - n,
    {
        h.nonce = n as u32;
        let hash = block_hash(&h);
        if target_is_met(h.bits, &hash) {
            return Some((h, hash));
        }
        n = n + 1;
    }
    None
}

/// The txids of a list of transactions, in order.
fn txids_of(txdata: &Vec<Transaction>) -> (r: Vec<Txid>)
    requires
        forall|i: int| 0 <= i < txdata@.len() ==> witnesses_fit(#[trigger] txdata@[i]@),
    ensures
        r@.map_values(|t: Txid| t@) == txdata@.map_values(|t: Transaction| t@).map_values(
            |x: TransactionModel| txid_of(x),
        ),
{
    let mut ids: Vec<Txid> = Vec::new();
    let mut i: usize = 0;
    while i < txdata.len()
        invariant
            i <= txdata@.len(),
            ids@.len() == i,
            forall|k: int| 0 <= k < txdata@.len() ==> witnesses_fit(#[trigger] txdata@[k]@),
            forall|j: int| 0 <= j < i ==> (#[trigger] ids@[j])@ == txid_of(txdata@[j]@),
        decreases txdata@.len() - i,
    {
        let id = compute_txid(&txdata[i]);
        ids.push(id);
        i = i + 1;
    }
    assert(ids@.map_values(|t: Txid| t@) =~= txdata@.map_values(|t: Transaction| t@).map_values(
        |x: TransactionModel| txid_of(x),
    ));
    ids
}

/// Copies a transaction.
fn copy_tx(t: &Transaction) -> (r: Transaction)
    ensures
        r@ == t@,
{
    let mut input: Vec<TxIn> = Vec::new();
    let mut i: usize = 0;
    while i < t.input.len()
        invariant
            i <= t.input@.len(),
            input@.len() == i,
            forall|j: int| 0 <= j < i ==> (#[trigger] input@[j])@ == t.input@[j]@,
        decreases t.input@.len() - i,
    {
        let x = &t.input[i];
        let w = x.witness.clone();
        proof {
            assert(w.deep_view() =~= x.witness.deep_view()) by {
                assert forall|k: int| 0 <= k < w@.len() implies w.deep_view()[k]
                    == x.witness.deep_view()[k] by {
                    assert(vstd::pervasive::cloned(x.witness@[k], w@[k]));
                }
            }
        }
        input.push(
            TxIn {
                previous_output: x.previous_output,
                script_sig: x.script_sig.copy(),
                sequence: x.sequence,
                witness: w,
            },
        );
        i = i + 1;
    }
    let mut output: Vec<TxOut> = Vec::new();
    let mut j: usize = 0;
    while j < t.output.len()
        invariant
            j <= t.output@.len(),
            output@.len() == j,
            forall|k: int| 0 <= k < j ==> (#[trigger] output@[k])@ == t.output@[k]@,
        decreases t.output@.len() - j,
    {
        let o = &t.output[j];
        output.push(TxOut { value: o.value, script_pubkey: o.script_pubkey.copy() });
        j = j + 1;
    }
    let r = Transaction { version: t.version, lock_time: t.lock_time, input, output };
    assert(r@.input =~= t@.input);
    assert(r@.output =~= t@.output);
    r
}

/// Builds the block's transaction list (see [`txdata_spec`]).
pub fn block_txdata(empty: bool, coinbase: Transaction, template: &BlockTemplate) -> (r: Vec<
    Transaction,
>)
    ensures
        r@.map_values(|t: Transaction| t@) == txdata_spec(empty, coinbase@, *template),
        r@[0]@ == coinbase@,
        empty ==> r@.len() == 1,
        !empty ==> r@.len() == template.transactions@.len() + 1 && forall|i: int|
            0 <= i < template.transactions@.len() ==> (#[trigger] r@[i + 1])@
                == template.transactions@[i].data@,
{
    let ghost cb = coinbase@;
    let mut txdata: Vec<Transaction> = vec![coinbase];
    if !empty {
        let mut i: usize = 0;
        while i < template.transactions.len()
            invariant
                i <= template.transactions@.len(),
                txdata@.len() == i + 1,
                txdata@[0]@ == cb,
                forall|j: int|
                    0 <= j < i ==> (#[trigger] txdata@[j + 1])@ == template.transactions@[j].data@,
            decreases template.transactions@.len() - i,
        {
            let t = copy_tx(&template.transactions[i].data);
            txdata.push(t);
            i = i + 1;
        }
        let ghost spec = txdata_spec(empty, cb, *template);
        let ghost mapped = txdata@.map_values(|t: Transaction| t@);
        assert(spec.len() == txdata@.len());
        assert forall|k: int| 0 <= k < txdata@.len() implies #[trigger] mapped[k] == spec[k] by {
            if k > 0 {
                assert(txdata@[(k - 1) + 1]@ == template.transactions@[k - 1].data@);
            }
        }
        assert(mapped =~= spec);
    } else {
        assert(txdata@.map_values(|t: Transaction| t@) =~= txdata_spec(empty, cb, *template));
    }
    txdata
}

/// Everything a successful mining run produces, stated over the template.
pub open spec fn mined_as_specified(
    m: MinedBlock,
    params: MineParams,
    t: BlockTemplate,
    now: u64,
    outputs: Seq<TxOutModel>,
) -> bool {
    let coinbase = coinbase_tx_spec(coinbase_script_sig_spec(t.height, aux_texts(t)), outputs);
    let txdata = txdata_spec(params.empty, coinbase, t);
    let h0 = unmined_header_spec(t, txdata, block_time_spec(params.time, t.min_time, now));
    &&& m.height == t.height
    &&& m.block@.txdata == txdata
    &&& m.block@.header == with_nonce(h0, m.block.header.nonce)
    &&& m.hash@ == sha256d(header_encoding(m.block@.header))
    &&& nonce_meets(h0, m.block.header.nonce)
    &&& forall|k: u32| k < m.block.header.nonce ==> !nonce_meets(h0, k)
}

/// What mining the template gives: the witness-commitment error where the template's commitment
/// is not hex, otherwise the mined block as specified, or `NonceNotFound` where no nonce meets
/// the target.
pub open spec fn mine_result_spec(
    r: Result<MinedBlock, MineError>,
    params: MineParams,
    t: BlockTemplate,
    now: u64,
) -> bool {
    match coinbase_outputs_spec(params, t) {
        Err(_) => r == Err::<MinedBlock, MineError>(MineError::WitnessCommitmentHex),
        Ok(outputs) => match r {
            Ok(m) => mined_as_specified(m, params, t, now, outputs),
            Err(e) => {
                let coinbase = coinbase_tx_spec(
                    coinbase_script_sig_spec(t.height, aux_texts(t)),
                    outputs,
                );
                let txdata = txdata_spec(params.empty, coinbase, t);
                let h0 = unmined_header_spec(t, txdata, block_time_spec(params.time, t.min_time, now));
                e == MineError::NonceNotFound && forall|k: u32| !nonce_meets(h0, k)
            },
        },
    }
}

/// Builds the block that the template describes and mines it: the first nonce (counting up from
/// 0) whose header hash meets the target is taken. `now` is the current time in seconds since
/// the Unix epoch.
pub fn mine(params: &MineParams, template: &BlockTemplate, now: u64) -> (r: Result<
    MinedBlock,
    MineError,
>)
    requires
        aux_valid(aux_texts(*template)),
        amounts_valid(*params, *template),
        txs_fit(*params, *template),
    ensures
        mine_result_spec(r, *params, *template, now),
        params.empty && r is Ok ==> r->Ok_0.block@.header.merkle_root == txid_of(
            r->Ok_0.block@.txdata[0],
        ),
        r matches Ok(m) ==> m.block.header.version == template.version,
        r matches Ok(m) ==> m.block@.header.merkle_root == merkle_root_of(
            m.block@.txdata.map_values(|x: TransactionModel| txid_of(x)),
        ),
        r matches Ok(m) ==> m.block@.txdata[0].output[0].script_pubkey == (
        match params.coinbase_address {
            Some(s) => s@,
            None => seq![0x51u8],
        }),
        r matches Ok(m) ==> (!params.empty ==> m.block@.txdata.len()
            == template.transactions@.len() + 1 && forall|i: int|
            0 <= i < template.transactions@.len() ==> #[trigger] m.block@.txdata[i + 1]
                == template.transactions@[i].data@),
{
    let script_sig = coinbase_script_sig(template.height, &template.coinbase_aux);
    let outputs = match coinbase_outputs(params, template) {
        Ok(o) => o,
        Err(e) => {
            return Err(e);
        },
    };
    let ghost outs = outputs@.map_values(|o: TxOut| o@);
    let coinbase = coinbase_tx(script_sig, outputs);
    let ghost cb = coinbase@;
    let txdata = block_txdata(params.empty, coinbase, template);
    proof {
        let d = txdata_spec(params.empty, cb, *template);
        assert(txdata@.map_values(|t: Transaction| t@).len() == txdata@.len());
        assert forall|i: int| 0 <= i < txdata@.len() implies witnesses_fit(#[trigger] txdata@[i]@) by {
            assert(txdata@[i]@ == d[i]);
            if i == 0 {
                assert(d[0] == cb);
                assert(cb.input.len() == 1 && cb.input[0].witness.len() == 0);
            } else {
                assert(!params.empty);
                assert(d[i] == template.transactions@[i - 1].data@);
            }
        }
    }
    let ids = txids_of(&txdata);
    assert(ids@.len() >= 1) by {
        let d = txdata_spec(params.empty, coinbase@, *template);
        assert(d.len() >= 1);
        assert(txdata@.map_values(|t: Transaction| t@).len() == txdata@.len());
        assert(ids@.map_values(|t: Txid| t@).len() == ids@.len());
    }
    let root = merkle_root(&ids).unwrap();
    proof {
        if params.empty {
            assert(txdata@.map_values(|t: Transaction| t@).len() == 1);
            assert(txdata@.len() == 1);
            assert(ids@.map_values(|t: Txid| t@).len() == txdata@.map_values(|t: Transaction| t@).map_values(
                |x: TransactionModel| txid_of(x),
            ).len());
            assert(ids@.len() == 1);
            assert(ids@.map_values(|t: Txid| t@)[0] == txdata@.map_values(|t: Transaction| t@).map_values(
                |x: TransactionModel| txid_of(x),
            )[0]);
        }
    }
    let header = Header {
        version: template.version,
        prev_blockhash: template.previous_block_hash,
        merkle_root: root,
        time: block_time(params.time, template.min_time, now),
        bits: template.bits,
        nonce: 0,
    };
    proof {
        let coinbase_m = coinbase_tx_spec(
            coinbase_script_sig_spec(template.height, aux_texts(*template)),
            outs,
        );
        let txd = txdata_spec(params.empty, coinbase_m, *template);
        assert(header@ == unmined_header_spec(
            *template,
            txd,
            block_time_spec(params.time, template.min_time, now),
        ));
    }
    let r = match find_nonce(header) {
        Some((h, hash)) => {
            let block = Block { header: h, txdata };
            Ok(MinedBlock { height: template.height, block, hash })
        },
        None => Err(MineError::NonceNotFound),
    };
    proof {
        assert(mine_result_spec(r, *params, *template, now));
        law_mined_block(*params, *template, now, r);
    }
    r
}

/// Like [`mine`], but `None` where some auxiliary text of the template is not hex of fewer than
/// 2^32 bytes, or where a transaction that the block would include has a witness that the
/// `bitcoin` crate cannot hold.
pub fn try_mine(params: &MineParams, template: &BlockTemplate, now: u64) -> (r: Option<
    Result<MinedBlock, MineError>,
>)
    requires
        amounts_valid(*params, *template),
    ensures
        r is Some <==> aux_valid(aux_texts(*template)) && txs_fit(*params, *template),
        r matches Some(res) ==> mine_result_spec(res, *params, *template, now),
{
    if try_coinbase_script_sig(template.height, &template.coinbase_aux).is_none() {
        return None;
    }
    if !params.empty {
        let mut i: usize = 0;
        while i < template.transactions.len()
            invariant
                !params.empty,
                i <= template.transactions@.len(),
                forall|j: int|
                    0 <= j < i ==> witnesses_fit(#[trigger] template.transactions@[j].data@),
            decreases template.transactions@.len() - i,
        {
            if !tx_witnesses_fit(&template.transactions[i].data) {
                assert(!witnesses_fit(template.transactions@[i as int].data@));
                return None;
            }
            i = i + 1;
        }
    }
    Some(mine(params, template, now))
}

} // verus!
