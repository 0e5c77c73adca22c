//! Bitcoin's consensus encodings and hashes, computed by the `bitcoin` crate.
//!
//! Every executable function here is trusted: it hands plain values to the `bitcoin` crate and
//! converts the answer back. Where an encoding takes a few lines to state, the contract states
//! it; otherwise the result is named by a spec function without a body, and the contract adds
//! only the facts that the crate's source and documentation give.
use crate::primitives::{
    BlockHash, Header, HeaderModel, OutPoint, OutPointModel, ScriptBuf, Transaction,
    TransactionModel, TxIn, TxInModel, TxOut, TxOutModel, Txid, TxMerkleNode,
};
use bitcoin::absolute::LockTime;
use bitcoin::hashes::Hash as _;
use bitcoin::transaction::Version as TxVersion;
use bitcoin::{
    Amount as BAmount, OutPoint as BOutPoint, ScriptBuf as BScript, Sequence, Transaction as BTx,
    TxIn as BIn, TxOut as BOut, Txid as BTxid, Witness,
};
use core::str::FromStr as _;
use vstd::arithmetic::power2::pow2;
use vstd::prelude::*;

verus! {

/// The largest number of bytes that the `bitcoin` decoder accepts for one vector.
pub const MAX_VEC_SIZE: usize = 4_000_000usize;

// ---------------------------------------------------------------------------------------------
// Encodings stated in full
// ---------------------------------------------------------------------------------------------

/// The `n` low bytes of `x`, least significant first.
pub open spec fn le_bytes(x: nat, n: nat) -> Seq<u8>
    decreases n,
{
    if n == 0 {
        Seq::empty()
    } else {
        seq![(x % 256) as u8] + le_bytes(x / 256, (n - 1) as nat)
    }
}

/// `le_bytes` gives exactly `n` bytes.
pub proof fn lemma_le_bytes_len(x: nat, n: nat)
    ensures
        le_bytes(x, n).len() == n,
    decreases n,
{
    if n > 0 {
        lemma_le_bytes_len(x / 256, (n - 1) as nat);
    }
}

/// A CompactSize takes one, three, five or nine bytes.
pub proof fn lemma_compact_size_len(n: nat)
    ensures
        1 <= compact_size(n).len() <= 9,
{
    lemma_le_bytes_len(n, 2);
    lemma_le_bytes_len(n, 4);
    lemma_le_bytes_len(n, 8);
}

/// Bitcoin's CompactSize encoding of a length.
pub open spec fn compact_size(n: nat) -> Seq<u8> {
    if n < 0xfd {
        seq![n as u8]
    } else if n <= 0xffff {
        seq![0xfdu8] + le_bytes(n, 2)
    } else if n <= 0xffff_ffff {
        seq![0xfeu8] + le_bytes(n, 4)
    } else {
        seq![0xffu8] + le_bytes(n, 8)
    }
}

/// The 80-byte consensus encoding of a block header.
pub open spec fn header_encoding(h: HeaderModel) -> Seq<u8> {
    le_bytes((h.version as u32) as nat, 4) + h.prev_blockhash + h.merkle_root + le_bytes(
        h.time as nat,
        4,
    ) + le_bytes(h.bits as nat, 4) + le_bytes(h.nonce as nat, 4)
}

/// The consensus encoding of a transaction output.
pub open spec fn txout_encoding(o: TxOutModel) -> Seq<u8> {
    le_bytes(o.value as nat, 8) + compact_size(o.script_pubkey.len()) + o.script_pubkey
}

/// A header model that some executable [`Header`] has.
pub open spec fn header_wf(h: HeaderModel) -> bool {
    h.prev_blockhash.len() == 32 && h.merkle_root.len() == 32
}

/// A transaction model that some executable [`Transaction`] has.
pub open spec fn tx_wf(t: TransactionModel) -> bool {
    forall|i: int| 0 <= i < t.input.len() ==> #[trigger] t.input[i].previous_output.txid.len() == 32
}

/// The bytes that a witness's elements take in its encoding, each with its CompactSize length
/// (the element count in front is not counted).
pub open spec fn witness_content_len(w: Seq<Seq<u8>>) -> nat
    decreases w.len(),
{
    if w.len() == 0 {
        0
    } else {
        witness_content_len(w.drop_last()) + compact_size(w.last().len()).len() + w.last().len()
    }
}

/// Whether each input's witness fits the decoder's limit: at most [`MAX_VEC_SIZE`] bytes of
/// elements with their lengths. It is the decoder's only size limit on a transaction.
pub open spec fn witnesses_within_limit(t: TransactionModel) -> bool {
    forall|i: int|
        0 <= i < t.input.len() ==> witness_content_len(#[trigger] t.input[i].witness)
            <= MAX_VEC_SIZE
}

/// Whether each input's witness can be held by the `bitcoin` crate's `Witness`, which records
/// the offset of every element in 32 bits (and panics on a larger one).
pub open spec fn witnesses_fit(t: TransactionModel) -> bool {
    forall|i: int|
        0 <= i < t.input.len() ==> (#[trigger] t.input[i].witness).len() == 0
            || witness_content_len(t.input[i].witness.drop_last()) <= u32::MAX
}

/// The lowercase hexadecimal digit of `d < 16`.
pub open spec fn hex_digit(d: nat) -> char {
    if d < 10 {
        (48 + d) as char
    } else {
        (87 + d) as char
    }
}

/// Lowercase hexadecimal, two digits per byte, in the order of `bytes`.
pub open spec fn hex_lower(bytes: Seq<u8>) -> Seq<char>
    decreases bytes.len(),
{
    if bytes.len() == 0 {
        Seq::empty()
    } else {
        seq![hex_digit((bytes[0] / 16) as nat), hex_digit((bytes[0] % 16) as nat)] + hex_lower(
            bytes.drop_first(),
        )
    }
}

/// The decimal digits of `n`, without leading zeros.
pub open spec fn decimal(n: nat) -> Seq<char>
    decreases n,
{
    if n < 10 {
        seq![(48 + n) as char]
    } else {
        decimal(n / 10) + seq![(48 + n % 10) as char]
    }
}

/// The text of an outpoint: the txid in hex with its bytes reversed, a colon, the index.
pub open spec fn outpoint_text(op: OutPointModel) -> Seq<char> {
    hex_lower(op.txid.reverse()) + seq![':'] + decimal(op.vout as nat)
}

/// The bytes that a script push of `data` appends: the smallest push opcode, then the data.
pub open spec fn push_data_encoding(data: Seq<u8>) -> Seq<u8> {
    let n = data.len();
    if n < 0x4c {
        seq![n as u8] + data
    } else if n < 0x100 {
        seq![0x4cu8, n as u8] + data
    } else if n < 0x10000 {
        seq![0x4du8] + le_bytes(n, 2) + data
    } else {
        seq![0x4eu8] + le_bytes(n, 4) + data
    }
}

/// The bytes that pushing the integer `n` appends to a script: a small-integer opcode for
/// `-1` and `0..=16`, otherwise a data push of the minimal script-number encoding of `n`.
pub open spec fn push_int_encoding(n: i64) -> Seq<u8> {
    if n == -1 || (1 <= n && n <= 16) {
        seq![(n + 0x50) as u8]
    } else if n == 0 {
        seq![0u8]
    } else {
        push_data_encoding(script_number(n))
    }
}

/// One level of a merkle tree: each pair of nodes hashed together (double SHA-256 of the two
/// 32-byte nodes one after the other), the last node paired with itself where the count is odd.
pub open spec fn merkle_level(h: Seq<Seq<u8>>) -> Seq<Seq<u8>> {
    Seq::new(
        ((h.len() + 1) / 2) as nat,
        |i: int|
            sha256d(
                h[2 * i] + h[if 2 * i + 1 < h.len() {
                    2 * i + 1
                } else {
                    h.len() - 1
                }],
            ),
    )
}

/// The merkle root of a non-empty list of txids: the list reduced level by level to one node.
pub open spec fn merkle_root_of(h: Seq<Seq<u8>>) -> Seq<u8>
    decreases h.len(),
{
    if h.len() <= 1 {
        h[0]
    } else {
        merkle_root_of(merkle_level(h))
    }
}

/// The bytes of a magnitude, least significant first, without high zero bytes.
pub open spec fn magnitude_le(m: nat) -> Seq<u8>
    decreases m,
{
    if m == 0 {
        Seq::empty()
    } else {
        seq![(m % 256) as u8] + magnitude_le(m / 256)
    }
}

/// The minimal script-number encoding of `n`: its magnitude little-endian, with the sign in the
/// top bit of the last byte, or in a byte of its own where the magnitude uses that bit.
pub open spec fn script_number(n: i64) -> Seq<u8> {
    let m: nat = if n < 0 {
        (-n) as nat
    } else {
        n as nat
    };
    let b = magnitude_le(m);
    if b.len() == 0 {
        b
    } else if b.last() >= 0x80 {
        b.push(
            if n < 0 {
                0x80u8
            } else {
                0u8
            },
        )
    } else if n < 0 {
        b.update(b.len() - 1, (b.last() + 0x80) as u8)
    } else {
        b
    }
}

/// The value of a hexadecimal digit of either case.
pub open spec fn hex_value(c: char) -> Option<nat> {
    let v = c as u32;
    if 48 <= v <= 57 {
        Some((v - 48) as nat)
    } else if 97 <= v <= 102 {
        Some((v - 87) as nat)
    } else if 65 <= v <= 70 {
        Some((v - 55) as nat)
    } else {
        None
    }
}

/// Hex decoding: an even number of hexadecimal digits of either case, two per byte, the high
/// digit first.
pub open spec fn hex_decoding(s: Seq<char>) -> Option<Seq<u8>>
    decreases s.len(),
{
    if s.len() == 0 {
        Some(Seq::empty())
    } else if s.len() == 1 {
        None
    } else {
        match (hex_value(s[0]), hex_value(s[1]), hex_decoding(s.subrange(2, s.len() as int))) {
            (Some(h), Some(l), Some(rest)) => Some(seq![(h * 16 + l) as u8] + rest),
            _ => None,
        }
    }
}

/// The value of decimal digits (`Some(0)` for none), `None` where a character is no digit.
pub open spec fn digits_value(s: Seq<char>) -> Option<nat>
    decreases s.len(),
{
    if s.len() == 0 {
        Some(0)
    } else {
        let d = s.last() as u32;
        match digits_value(s.drop_last()) {
            Some(v) => if 48 <= d <= 57 {
                Some(10 * v + (d - 48) as nat)
            } else {
                None
            },
            None => None,
        }
    }
}

/// Whether `c` is the position of the only colon of `s`.
pub open spec fn only_colon_at(s: Seq<char>, c: int) -> bool {
    0 <= c < s.len() && s[c] == ':' && forall|j: int| 0 <= j < s.len() && j != c ==> s[j] != ':'
}

/// What the `bitcoin` parser makes of the text of an outpoint: at most 75 characters with one
/// colon; before it, 64 hexadecimal digits of either case, the txid with its bytes reversed;
/// after it, a decimal index without sign or leading zero that fits in 32 bits.
pub open spec fn outpoint_parse(s: Seq<char>) -> Option<OutPointModel> {
    if s.len() <= 75 && exists|c: int| only_colon_at(s, c) {
        let c = choose|c: int| only_colon_at(s, c);
        let txid = hex_decoding(s.take(c));
        let index = s.skip(c + 1);
        let vout = digits_value(index);
        if c == 64 && txid is Some && index.len() > 0 && !(index.len() > 1 && index[0] == '0')
            && vout is Some && vout->0 <= u32::MAX {
            Some(OutPointModel { txid: txid->0.reverse(), vout: vout->0 as u32 })
        } else {
            None
        }
    } else {
        None
    }
}

/// Whether a script starts with `OP_RETURN`.
pub open spec fn is_op_return(s: Seq<u8>) -> bool {
    s.len() > 0 && s[0] == 0x6a
}

/// Whether a script is a segwit program: a version opcode (`OP_0` or `OP_1`..`OP_16`), then one
/// push of 2 to 40 bytes that fills the rest of the script.
pub open spec fn is_witness_program(s: Seq<u8>) -> bool {
    &&& 4 <= s.len() <= 42
    &&& 2 <= s[1] <= 40
    &&& s.len() == s[1] + 2
    &&& s[0] == 0 || (0x51 <= s[0] && s[0] <= 0x60)
}

/// The smallest output value, in satoshis, that is not dust at Bitcoin Core's default dust
/// relay fee of 3 sat/vB: the fee to spend the output, counted in bytes as Core does.
pub open spec fn minimal_non_dust_sat(s: Seq<u8>) -> nat {
    let script_size = compact_size(s.len()).len() + s.len();
    let size = if is_op_return(s) {
        0
    } else if is_witness_program(s) {
        67 + 8 + script_size
    } else {
        148 + 8 + script_size
    };
    3000 * size / 1000
}

/// The byte strings one after the other.
pub open spec fn concat(parts: Seq<Seq<u8>>) -> Seq<u8>
    decreases parts.len(),
{
    if parts.len() == 0 {
        Seq::empty()
    } else {
        concat(parts.drop_last()) + parts.last()
    }
}

/// The encoding of a transaction input, without its witness.
pub open spec fn txin_encoding(i: TxInModel) -> Seq<u8> {
    i.previous_output.txid + le_bytes(i.previous_output.vout as nat, 4) + compact_size(
        i.script_sig.len(),
    ) + i.script_sig + le_bytes(i.sequence as nat, 4)
}

/// The encoding of a witness: the element count, then each element with its length.
pub open spec fn witness_encoding(w: Seq<Seq<u8>>) -> Seq<u8> {
    compact_size(w.len()) + concat(w.map_values(|e: Seq<u8>| compact_size(e.len()) + e))
}

/// The inputs (without witnesses) and outputs of a transaction, each list with its count.
pub open spec fn tx_body_encoding(t: TransactionModel) -> Seq<u8> {
    compact_size(t.input.len()) + concat(t.input.map_values(|i: TxInModel| txin_encoding(i)))
        + compact_size(t.output.len()) + concat(
        t.output.map_values(|o: TxOutModel| txout_encoding(o)),
    )
}

/// The encoding of a transaction without witnesses: version, inputs, outputs, lock time.
pub open spec fn tx_legacy_encoding(t: TransactionModel) -> Seq<u8> {
    le_bytes((t.version as u32) as nat, 4) + tx_body_encoding(t) + le_bytes(t.lock_time as nat, 4)
}

/// Whether a transaction is encoded in the BIP-144 form: where an input has a witness, or where
/// there is no input.
pub open spec fn uses_witness_form(t: TransactionModel) -> bool {
    t.input.len() == 0 || exists|i: int| 0 <= i < t.input.len() && t.input[i].witness.len() > 0
}

/// The consensus encoding of a transaction: in the BIP-144 form, the marker and flag bytes
/// `0x00 0x01` follow the version and the input witnesses follow the outputs.
pub open spec fn tx_encoding(t: TransactionModel) -> Seq<u8> {
    if uses_witness_form(t) {
        le_bytes((t.version as u32) as nat, 4) + seq![0x00u8, 0x01u8] + tx_body_encoding(t)
            + concat(t.input.map_values(|i: TxInModel| witness_encoding(i.witness))) + le_bytes(
            t.lock_time as nat,
            4,
        )
    } else {
        tx_legacy_encoding(t)
    }
}

/// The txid of a transaction: the double SHA-256 of its encoding without witnesses.
pub open spec fn txid_of(t: TransactionModel) -> Seq<u8> {
    sha256d(tx_legacy_encoding(t))
}

/// The little-endian value of bytes.
pub open spec fn le_value(b: Seq<u8>) -> nat
    decreases b.len(),
{
    if b.len() == 0 {
        0
    } else {
        (b[0] + 256 * le_value(b.drop_first())) as nat
    }
}

/// The target that the compact form `bits` stands for: a 24-bit mantissa (zero where its sign
/// bit is set) times 256 to the power of the exponent byte less 3, computed as `bitcoin` does,
/// with the shift taken modulo 256 bits and the product cut to 256 bits.
pub open spec fn compact_target(bits: u32) -> nat {
    let e: nat = (bits / 0x100_0000) as nat;
    let m: nat = (bits % 0x100_0000) as nat;
    let mant: nat = if e <= 3 {
        m / pow2((8 * (3 - e)) as nat)
    } else {
        m as nat
    };
    let shift: nat = if e <= 3 {
        0
    } else {
        ((8 * (e - 3)) % 256) as nat
    };
    if mant > 0x7f_ffff {
        0
    } else {
        (mant * pow2(shift)) % pow2(256)
    }
}

/// Whether `hash`, read as a little-endian 256-bit number, is at most the target of `bits`.
pub open spec fn target_met(bits: u32, hash: Seq<u8>) -> bool {
    le_value(hash) <= compact_target(bits)
}

// ---------------------------------------------------------------------------------------------
// Results that this crate names rather than states
// ---------------------------------------------------------------------------------------------


/// What the `bitcoin` decoder makes of bytes that should hold one transaction.
pub uninterp spec fn tx_decoding(bytes: Seq<u8>) -> Option<TransactionModel>;


/// Double SHA-256.
pub uninterp spec fn sha256d(data: Seq<u8>) -> Seq<u8>;

/// Single SHA-256.
pub uninterp spec fn sha256(data: Seq<u8>) -> Seq<u8>;






/// The script pubkey that a descriptor (given by its text) derives at a child index, if the
/// text parses as a descriptor of public keys and the index is derivable.
pub uninterp spec fn descriptor_spk(desc: Seq<char>, index: u32) -> Option<Seq<u8>>;

/// The text that an address string parses to and displays as again, if it parses.
pub uninterp spec fn address_normal_form(s: Seq<char>) -> Option<Seq<char>>;

// ---------------------------------------------------------------------------------------------
// Trusted calls
// ---------------------------------------------------------------------------------------------

/// Calls `bitcoin::consensus::serialize` on a block header: the documented 80-byte layout.
#[verifier::external_body]
pub fn serialize_header(h: &Header) -> (r: Vec<u8>)
    ensures
        r@ == header_encoding(h@),
{
    bitcoin::consensus::serialize(&bitcoin::block::Header {
        version: bitcoin::block::Version::from_consensus(h.version),
        prev_blockhash: bitcoin::BlockHash::from_byte_array(h.prev_blockhash.bytes),
        merkle_root: bitcoin::TxMerkleNode::from_byte_array(h.merkle_root.bytes),
        time: h.time,
        bits: bitcoin::CompactTarget::from_consensus(h.bits),
        nonce: h.nonce,
    })
}

/// Calls `bitcoin::consensus::deserialize` for a block header: exactly the 80-byte encodings
/// decode, each to the header it encodes.
#[verifier::external_body]
pub fn deserialize_header(bytes: &[u8]) -> (r: Option<Header>)
    ensures
        r matches Some(h) ==> header_encoding(h@) == bytes@,
        forall|m: HeaderModel|
            header_wf(m) && header_encoding(m) == bytes@ ==> r is Some && r->0@ == m,
{
    let h: bitcoin::block::Header = bitcoin::consensus::deserialize(bytes).ok()?;
    Some(Header {
        version: h.version.to_consensus(),
        prev_blockhash: BlockHash { bytes: h.prev_blockhash.to_byte_array() },
        merkle_root: TxMerkleNode { bytes: h.merkle_root.to_byte_array() },
        time: h.time,
        bits: h.bits.to_consensus(),
        nonce: h.nonce,
    })
}

/// Calls `bitcoin::consensus::serialize` on a transaction; its witnesses must fit the
/// `bitcoin` crate's `Witness`.
#[verifier::external_body]
pub fn serialize_tx(t: &Transaction) -> (r: Vec<u8>)
    requires
        witnesses_fit(t@),
    ensures
        r@ == tx_encoding(t@),
{
    bitcoin::consensus::serialize(&BTx {
        version: TxVersion(t.version), lock_time: LockTime::from_consensus(t.lock_time),
        input: t.input.iter().map(|i| BIn {
            previous_output: BOutPoint { txid: BTxid::from_byte_array(i.previous_output.txid.bytes), vout: i.previous_output.vout },
            script_sig: BScript::from_bytes(i.script_sig.bytes.clone()),
            sequence: Sequence(i.sequence), witness: Witness::from_slice(&i.witness),
        }).collect(),
        output: t.output.iter().map(|o| BOut { value: BAmount::from_sat(o.value), script_pubkey: BScript::from_bytes(o.script_pubkey.bytes.clone()) }).collect(),
    })
}

/// Calls `bitcoin::consensus::deserialize` for a transaction. The decoder accepts only the
/// canonical encoding (minimal lengths, the witness form exactly when a witness is present or
/// there is no input, every byte used), so a decoded transaction encodes back to the bytes, and
/// the encoding of a transaction decodes back to it unless some input's witness exceeds the
/// witness decoder's limit (its only size limit: scripts and input and output lists are read to
/// their full length), where it fails.
#[verifier::external_body]
pub fn deserialize_tx(bytes: &[u8]) -> (r: Option<Transaction>)
    ensures
        r matches Some(t) ==> tx_decoding(bytes@) == Some(t@),
        r is None ==> tx_decoding(bytes@) is None,
        r matches Some(t) ==> tx_encoding(t@) == bytes@ && witnesses_within_limit(t@),
        forall|m: TransactionModel|
            tx_wf(m) && tx_encoding(m) == bytes@ ==> (r is Some <==> witnesses_within_limit(m))
                && (r is Some ==> r->0@ == m),
{
    let t: BTx = bitcoin::consensus::deserialize(bytes).ok()?;
    Some(Transaction {
        version: t.version.0, lock_time: t.lock_time.to_consensus_u32(),
        input: t.input.iter().map(|i| TxIn {
            previous_output: OutPoint { txid: Txid { bytes: i.previous_output.txid.to_byte_array() }, vout: i.previous_output.vout },
            script_sig: ScriptBuf { bytes: i.script_sig.to_bytes() }, sequence: i.sequence.0, witness: i.witness.to_vec(),
        }).collect(),
        output: t.output.iter().map(|o| TxOut { value: o.value.to_sat(), script_pubkey: ScriptBuf { bytes: o.script_pubkey.to_bytes() } }).collect(),
    })
}

/// Calls `Transaction::compute_txid`; the transaction's witnesses must fit the `bitcoin`
/// crate's `Witness`.
#[verifier::external_body]
pub fn compute_txid(t: &Transaction) -> (r: Txid)
    requires
        witnesses_fit(t@),
    ensures
        r@ == txid_of(t@),
{
    Txid { bytes: BTx {
        version: TxVersion(t.version), lock_time: LockTime::from_consensus(t.lock_time),
        input: t.input.iter().map(|i| BIn {
            previous_output: BOutPoint { txid: BTxid::from_byte_array(i.previous_output.txid.bytes), vout: i.previous_output.vout },
            script_sig: BScript::from_bytes(i.script_sig.bytes.clone()),
            sequence: Sequence(i.sequence), witness: Witness::from_slice(&i.witness),
        }).collect(),
        output: t.output.iter().map(|o| BOut { value: BAmount::from_sat(o.value), script_pubkey: BScript::from_bytes(o.script_pubkey.bytes.clone()) }).collect(),
    }.compute_txid().to_byte_array() }
}

/// Calls `Header::block_hash`: the double SHA-256 of the header's consensus encoding.
#[verifier::external_body]
pub fn block_hash(h: &Header) -> (r: BlockHash)
    ensures
        r@ == sha256d(header_encoding(h@)),
{
    let header = bitcoin::block::Header {
        version: bitcoin::block::Version::from_consensus(h.version),
        prev_blockhash: bitcoin::BlockHash::from_byte_array(h.prev_blockhash.bytes),
        merkle_root: bitcoin::TxMerkleNode::from_byte_array(h.merkle_root.bytes),
        time: h.time,
        bits: bitcoin::CompactTarget::from_consensus(h.bits),
        nonce: h.nonce,
    };
    BlockHash { bytes: header.block_hash().to_byte_array() }
}

/// Calls `sha256::Hash::hash`.
#[verifier::external_body]
pub fn sha256_hash(data: &[u8]) -> (r: [u8; 32])
    ensures
        r@ == sha256(data@),
{
    bitcoin::hashes::sha256::Hash::hash(data).to_byte_array()
}

/// Calls `bitcoin::merkle_tree::calculate_root` on a list of txids: `None` exactly for the
/// empty list, and otherwise the root that [`merkle_root_of`] states.
#[verifier::external_body]
pub fn merkle_root(txids: &Vec<Txid>) -> (r: Option<TxMerkleNode>)
    ensures
        r is None <==> txids@.len() == 0,
        r matches Some(m) ==> m@ == merkle_root_of(txids@.map_values(|t: Txid| t@)),
{
    let ids = txids.iter().map(|t| bitcoin::Txid::from_byte_array(t.bytes));
    let root: bitcoin::Txid = bitcoin::merkle_tree::calculate_root(ids)?;
    Some(TxMerkleNode { bytes: root.to_byte_array() })
}

/// Calls `Target::is_met_by` on the target of the compact form `bits`.
#[verifier::external_body]
pub fn target_is_met(bits: u32, hash: &BlockHash) -> (r: bool)
    ensures
        r == target_met(bits, hash@),
{
    let target = bitcoin::Target::from_compact(bitcoin::CompactTarget::from_consensus(bits));
    target.is_met_by(bitcoin::BlockHash::from_byte_array(hash.bytes))
}

/// Calls `script::Builder::push_int` on a builder that holds `script`. `i64::MIN` is left out:
/// its script number takes nine bytes, and the builder encodes into an eight-byte buffer.
#[verifier::external_body]
pub fn script_push_int(script: Vec<u8>, n: i64) -> (r: Vec<u8>)
    requires
        n != i64::MIN,
    ensures
        r@ == script@ + push_int_encoding(n),
{
    bitcoin::script::Builder::from(script).push_int(n).into_bytes()
}

/// Calls `script::Builder::push_slice` on a builder that holds `script`; the data must fit a
/// `PushBytesBuf` (under 2^32 bytes).
#[verifier::external_body]
pub fn script_push_slice(script: Vec<u8>, data: Vec<u8>) -> (r: Vec<u8>)
    requires
        data@.len() < 0x1_0000_0000,
    ensures
        r@ == script@ + push_data_encoding(data@),
{
    let data = bitcoin::script::PushBytesBuf::try_from(data).expect("length is checked");
    bitcoin::script::Builder::from(script).push_slice(data).into_bytes()
}

/// Calls `FromHex` for `Vec<u8>` (the decoder behind `ScriptBuf::from_hex` too): an odd length
/// or a character that is not a hexadecimal digit is refused.
#[verifier::external_body]
pub fn hex_decode(s: &str) -> (r: Option<Vec<u8>>)
    ensures
        r matches Some(v) ==> hex_decoding(s@) == Some(v@),
        r is None ==> hex_decoding(s@) is None,
{
    <Vec<u8> as bitcoin::hex::FromHex>::from_hex(s).ok()
}

/// Calls `Display` for `OutPoint`: `txid:vout`, the txid in hex with its bytes reversed.
#[verifier::external_body]
pub fn outpoint_to_string(op: &OutPoint) -> (r: String)
    ensures
        r@ == outpoint_text(op@),
{
    bitcoin::OutPoint::new(bitcoin::Txid::from_byte_array(op.txid.bytes), op.vout).to_string()
}

/// Calls `FromStr` for `OutPoint`. The displayed text of an outpoint parses back to it: the
/// parser accepts 64 hex digits, one colon and a decimal index without leading zeros.
#[verifier::external_body]
pub fn outpoint_from_str(s: &str) -> (r: Option<OutPoint>)
    ensures
        r matches Some(op) ==> outpoint_parse(s@) == Some(op@),
        r is None ==> outpoint_parse(s@) is None,
        forall|m: OutPointModel| m.txid.len() == 32 && s@ == outpoint_text(m) ==> r is Some
            && r->0@ == m,
{
    let op = bitcoin::OutPoint::from_str(s).ok()?;
    Some(OutPoint { txid: Txid { bytes: op.txid.to_byte_array() }, vout: op.vout })
}

/// Calls `bitcoin::consensus::serialize` on a transaction output.
#[verifier::external_body]
pub fn serialize_txout(o: &TxOut) -> (r: Vec<u8>)
    ensures
        r@ == txout_encoding(o@),
{
    bitcoin::consensus::serialize(&bitcoin::TxOut {
        value: bitcoin::Amount::from_sat(o.value),
        script_pubkey: bitcoin::ScriptBuf::from_bytes(o.script_pubkey.bytes.clone()),
    })
}

/// Calls `bitcoin::consensus::deserialize` for a transaction output: the inverse of its
/// encoding (CompactSize lengths must be minimal, and every byte must be used).
#[verifier::external_body]
pub fn deserialize_txout(bytes: &[u8]) -> (r: Option<TxOut>)
    ensures
        r matches Some(o) ==> txout_encoding(o@) == bytes@,
        forall|m: TxOutModel| txout_encoding(m) == bytes@ ==> r is Some && r->0@ == m,
{
    let o: bitcoin::TxOut = bitcoin::consensus::deserialize(bytes).ok()?;
    Some(TxOut {
        value: o.value.to_sat(),
        script_pubkey: ScriptBuf { bytes: o.script_pubkey.to_bytes() },
    })
}

/// Calls `Script::minimal_non_dust`; scripts are bounded so that its fee product cannot
/// overflow.
#[verifier::external_body]
pub fn minimal_non_dust(spk: &[u8]) -> (r: u64)
    requires
        spk@.len() <= 0xffff_ffff,
    ensures
        r == minimal_non_dust_sat(spk@),
{
    bitcoin::Script::from_bytes(spk).minimal_non_dust().to_sat()
}

/// Parses a descriptor of public keys with `miniscript`, derives it at `index` with
/// `Descriptor::at_derivation_index` and returns the bytes of its `script_pubkey`.
#[verifier::external_body]
pub fn descriptor_script_pubkey(desc: &str, index: u32) -> (r: Option<Vec<u8>>)
    ensures
        r matches Some(v) ==> descriptor_spk(desc@, index) == Some(v@),
        r is None ==> descriptor_spk(desc@, index) is None,
{
    let d = miniscript::Descriptor::<miniscript::DescriptorPublicKey>::from_str(desc).ok()?;
    Some(d.at_derivation_index(index).ok()?.script_pubkey().into_bytes())
}

/// Parses an address with `FromStr` for `Address<NetworkUnchecked>`, takes it as checked, and
/// displays it again. The displayed text parses to the same address (same payload, same
/// network prefix or human-readable part), so it is its own normal form.
#[verifier::external_body]
pub fn address_normalize(s: &str) -> (r: Option<String>)
    ensures
        r matches Some(t) ==> address_normal_form(s@) == Some(t@),
        r matches Some(t) ==> address_normal_form(t@) == Some(t@),
        r is None ==> address_normal_form(s@) is None,
{
    let a = s.parse::<bitcoin::Address<bitcoin::address::NetworkUnchecked>>().ok()?;
    Some(a.assume_checked().to_string())
}

} // verus!
