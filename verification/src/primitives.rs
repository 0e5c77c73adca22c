//! Plain-value models of the Bitcoin data that crosses between crate versions.
//!
//! Each executable type holds exactly the values that the consensus encoding of the
//! corresponding `bitcoin` type carries, and has a view made of mathematical values
//! (`Seq`, integers) over which the contracts of this crate are stated.
use crate::consensus::{address_normal_form, address_normalize};
use vstd::prelude::*;

verus! {

/// The total supply cap, in satoshis (21 million bitcoin).
pub const MAX_MONEY: u64 = 2_100_000_000_000_000u64;

/// A transaction id: the 32 bytes of a double-SHA256 digest, in internal byte order.
#[derive(Clone, Copy, Debug)]
pub struct Txid {
    pub bytes: [u8; 32],
}

/// A block hash: the 32 bytes of a double-SHA256 digest, in internal byte order.
#[derive(Clone, Copy, Debug)]
pub struct BlockHash {
    pub bytes: [u8; 32],
}

/// A node of a transaction merkle tree, in internal byte order.
#[derive(Clone, Copy, Debug)]
pub struct TxMerkleNode {
    pub bytes: [u8; 32],
}

impl View for Txid {
    type V = Seq<u8>;

    open spec fn view(&self) -> Seq<u8> {
        self.bytes@
    }
}

impl View for BlockHash {
    type V = Seq<u8>;

    open spec fn view(&self) -> Seq<u8> {
        self.bytes@
    }
}

impl View for TxMerkleNode {
    type V = Seq<u8>;

    open spec fn view(&self) -> Seq<u8> {
        self.bytes@
    }
}

/// A script, held as its raw bytes.
#[derive(Debug)]
pub struct ScriptBuf {
    pub bytes: Vec<u8>,
}

impl View for ScriptBuf {
    type V = Seq<u8>;

    open spec fn view(&self) -> Seq<u8> {
        self.bytes@
    }
}

impl ScriptBuf {
    /// Wraps raw script bytes.
    pub fn from_bytes(bytes: Vec<u8>) -> (r: ScriptBuf)
        ensures
            r@ == bytes@,
    {
        ScriptBuf { bytes }
    }

    /// Gives back the raw script bytes.
    pub fn into_bytes(self) -> (r: Vec<u8>)
        ensures
            r@ == self@,
    {
        self.bytes
    }

    /// Copies the script.
    pub fn copy(&self) -> (r: ScriptBuf)
        ensures
            r@ == self@,
    {
        ScriptBuf { bytes: self.bytes.clone() }
    }
}

/// Reference to an output of a transaction: its txid and the output index.
#[derive(Clone, Copy, Debug)]
pub struct OutPoint {
    pub txid: Txid,
    pub vout: u32,
}

/// The mathematical value of an [`OutPoint`].
pub struct OutPointModel {
    pub txid: Seq<u8>,
    pub vout: u32,
}

impl View for OutPoint {
    type V = OutPointModel;

    open spec fn view(&self) -> OutPointModel {
        OutPointModel { txid: self.txid@, vout: self.vout }
    }
}

/// A transaction input.
#[derive(Debug)]
pub struct TxIn {
    pub previous_output: OutPoint,
    pub script_sig: ScriptBuf,
    pub sequence: u32,
    pub witness: Vec<Vec<u8>>,
}

/// The mathematical value of a [`TxIn`].
pub struct TxInModel {
    pub previous_output: OutPointModel,
    pub script_sig: Seq<u8>,
    pub sequence: u32,
    pub witness: Seq<Seq<u8>>,
}

impl View for TxIn {
    type V = TxInModel;

    open spec fn view(&self) -> TxInModel {
        TxInModel {
            previous_output: self.previous_output@,
            script_sig: self.script_sig@,
            sequence: self.sequence,
            witness: self.witness.deep_view(),
        }
    }
}

/// A transaction output; `value` is in satoshis.
#[derive(Debug)]
pub struct TxOut {
    pub value: u64,
    pub script_pubkey: ScriptBuf,
}

/// The mathematical value of a [`TxOut`].
pub struct TxOutModel {
    pub value: u64,
    pub script_pubkey: Seq<u8>,
}

impl View for TxOut {
    type V = TxOutModel;

    open spec fn view(&self) -> TxOutModel {
        TxOutModel { value: self.value, script_pubkey: self.script_pubkey@ }
    }
}

/// A transaction.
#[derive(Debug)]
pub struct Transaction {
    pub version: i32,
    pub lock_time: u32,
    pub input: Vec<TxIn>,
    pub output: Vec<TxOut>,
}

/// The mathematical value of a [`Transaction`].
pub struct TransactionModel {
    pub version: i32,
    pub lock_time: u32,
    pub input: Seq<TxInModel>,
    pub output: Seq<TxOutModel>,
}

impl View for Transaction {
    type V = TransactionModel;

    open spec fn view(&self) -> TransactionModel {
        TransactionModel {
            version: self.version,
            lock_time: self.lock_time,
            input: self.input@.map_values(|i: TxIn| i@),
            output: self.output@.map_values(|o: TxOut| o@),
        }
    }
}

/// Whether two byte strings are equal.
pub fn bytes_eq(a: &[u8], b: &[u8]) -> (r: bool)
    ensures
        r == (a@ == b@),
{
    if a.len() != b.len() {
        return false;
    }
    let mut i: usize = 0;
    while i < a.len()
        invariant
            i <= a@.len(),
            a@.len() == b@.len(),
            forall|j: int| 0 <= j < i ==> a@[j] == b@[j],
        decreases a@.len() - i,
    {
        if a[i] != b[i] {
            return false;
        }
        i = i + 1;
    }
    assert(a@ =~= b@);
    true
}

/// Whether two witnesses hold the same elements.
pub fn witness_eq(a: &Vec<Vec<u8>>, b: &Vec<Vec<u8>>) -> (r: bool)
    ensures
        r == (a.deep_view() == b.deep_view()),
{
    if a.len() != b.len() {
        assert(a.deep_view().len() != b.deep_view().len());
        return false;
    }
    let mut i: usize = 0;
    while i < a.len()
        invariant
            i <= a@.len(),
            a@.len() == b@.len(),
            forall|j: int| 0 <= j < i ==> a.deep_view()[j] == b.deep_view()[j],
        decreases a@.len() - i,
    {
        let same = bytes_eq(a[i].as_slice(), b[i].as_slice());
        assert(a.deep_view()[i as int] =~= a@[i as int]@);
        assert(b.deep_view()[i as int] =~= b@[i as int]@);
        if !same {
            return false;
        }
        i = i + 1;
    }
    assert(a.deep_view() =~= b.deep_view());
    true
}

/// Whether two outpoints are the same.
pub fn outpoint_eq(a: &OutPoint, b: &OutPoint) -> (r: bool)
    ensures
        r == (a@ == b@),
{
    if a.vout != b.vout {
        return false;
    }
    let same = bytes_eq(&a.txid.bytes, &b.txid.bytes);
    assert(a@.txid == a.txid.bytes@ && b@.txid == b.txid.bytes@);
    same
}

/// Whether two transaction inputs are the same.
pub fn txin_eq(a: &TxIn, b: &TxIn) -> (r: bool)
    ensures
        r == (a@ == b@),
{
    outpoint_eq(&a.previous_output, &b.previous_output) && bytes_eq(
        a.script_sig.bytes.as_slice(),
        b.script_sig.bytes.as_slice(),
    ) && a.sequence == b.sequence && witness_eq(&a.witness, &b.witness)
}

/// Whether two transaction outputs are the same.
pub fn txout_eq(a: &TxOut, b: &TxOut) -> (r: bool)
    ensures
        r == (a@ == b@),
{
    a.value == b.value && bytes_eq(
        a.script_pubkey.bytes.as_slice(),
        b.script_pubkey.bytes.as_slice(),
    )
}

/// Whether two transactions are the same.
pub fn tx_eq(a: &Transaction, b: &Transaction) -> (r: bool)
    ensures
        r == (a@ == b@),
{
    if a.version != b.version || a.lock_time != b.lock_time || a.input.len() != b.input.len()
        || a.output.len() != b.output.len() {
        assert(a@.input.len() == a.input@.len() && b@.input.len() == b.input@.len());
        assert(a@.output.len() == a.output@.len() && b@.output.len() == b.output@.len());
        return false;
    }
    let mut i: usize = 0;
    while i < a.input.len()
        invariant
            i <= a.input@.len(),
            a.input@.len() == b.input@.len(),
            forall|j: int| 0 <= j < i ==> a.input@[j]@ == b.input@[j]@,
        decreases a.input@.len() - i,
    {
        if !txin_eq(&a.input[i], &b.input[i]) {
            assert(a@.input[i as int] != b@.input[i as int]);
            return false;
        }
        i = i + 1;
    }
    let mut k: usize = 0;
    while k < a.output.len()
        invariant
            k <= a.output@.len(),
            a.output@.len() == b.output@.len(),
            forall|j: int| 0 <= j < k ==> a.output@[j]@ == b.output@[j]@,
        decreases a.output@.len() - k,
    {
        if !txout_eq(&a.output[k], &b.output[k]) {
            assert(a@.output[k as int] != b@.output[k as int]);
            return false;
        }
        k = k + 1;
    }
    assert(a@.input =~= b@.input);
    assert(a@.output =~= b@.output);
    true
}

/// A block header.
#[derive(Clone, Copy, Debug)]
pub struct Header {
    pub version: i32,
    pub prev_blockhash: BlockHash,
    pub merkle_root: TxMerkleNode,
    pub time: u32,
    pub bits: u32,
    pub nonce: u32,
}

/// The mathematical value of a [`Header`].
pub struct HeaderModel {
    pub version: i32,
    pub prev_blockhash: Seq<u8>,
    pub merkle_root: Seq<u8>,
    pub time: u32,
    pub bits: u32,
    pub nonce: u32,
}

impl View for Header {
    type V = HeaderModel;

    open spec fn view(&self) -> HeaderModel {
        HeaderModel {
            version: self.version,
            prev_blockhash: self.prev_blockhash@,
            merkle_root: self.merkle_root@,
            time: self.time,
            bits: self.bits,
            nonce: self.nonce,
        }
    }
}

/// A block: a header and the transactions it commits to.
#[derive(Debug)]
pub struct Block {
    pub header: Header,
    pub txdata: Vec<Transaction>,
}

/// The mathematical value of a [`Block`].
pub struct BlockModel {
    pub header: HeaderModel,
    pub txdata: Seq<TransactionModel>,
}

impl View for Block {
    type V = BlockModel;

    open spec fn view(&self) -> BlockModel {
        BlockModel { header: self.header@, txdata: self.txdata@.map_values(|t: Transaction| t@) }
    }
}

/// An amount of the `bitcoin` version that bdk tracks: never above [`MAX_MONEY`].
#[derive(Clone, Copy, Debug)]
pub struct Amount {
    sat: u64,
}

impl Amount {
    /// The amount's invariant: it does not exceed the supply cap.
    #[verifier::type_invariant]
    pub closed spec fn inv(self) -> bool {
        self.sat <= MAX_MONEY
    }

    /// The amount in satoshis.
    pub closed spec fn spec_sat(self) -> u64 {
        self.sat
    }

    /// Builds an amount from satoshis; `None` above the supply cap.
    pub fn from_sat(sat: u64) -> (r: Option<Amount>)
        ensures
            r is Some <==> sat <= MAX_MONEY,
            r matches Some(a) ==> a.spec_sat() == sat,
    {
        if sat <= MAX_MONEY {
            Some(Amount { sat })
        } else {
            None
        }
    }

    /// The amount in satoshis.
    pub fn to_sat(&self) -> (r: u64)
        ensures
            r == self.spec_sat(),
            r <= MAX_MONEY,
    {
        proof {
            use_type_invariant(self);
        }
        self.sat
    }
}

/// An address, held as the text it displays as: text that parses to an address and displays
/// as itself again.
#[derive(Debug)]
pub struct Address {
    text: String,
}

impl View for Address {
    type V = Seq<char>;

    closed spec fn view(&self) -> Seq<char> {
        self.text@
    }
}

impl Address {
    /// The text is its own normal form.
    #[verifier::type_invariant]
    closed spec fn inv(&self) -> bool {
        address_normal_form(self.text@) == Some(self.text@)
    }

    /// Parses an address from its text; `None` where the text is not an address. The address
    /// keeps the text it displays as (the normal form of `s`).
    pub fn from_text(s: &str) -> (r: Option<Address>)
        ensures
            r is Some <==> address_normal_form(s@) is Some,
            r matches Some(a) ==> address_normal_form(s@) == Some(a@),
    {
        match address_normalize(s) {
            Some(text) => Some(Address { text }),
            None => None,
        }
    }

    /// The address's text, which is its own normal form.
    pub fn as_str(&self) -> (r: &str)
        ensures
            r@ == self@,
            address_normal_form(self@) == Some(self@),
    {
        proof {
            use_type_invariant(self);
        }
        self.text.as_str()
    }
}

} // verus!
