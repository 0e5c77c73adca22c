//! A set of transactions, (de)serialized as a sequence of their consensus encodings.
//!
//! The format's framing (a sequence, each element hex in human-readable formats and raw bytes
//! otherwise) belongs to the serializer; here are the element encodings, in the set's order, and
//! their decoding into a set: each transaction once.
use crate::consensus::{
    deserialize_tx, serialize_tx, tx_decoding, tx_encoding, tx_wf, witnesses_fit,
    witnesses_within_limit,
};
use crate::primitives::{tx_eq, Transaction, TransactionModel};
use crate::witness::lemma_within_limit_fits;
use vstd::prelude::*;

verus! {

/// The mathematical values of a list of transactions.
pub open spec fn models(txs: Seq<Transaction>) -> Seq<TransactionModel> {
    txs.map_values(|t: Transaction| t@)
}

/// The consensus encodings of transactions, in order.
pub open spec fn encodings(txs: Seq<TransactionModel>) -> Seq<Seq<u8>> {
    txs.map_values(|t: TransactionModel| tx_encoding(t))
}

/// The byte strings that a list of byte vectors holds.
pub open spec fn bytes_view(v: Seq<Vec<u8>>) -> Seq<Seq<u8>> {
    v.map_values(|b: Vec<u8>| b@)
}

/// What each byte string decodes to, where it decodes.
pub open spec fn decodings(items: Seq<Seq<u8>>) -> Seq<TransactionModel> {
    items.map_values(|b: Seq<u8>| tx_decoding(b)->0)
}

/// Transactions that the decoder takes back: 32-byte txids, witnesses within its limit.
pub open spec fn within_limits(txs: Seq<TransactionModel>) -> bool {
    forall|i: int| 0 <= i < txs.len() ==> tx_wf(#[trigger] txs[i]) && witnesses_within_limit(txs[i])
}

/// No transaction occurs twice.
pub open spec fn no_repeats(s: Seq<TransactionModel>) -> bool {
    forall|i: int, j: int| 0 <= i < j < s.len() ==> s[i] != s[j]
}

/// The transactions of `s` with repeats left out, each where it first occurs.
pub open spec fn dedup(s: Seq<TransactionModel>) -> Seq<TransactionModel>
    decreases s.len(),
{
    if s.len() == 0 {
        Seq::empty()
    } else {
        let d = dedup(s.drop_last());
        if d.contains(s.last()) {
            d
        } else {
            d.push(s.last())
        }
    }
}

/// `dedup` holds each transaction of `s` once and nothing else, and leaves a list without
/// repeats as it is.
pub proof fn lemma_dedup(s: Seq<TransactionModel>)
    ensures
        no_repeats(dedup(s)),
        forall|x: TransactionModel| dedup(s).contains(x) <==> s.contains(x),
        no_repeats(s) ==> dedup(s) == s,
    decreases s.len(),
{
    if s.len() > 0 {
        let p = s.drop_last();
        let x = s.last();
        lemma_dedup(p);
        assert(s =~= p.push(x));
        assert forall|y: TransactionModel| s.contains(y) <==> p.contains(y) || y == x by {
            if s.contains(y) {
                let k = choose|k: int| 0 <= k < s.len() && s[k] == y;
                if k < p.len() {
                    assert(p[k] == y);
                }
            }
            if p.contains(y) {
                let k = choose|k: int| 0 <= k < p.len() && p[k] == y;
                assert(s[k] == y);
            }
            if y == x {
                assert(s[s.len() - 1] == y);
            }
        }
        if no_repeats(s) {
            assert(no_repeats(p));
            assert(!p.contains(x)) by {
                if p.contains(x) {
                    let k = choose|k: int| 0 <= k < p.len() && p[k] == x;
                    assert(s[k] == s[s.len() - 1]);
                }
            }
        }
        let d = dedup(p);
        if !d.contains(x) {
            assert forall|i: int, j: int| 0 <= i < j < d.push(x).len() implies d.push(x)[i]
                != d.push(x)[j] by {
                if j == d.len() {
                    assert(d.push(x)[i] == d[i]);
                }
            }
            assert forall|y: TransactionModel| d.push(x).contains(y) <==> d.contains(y) || y == x by {
                if d.push(x).contains(y) {
                    let k = choose|k: int| 0 <= k < d.push(x).len() && d.push(x)[k] == y;
                    if k < d.len() {
                        assert(d[k] == y);
                    }
                }
                if d.contains(y) {
                    let k = choose|k: int| 0 <= k < d.len() && d[k] == y;
                    assert(d.push(x)[k] == y);
                }
                if y == x {
                    assert(d.push(x)[d.len() as int] == y);
                }
            }
        }
    }
}

/// The `i`th byte vector is the encoding of the `i`th transaction.
proof fn lemma_encodings_index(items: Seq<Vec<u8>>, txs: Seq<TransactionModel>, i: int)
    requires
        bytes_view(items) == encodings(txs),
        0 <= i < items.len(),
    ensures
        txs.len() == items.len(),
        items[i]@ == tx_encoding(txs[i]),
{
    assert(bytes_view(items).len() == items.len() && encodings(txs).len() == txs.len());
    assert(bytes_view(items)[i] == items[i]@ && encodings(txs)[i] == tx_encoding(txs[i]));
}

/// Every transaction's witnesses fit the `bitcoin` crate's `Witness`.
pub open spec fn all_fit(s: Seq<TransactionModel>) -> bool {
    forall|i: int| 0 <= i < s.len() ==> witnesses_fit(#[trigger] s[i])
}

/// A set of transactions: each once, in the order in which they were first inserted.
#[derive(Debug)]
pub struct TxSet {
    txs: Vec<Transaction>,
}

impl TxSet {
    /// The transactions' mathematical values, in order.
    pub closed spec fn txs_view(&self) -> Seq<TransactionModel> {
        models(self.txs@)
    }

    /// No transaction occurs twice, and each is one the `bitcoin` crate can hold.
    #[verifier::type_invariant]
    closed spec fn inv(&self) -> bool {
        no_repeats(self.txs_view()) && all_fit(self.txs_view())
    }

    /// The empty set.
    pub fn new() -> (r: TxSet)
        ensures
            r.txs_view() == Seq::<TransactionModel>::empty(),
    {
        let r = TxSet { txs: Vec::new() };
        assert(r.txs_view() =~= Seq::<TransactionModel>::empty());
        r
    }

    /// The number of transactions.
    pub fn len(&self) -> (r: usize)
        ensures
            r == self.txs_view().len(),
    {
        self.txs.len()
    }

    /// The transactions, in order: none twice.
    pub fn txs(&self) -> (r: &Vec<Transaction>)
        ensures
            models(r@) == self.txs_view(),
            no_repeats(self.txs_view()),
            all_fit(self.txs_view()),
    {
        proof {
            use_type_invariant(self);
        }
        &self.txs
    }

    /// The transactions, in order, taken out of the set.
    pub fn into_txs(self) -> (r: Vec<Transaction>)
        ensures
            models(r@) == self.txs_view(),
    {
        self.txs
    }

    /// Adds a transaction unless the set holds it already; `true` where it was added.
    pub fn insert(&mut self, tx: Transaction) -> (r: bool)
        requires
            witnesses_fit(tx@),
        ensures
            r == !old(self).txs_view().contains(tx@),
            final(self).txs_view() == if r {
                old(self).txs_view().push(tx@)
            } else {
                old(self).txs_view()
            },
    {
        proof {
            use_type_invariant(&*self);
        }
        if holds(&self.txs, &tx) {
            return false;
        }
        let ghost prev = self.txs_view();
        let ghost pushed = prev.push(tx@);
        proof {
            assert forall|i: int, j: int| 0 <= i < j < pushed.len() implies pushed[i]
                != pushed[j] by {
                if j == prev.len() {
                    assert(pushed[i] == prev[i]);
                }
            }
        }
        let mut txs: Vec<Transaction> = Vec::new();
        core::mem::swap(&mut txs, &mut self.txs);
        txs.push(tx);
        assert(models(txs@) =~= pushed);
        self.txs = txs;
        true
    }
}

/// Serializes the transactions of a set, in the set's order, as their consensus encodings.
pub fn serialize(set: &TxSet) -> (r: Vec<Vec<u8>>)
    ensures
        bytes_view(r@) == encodings(set.txs_view()),
{
    let txs = set.txs();
    let mut out: Vec<Vec<u8>> = Vec::new();
    let mut i: usize = 0;
    while i < txs.len()
        invariant
            i <= txs@.len(),
            out@.len() == i,
            all_fit(models(txs@)),
            forall|j: int| 0 <= j < i ==> (#[trigger] out@[j])@ == tx_encoding(txs@[j]@),
        decreases txs@.len() - i,
    {
        assert(models(txs@)[i as int] == txs@[i as int]@);
        out.push(serialize_tx(&txs[i]));
        i = i + 1;
    }
    assert(bytes_view(out@) =~= encodings(models(txs@)));
    out
}

/// Whether `t` is among `txs`.
fn holds(txs: &Vec<Transaction>, t: &Transaction) -> (r: bool)
    ensures
        r == models(txs@).contains(t@),
{
    let mut j: usize = 0;
    while j < txs.len()
        invariant
            j <= txs@.len(),
            forall|k: int| 0 <= k < j ==> txs@[k]@ != t@,
        decreases txs@.len() - j,
    {
        if tx_eq(&txs[j], t) {
            assert(models(txs@)[j as int] == t@);
            return true;
        }
        j = j + 1;
    }
    assert(!models(txs@).contains(t@)) by {
        if models(txs@).contains(t@) {
            let k = choose|k: int| 0 <= k < models(txs@).len() && models(txs@)[k] == t@;
            assert(txs@[k]@ == t@);
        }
    }
    false
}

/// Deserializes a sequence of consensus-encoded transactions into a set: the decoded
/// transactions, each once, in the order in which they first occur; on failure, the index of the
/// first element that does not decode. The encodings of distinct transactions within the
/// decoder's limits decode back to those transactions.
pub fn deserialize(items: &Vec<Vec<u8>>) -> (r: Result<TxSet, usize>)
    ensures
        r is Ok <==> forall|i: int|
            0 <= i < items@.len() ==> (#[trigger] tx_decoding(items@[i]@)) is Some,
        r matches Ok(set) ==> set.txs_view() == dedup(decodings(bytes_view(items@))),
        r matches Err(k) ==> k < items@.len() && tx_decoding(items@[k as int]@) is None
            && forall|j: int| 0 <= j < k ==> (#[trigger] tx_decoding(items@[j]@)) is Some,
        forall|txs: Seq<TransactionModel>|
            within_limits(txs) && no_repeats(txs) && bytes_view(items@) == encodings(txs) ==> r is Ok
                && r->Ok_0.txs_view() == txs,
{
    let ghost dec = decodings(bytes_view(items@));
    let mut out = TxSet::new();
    let mut i: usize = 0;
    assert(dec.take(0) =~= Seq::<TransactionModel>::empty());
    while i < items.len()
        invariant
            i <= items@.len(),
            dec == decodings(bytes_view(items@)),
            forall|j: int| 0 <= j < i ==> (#[trigger] tx_decoding(items@[j]@)) is Some,
            out.txs_view() == dedup(dec.take(i as int)),
            forall|txs: Seq<TransactionModel>|
                within_limits(txs) && bytes_view(items@) == encodings(txs) ==> dec.take(i as int)
                    == txs.take(i as int),
        decreases items@.len() - i,
    {
        assert(dec[i as int] == tx_decoding(items@[i as int]@)->0);
        match deserialize_tx(items[i].as_slice()) {
            Some(t) => {
                assert(dec.take(i + 1).drop_last() =~= dec.take(i as int));
                assert(dec.take(i + 1).last() == t@);
                proof {
                    lemma_within_limit_fits(t@);
                }
                out.insert(t);
                proof {
                    assert forall|txs: Seq<TransactionModel>|
                        within_limits(txs) && bytes_view(items@) == encodings(
                            txs,
                        ) implies dec.take(i + 1) == txs.take(i + 1) by {
                        lemma_encodings_index(items@, txs, i as int);
                        assert(tx_wf(txs[i as int]) && witnesses_within_limit(txs[i as int]));
                        assert(txs.take(i + 1) =~= txs.take(i as int).push(txs[i as int]));
                    }
                }
            },
            None => {
                proof {
                    assert forall|txs: Seq<TransactionModel>|
                        within_limits(txs) && bytes_view(items@) == encodings(
                            txs,
                        ) implies false by {
                        lemma_encodings_index(items@, txs, i as int);
                        assert(tx_wf(txs[i as int]) && witnesses_within_limit(txs[i as int]));
                    }
                }
                return Err(i);
            },
        }
        i = i + 1;
    }
    proof {
        assert(dec.take(i as int) =~= dec);
        lemma_dedup(dec);
        assert forall|txs: Seq<TransactionModel>|
            within_limits(txs) && no_repeats(txs) && bytes_view(items@) == encodings(
                txs,
            ) implies out.txs_view() == txs by {
            assert(bytes_view(items@).len() == items@.len() && encodings(txs).len() == txs.len());
            assert(txs.take(i as int) =~= txs);
            lemma_dedup(txs);
        }
    }
    Ok(out)
}

} // verus!
