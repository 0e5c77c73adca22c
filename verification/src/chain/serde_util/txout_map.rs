//! A map from outpoints to transaction outputs, (de)serialized with `txid:vout` string keys and
//! consensus-encoded values.
//!
//! The format's framing (a map, values hex in human-readable formats and raw bytes otherwise)
//! belongs to the serializer; here are the entries' keys and values and the map they rebuild.
use crate::consensus::{
    deserialize_txout, outpoint_from_str, outpoint_parse, outpoint_text, outpoint_to_string,
    serialize_txout, txout_encoding,
};
use crate::primitives::{outpoint_eq, OutPoint, OutPointModel, TxOut, TxOutModel};
use vstd::prelude::*;

verus! {

/// One entry's mathematical value.
pub type EntryModel = (OutPointModel, TxOutModel);

/// The map that a list of entries builds when inserted in order (a later value for the same key
/// replaces the earlier one).
pub open spec fn entries_map(s: Seq<EntryModel>) -> Map<OutPointModel, TxOutModel>
    decreases s.len(),
{
    if s.len() == 0 {
        Map::empty()
    } else {
        entries_map(s.drop_last()).insert(s.last().0, s.last().1)
    }
}

/// No key occurs twice.
pub open spec fn keys_distinct(s: Seq<EntryModel>) -> bool {
    forall|i: int, j: int| 0 <= i < j < s.len() ==> s[i].0 != s[j].0
}

/// Keys that executable outpoints can hold: 32-byte txids.
pub open spec fn keys_wf(s: Seq<EntryModel>) -> bool {
    forall|i: int| 0 <= i < s.len() ==> (#[trigger] s[i]).0.txid.len() == 32
}

/// Lexicographic order of byte strings: the first differing byte decides, and a proper prefix
/// comes first (the order of byte arrays and slices).
pub open spec fn bytes_lt(a: Seq<u8>, b: Seq<u8>) -> bool
    decreases a.len(),
{
    if a.len() == 0 || b.len() == 0 {
        a.len() == 0 && b.len() > 0
    } else if a[0] != b[0] {
        a[0] < b[0]
    } else {
        bytes_lt(a.drop_first(), b.drop_first())
    }
}

/// The order of outpoints: by txid bytes (in internal byte order), then by output index.
pub open spec fn outpoint_lt(a: OutPointModel, b: OutPointModel) -> bool {
    bytes_lt(a.txid, b.txid) || (a.txid == b.txid && a.vout < b.vout)
}

/// Keys in strictly increasing order.
pub open spec fn keys_sorted(s: Seq<EntryModel>) -> bool {
    forall|i: int, j: int| 0 <= i < j < s.len() ==> outpoint_lt(s[i].0, s[j].0)
}

/// `bytes_lt` is a strict total order.
pub proof fn lemma_bytes_lt_order(a: Seq<u8>, b: Seq<u8>, c: Seq<u8>)
    ensures
        !bytes_lt(a, a),
        bytes_lt(a, b) && bytes_lt(b, c) ==> bytes_lt(a, c),
        a != b ==> bytes_lt(a, b) || bytes_lt(b, a),
    decreases a.len(),
{
    if a.len() > 0 {
        lemma_bytes_lt_order(a.drop_first(), b.drop_first(), c.drop_first());
        if b.len() > 0 && a[0] == b[0] && a.drop_first() == b.drop_first() {
            assert(a =~= seq![a[0]] + a.drop_first());
            assert(b =~= seq![b[0]] + b.drop_first());
        }
    } else if b.len() == 0 {
        assert(a =~= b);
    }
}

/// `outpoint_lt` is a strict total order.
pub proof fn lemma_outpoint_lt_order(a: OutPointModel, b: OutPointModel, c: OutPointModel)
    ensures
        !outpoint_lt(a, a),
        outpoint_lt(a, b) && outpoint_lt(b, c) ==> outpoint_lt(a, c),
        a != b ==> outpoint_lt(a, b) || outpoint_lt(b, a),
{
    lemma_bytes_lt_order(a.txid, b.txid, c.txid);
    lemma_bytes_lt_order(a.txid, a.txid, a.txid);
    lemma_bytes_lt_order(b.txid, a.txid, a.txid);
}

/// For byte strings of one length, `bytes_lt` is the first differing byte deciding: `a` comes
/// before `b` exactly where they agree up to some position, at which `a`'s byte is smaller.
pub proof fn law_bytes_lt_first_difference(a: Seq<u8>, b: Seq<u8>)
    requires
        a.len() == b.len(),
    ensures
        bytes_lt(a, b) <==> exists|k: int|
            0 <= k < a.len() && #[trigger] a.take(k) == b.take(k) && a[k] < b[k],
    decreases a.len(),
{
    if a.len() > 0 {
        let a1 = a.drop_first();
        let b1 = b.drop_first();
        if a[0] != b[0] {
            assert(a.take(0) =~= b.take(0));
            if exists|k: int| 0 <= k < a.len() && #[trigger] a.take(k) == b.take(k) && a[k] < b[k] {
                let k = choose|k: int|
                    0 <= k < a.len() && #[trigger] a.take(k) == b.take(k) && a[k] < b[k];
                if k > 0 {
                    assert(a.take(k)[0] == b.take(k)[0]);
                }
            }
        } else {
            law_bytes_lt_first_difference(a1, b1);
            if exists|k: int|
                0 <= k < a1.len() && #[trigger] a1.take(k) == b1.take(k) && a1[k] < b1[k] {
                let k = choose|k: int|
                    0 <= k < a1.len() && #[trigger] a1.take(k) == b1.take(k) && a1[k] < b1[k];
                assert(a.take(k + 1) =~= seq![a[0]] + a1.take(k));
                assert(b.take(k + 1) =~= seq![b[0]] + b1.take(k));
                assert(a.take(k + 1) == b.take(k + 1) && a[k + 1] < b[k + 1]);
            }
            if exists|k: int| 0 <= k < a.len() && #[trigger] a.take(k) == b.take(k) && a[k] < b[k] {
                let k = choose|k: int|
                    0 <= k < a.len() && #[trigger] a.take(k) == b.take(k) && a[k] < b[k];
                assert(k > 0);
                assert(a1.take(k - 1) =~= a.take(k).drop_first());
                assert(b1.take(k - 1) =~= b.take(k).drop_first());
                assert(a1.take(k - 1) == b1.take(k - 1) && a1[k - 1] < b1[k - 1]);
            }
        }
    }
}

/// The order of outpoints with 32-byte txids: by the first txid byte in which they differ (in
/// internal byte order), and by output index where the txids are the same.
pub proof fn law_outpoint_order(a: OutPointModel, b: OutPointModel)
    requires
        a.txid.len() == 32,
        b.txid.len() == 32,
    ensures
        outpoint_lt(a, b) <==> (exists|k: int|
            0 <= k < 32 && #[trigger] a.txid.take(k) == b.txid.take(k) && a.txid[k] < b.txid[k])
            || (a.txid == b.txid && a.vout < b.vout),
{
    law_bytes_lt_first_difference(a.txid, b.txid);
}

/// Sorted keys are distinct.
pub proof fn lemma_sorted_distinct(s: Seq<EntryModel>)
    requires
        keys_sorted(s),
    ensures
        keys_distinct(s),
{
    assert forall|i: int, j: int| 0 <= i < j < s.len() implies s[i].0 != s[j].0 by {
        lemma_outpoint_lt_order(s[i].0, s[i].0, s[i].0);
    }
}

/// When the first `k` bytes agree and byte `k` differs, byte `k` decides.
proof fn lemma_bytes_lt_at(a: Seq<u8>, b: Seq<u8>, k: int)
    requires
        0 <= k < a.len(),
        a.len() == b.len(),
        forall|j: int| 0 <= j < k ==> a[j] == b[j],
        a[k] != b[k],
    ensures
        bytes_lt(a, b) == (a[k] < b[k]),
    decreases k,
{
    if k > 0 {
        lemma_bytes_lt_at(a.drop_first(), b.drop_first(), k - 1);
    }
}

/// Whether outpoint `a` comes before `b`.
pub fn outpoint_less(a: &OutPoint, b: &OutPoint) -> (r: bool)
    ensures
        r == outpoint_lt(a@, b@),
{
    let mut i: usize = 0;
    while i < 32
        invariant
            i <= 32,
            forall|j: int| 0 <= j < i ==> a.txid.bytes@[j] == b.txid.bytes@[j],
        decreases 32 - i,
    {
        if a.txid.bytes[i] != b.txid.bytes[i] {
            proof {
                lemma_bytes_lt_at(a@.txid, b@.txid, i as int);
            }
            return a.txid.bytes[i] < b.txid.bytes[i];
        }
        i = i + 1;
    }
    proof {
        assert(a@.txid =~= b@.txid);
        lemma_bytes_lt_order(a@.txid, a@.txid, a@.txid);
    }
    a.vout < b.vout
}

/// A map from outpoints to transaction outputs: its entries, each key once, in key order (the
/// order in which a `BTreeMap<OutPoint, TxOut>` holds them).
#[derive(Debug)]
pub struct TxOutMap {
    entries: Vec<(OutPoint, TxOut)>,
}

impl TxOutMap {
    /// The entries' mathematical values, in order.
    pub closed spec fn entries_view(&self) -> Seq<EntryModel> {
        self.entries@.map_values(|e: (OutPoint, TxOut)| (e.0@, e.1@))
    }

    /// The keys are in increasing order.
    #[verifier::type_invariant]
    closed spec fn inv(&self) -> bool {
        keys_sorted(self.entries_view())
    }

    /// Executable keys hold 32-byte txids.
    proof fn lemma_keys_wf(&self)
        ensures
            keys_wf(self.entries_view()),
    {
        assert forall|i: int| 0 <= i < self.entries_view().len() implies (
        #[trigger] self.entries_view()[i]).0.txid.len() == 32 by {
            assert(self.entries_view()[i].0 == self.entries@[i].0@);
        }
    }

    /// The empty map.
    pub fn new() -> (r: TxOutMap)
        ensures
            r.entries_view() == Seq::<EntryModel>::empty(),
            r@ == Map::<OutPointModel, TxOutModel>::empty(),
    {
        let r = TxOutMap { entries: Vec::new() };
        assert(r.entries_view() =~= Seq::<EntryModel>::empty());
        r
    }

    /// The number of entries.
    pub fn len(&self) -> (r: usize)
        ensures
            r == self.entries_view().len(),
            r == self@.len(),
    {
        proof {
            use_type_invariant(self);
            lemma_sorted_distinct(self.entries_view());
            lemma_entries_map_len(self.entries_view());
        }
        self.entries.len()
    }

    /// The entries, in increasing key order.
    pub fn entries(&self) -> (r: &Vec<(OutPoint, TxOut)>)
        ensures
            r@.map_values(|e: (OutPoint, TxOut)| (e.0@, e.1@)) == self.entries_view(),
            keys_sorted(self.entries_view()),
            keys_distinct(self.entries_view()),
            keys_wf(self.entries_view()),
    {
        proof {
            use_type_invariant(self);
            lemma_sorted_distinct(self.entries_view());
            self.lemma_keys_wf();
        }
        &self.entries
    }

    /// The index of the first entry whose key is not below `key` (the number of entries where
    /// there is none).
    fn position(&self, key: &OutPoint) -> (p: usize)
        ensures
            p <= self.entries_view().len(),
            forall|q: int| 0 <= q < p ==> outpoint_lt(#[trigger] self.entries_view()[q].0, key@),
            p < self.entries_view().len() ==> !outpoint_lt(self.entries_view()[p as int].0, key@),
    {
        let mut i: usize = 0;
        while i < self.entries.len()
            invariant
                i <= self.entries@.len(),
                forall|q: int| 0 <= q < i ==> outpoint_lt(#[trigger] self.entries_view()[q].0, key@),
            decreases self.entries@.len() - i,
        {
            assert(self.entries_view()[i as int].0 == self.entries@[i as int].0@);
            if !outpoint_less(&self.entries[i].0, key) {
                return i;
            }
            i = i + 1;
        }
        i
    }

    /// Inserts `value` at `key`: it replaces the value of the entry with that key, or is
    /// inserted as a new entry where its key belongs in the order. A key above every key of the
    /// map is appended.
    pub fn insert(&mut self, key: OutPoint, value: TxOut)
        ensures
            final(self)@ == old(self)@.insert(key@, value@),
            keys_sorted(final(self).entries_view()),
            (forall|q: int|
                0 <= q < old(self).entries_view().len() ==> outpoint_lt(
                    #[trigger] old(self).entries_view()[q].0,
                    key@,
                )) ==> final(self).entries_view() == old(self).entries_view().push((key@, value@)),
    {
        proof {
            use_type_invariant(&*self);
            lemma_sorted_distinct(self.entries_view());
        }
        let ghost s = self.entries_view();
        let p = self.position(&key);
        if p < self.entries.len() && outpoint_eq(&self.entries[p].0, &key) {
            proof {
                assert(s[p as int].0 == self.entries@[p as int].0@);
                lemma_entries_map_update(s, p as int, key@, value@);
                assert(!outpoint_lt(s[s.len() - 1].0, key@)) by {
                    if p < s.len() - 1 {
                        lemma_outpoint_lt_order(s[p as int].0, s[s.len() - 1].0, key@);
                    }
                }
            }
            self.set_value(p, key, value);
        } else {
            proof {
                if p < s.len() {
                    assert(s[p as int].0 == self.entries@[p as int].0@);
                    lemma_outpoint_lt_order(s[p as int].0, key@, key@);
                }
                assert forall|q: int| 0 <= q < s.len() implies s[q].0 != key@ by {
                    lemma_outpoint_lt_order(s[q].0, s[q].0, s[q].0);
                    if q > p {
                        lemma_outpoint_lt_order(key@, s[p as int].0, s[q].0);
                    }
                }
                lemma_entries_map_insert_at(s, p as int, key@, value@);
            }
            self.insert_at(p, key, value);
            assert(p == s.len() ==> s.insert(p as int, (key@, value@)) =~= s.push((key@, value@)));
        }
        proof {
            use_type_invariant(&*self);
        }
    }

    /// Replaces the entry at `i`, whose key is `key`.
    fn set_value(&mut self, i: usize, key: OutPoint, value: TxOut)
        requires
            i < old(self).entries_view().len(),
            old(self).entries_view()[i as int].0 == key@,
        ensures
            final(self).entries_view() == old(self).entries_view().update(
                i as int,
                (key@, value@),
            ),
    {
        proof {
            use_type_invariant(&*self);
        }
        let ghost upd = self.entries_view().update(i as int, (key@, value@));
        let mut entries: Vec<(OutPoint, TxOut)> = Vec::new();
        core::mem::swap(&mut entries, &mut self.entries);
        entries.set(i, (key, value));
        assert(entries@.map_values(|e: (OutPoint, TxOut)| (e.0@, e.1@)) =~= upd);
        self.entries = entries;
    }

    /// Inserts an entry at `p`, where its key lies strictly between its neighbours' keys.
    fn insert_at(&mut self, p: usize, key: OutPoint, value: TxOut)
        requires
            p <= old(self).entries_view().len(),
            forall|q: int| 0 <= q < p ==> outpoint_lt(#[trigger] old(self).entries_view()[q].0, key@),
            p < old(self).entries_view().len() ==> outpoint_lt(
                key@,
                old(self).entries_view()[p as int].0,
            ),
        ensures
            final(self).entries_view() == old(self).entries_view().insert(p as int, (key@, value@)),
    {
        proof {
            use_type_invariant(&*self);
        }
        let ghost s = self.entries_view();
        let ghost t = s.insert(p as int, (key@, value@));
        proof {
            assert forall|i: int, j: int| 0 <= i < j < t.len() implies outpoint_lt(t[i].0, t[j].0) by {
                if j < p {
                    assert(t[i] == s[i] && t[j] == s[j]);
                } else if j == p {
                    assert(t[i] == s[i]);
                } else if i < p {
                    assert(t[i] == s[i] && t[j] == s[j - 1]);
                    lemma_outpoint_lt_order(s[i].0, key@, s[p as int].0);
                    if j - 1 > p {
                        lemma_outpoint_lt_order(s[i].0, s[p as int].0, s[j - 1].0);
                    }
                } else if i == p {
                    assert(t[j] == s[j - 1]);
                    if j - 1 > p {
                        lemma_outpoint_lt_order(key@, s[p as int].0, s[j - 1].0);
                    }
                } else {
                    assert(t[i] == s[i - 1] && t[j] == s[j - 1]);
                }
            }
        }
        let mut entries: Vec<(OutPoint, TxOut)> = Vec::new();
        core::mem::swap(&mut entries, &mut self.entries);
        entries.insert(p, (key, value));
        assert(entries@.map_values(|e: (OutPoint, TxOut)| (e.0@, e.1@)) =~= t);
        self.entries = entries;
    }
}

impl View for TxOutMap {
    type V = Map<OutPointModel, TxOutModel>;

    closed spec fn view(&self) -> Map<OutPointModel, TxOutModel> {
        entries_map(self.entries_view())
    }
}

/// Inserting an entry with a fresh key anywhere in the list inserts it in the map.
pub proof fn lemma_entries_map_insert_at(
    s: Seq<EntryModel>,
    p: int,
    k: OutPointModel,
    v: TxOutModel,
)
    requires
        0 <= p <= s.len(),
        forall|q: int| 0 <= q < s.len() ==> s[q].0 != k,
    ensures
        entries_map(s.insert(p, (k, v))) == entries_map(s).insert(k, v),
    decreases s.len(),
{
    let t = s.insert(p, (k, v));
    if p == s.len() {
        assert(t.drop_last() =~= s);
    } else {
        assert(t.drop_last() =~= s.drop_last().insert(p, (k, v)));
        assert(t.last() == s.last());
        lemma_entries_map_insert_at(s.drop_last(), p, k, v);
        assert(entries_map(t) =~= entries_map(s).insert(k, v));
    }
}

/// A list of entries with distinct keys builds a map with as many keys.
pub proof fn lemma_entries_map_len(s: Seq<EntryModel>)
    requires
        keys_distinct(s),
    ensures
        entries_map(s).len() == s.len(),
        entries_map(s).dom().finite(),
        forall|k: OutPointModel|
            entries_map(s).dom().contains(k) <==> exists|q: int| 0 <= q < s.len() && s[q].0 == k,
    decreases s.len(),
{
    if s.len() > 0 {
        let p = s.drop_last();
        lemma_entries_map_len(p);
        assert(!entries_map(p).dom().contains(s.last().0)) by {
            if entries_map(p).dom().contains(s.last().0) {
                let q = choose|q: int| 0 <= q < p.len() && p[q].0 == s.last().0;
                assert(s[q].0 == s[s.len() - 1].0);
            }
        }
        assert forall|k: OutPointModel|
            entries_map(s).dom().contains(k) <==> exists|q: int| 0 <= q < s.len() && s[q].0 == k by {
            if entries_map(p).dom().contains(k) {
                let q = choose|q: int| 0 <= q < p.len() && p[q].0 == k;
                assert(s[q].0 == k);
            }
            if k == s.last().0 {
                assert(s[s.len() - 1].0 == k);
            }
            if exists|q: int| 0 <= q < s.len() && s[q].0 == k {
                let q = choose|q: int| 0 <= q < s.len() && s[q].0 == k;
                if q < s.len() - 1 {
                    assert(p[q].0 == k);
                }
            }
        }
    }
}

/// The map built from entries holds exactly their keys, each with the value of the last entry
/// that has it.
pub proof fn law_entries_map_last_wins(s: Seq<EntryModel>, k: OutPointModel)
    ensures
        entries_map(s).dom().contains(k) <==> exists|i: int| 0 <= i < s.len() && s[i].0 == k,
        forall|i: int|
            0 <= i < s.len() && s[i].0 == k && (forall|j: int| i < j < s.len() ==> s[j].0 != k)
                ==> entries_map(s)[k] == #[trigger] s[i].1,
    decreases s.len(),
{
    if s.len() > 0 {
        let p = s.drop_last();
        law_entries_map_last_wins(p, k);
        if exists|i: int| 0 <= i < p.len() && p[i].0 == k {
            let i = choose|i: int| 0 <= i < p.len() && p[i].0 == k;
            assert(s[i].0 == k);
        }
        if exists|i: int| 0 <= i < s.len() && s[i].0 == k {
            let i = choose|i: int| 0 <= i < s.len() && s[i].0 == k;
            if i < s.len() - 1 {
                assert(p[i].0 == k);
            }
        }
        assert forall|i: int|
            0 <= i < s.len() && s[i].0 == k && (forall|j: int| i < j < s.len() ==> s[j].0 != k)
                implies entries_map(s)[k] == #[trigger] s[i].1 by {
            if i < s.len() - 1 {
                assert(s.last().0 != k);
                assert(p[i] == s[i]);
                assert forall|j: int| i < j < p.len() implies p[j].0 != k by {
                    assert(p[j] == s[j]);
                }
            }
        }
    }
}

/// Replacing the value of an entry whose key is `k` replaces it in the map.
pub proof fn lemma_entries_map_update(s: Seq<EntryModel>, i: int, k: OutPointModel, v: TxOutModel)
    requires
        keys_distinct(s),
        0 <= i < s.len(),
        s[i].0 == k,
    ensures
        entries_map(s.update(i, (k, v))) == entries_map(s).insert(k, v),
    decreases s.len(),
{
    let u = s.update(i, (k, v));
    if i == s.len() - 1 {
        assert(u.drop_last() =~= s.drop_last());
        assert(entries_map(u) =~= entries_map(s).insert(k, v));
    } else {
        assert(u.drop_last() =~= s.drop_last().update(i, (k, v)));
        lemma_entries_map_update(s.drop_last(), i, k, v);
        assert(s.last().0 != k);
        assert(entries_map(u) =~= entries_map(s).insert(k, v));
    }
}

/// The key and value texts of the serialized entries.
pub open spec fn serialized_view(es: Seq<(String, Vec<u8>)>) -> Seq<(Seq<char>, Seq<u8>)> {
    es.map_values(|e: (String, Vec<u8>)| (e.0@, e.1@))
}

/// What serializing the given entries produces: each key as `txid:vout` text, each value as its
/// consensus encoding, in order.
pub open spec fn serialized_form(s: Seq<EntryModel>) -> Seq<(Seq<char>, Seq<u8>)> {
    s.map_values(|e: EntryModel| (outpoint_text(e.0), txout_encoding(e.1)))
}

/// Why entries do not deserialize into a map.
#[derive(Debug, Clone, Copy, PartialEq, Eq, Structural)]
pub enum TxOutMapError {
    /// The key of the entry at this index is not the text of an outpoint.
    InvalidKey { index: usize },
    /// The value of the entry at this index is not the encoding of a transaction output.
    InvalidValue { index: usize },
}

/// Whether bytes are the encoding of some transaction output.
pub open spec fn is_txout_encoding(b: Seq<u8>) -> bool {
    exists|m: TxOutModel| txout_encoding(m) == b
}

/// The transaction output that bytes encode.
pub open spec fn txout_decoding(b: Seq<u8>) -> TxOutModel {
    choose|m: TxOutModel| txout_encoding(m) == b
}

/// An entry whose key parses and whose value decodes.
pub open spec fn entry_ok(e: (Seq<char>, Seq<u8>)) -> bool {
    outpoint_parse(e.0) is Some && is_txout_encoding(e.1)
}

/// The entry that a serialized entry stands for.
pub open spec fn entry_decoding(e: (Seq<char>, Seq<u8>)) -> EntryModel {
    (outpoint_parse(e.0)->0, txout_decoding(e.1))
}

/// The `i`th serialized entry is the text of the `i`th key and the encoding of its value.
proof fn lemma_serialized_index(s: Seq<EntryModel>, sv: Seq<(Seq<char>, Seq<u8>)>, i: int)
    requires
        sv == serialized_form(s),
        0 <= i < sv.len(),
    ensures
        s.len() == sv.len(),
        sv[i] == (outpoint_text(s[i].0), txout_encoding(s[i].1)),
{
}

/// Serializes a map's entries, in the map's (key) order: keys as `txid:vout` text, values as
/// their consensus encoding. The entries serialized are sorted by key, so each key once.
pub fn serialize(map: &TxOutMap) -> (r: Vec<(String, Vec<u8>)>)
    ensures
        serialized_view(r@) == serialized_form(map.entries_view()),
        keys_sorted(map.entries_view()),
        keys_wf(map.entries_view()),
{
    let entries = map.entries();
    let mut out: Vec<(String, Vec<u8>)> = Vec::new();
    let mut i: usize = 0;
    while i < entries.len()
        invariant
            i <= entries@.len(),
            out@.len() == i,
            forall|j: int|
                0 <= j < i ==> (#[trigger] out@[j]).0@ == outpoint_text(entries@[j].0@)
                    && out@[j].1@ == txout_encoding(entries@[j].1@),
        decreases entries@.len() - i,
    {
        let key = outpoint_to_string(&entries[i].0);
        let value = serialize_txout(&entries[i].1);
        out.push((key, value));
        i = i + 1;
    }
    assert(serialized_view(out@) =~= serialized_form(map.entries_view())) by {
        assert(map.entries_view() == entries@.map_values(|e: (OutPoint, TxOut)| (e.0@, e.1@)));
    }
    out
}

/// Deserializes entries into a map, inserting them in order (a later value for the same key
/// replaces the earlier one). It fails at the first entry whose key does not parse as an
/// outpoint, or else whose value does not decode as a transaction output. The serialized form
/// of a map (its entries in key order) deserializes to that map, entry for entry.
pub fn deserialize(entries: &Vec<(String, Vec<u8>)>) -> (r: Result<TxOutMap, TxOutMapError>)
    ensures
        r is Ok <==> forall|i: int|
            0 <= i < entries@.len() ==> entry_ok(#[trigger] serialized_view(entries@)[i]),
        r matches Ok(m) ==> m@ == entries_map(
            serialized_view(entries@).map_values(|e: (Seq<char>, Seq<u8>)| entry_decoding(e)),
        ),
        r matches Err(TxOutMapError::InvalidKey { index }) ==> index < entries@.len()
            && outpoint_parse(entries@[index as int].0@) is None && forall|j: int|
            0 <= j < index ==> entry_ok(#[trigger] serialized_view(entries@)[j]),
        r matches Err(TxOutMapError::InvalidValue { index }) ==> index < entries@.len()
            && outpoint_parse(entries@[index as int].0@) is Some && !is_txout_encoding(
            entries@[index as int].1@,
        ) && forall|j: int| 0 <= j < index ==> entry_ok(#[trigger] serialized_view(entries@)[j]),
        forall|s: Seq<EntryModel>|
            keys_wf(s) && keys_sorted(s) && serialized_view(entries@) == serialized_form(s)
                ==> r is Ok && r->Ok_0.entries_view() == s,
{
    let ghost sv = serialized_view(entries@);
    let ghost decoded = sv.map_values(|e: (Seq<char>, Seq<u8>)| entry_decoding(e));
    let mut map = TxOutMap::new();
    let mut i: usize = 0;
    proof {
        assert(decoded.take(0) =~= Seq::<EntryModel>::empty());
    }
    while i < entries.len()
        invariant
            i <= entries@.len(),
            sv == serialized_view(entries@),
            decoded == sv.map_values(|e: (Seq<char>, Seq<u8>)| entry_decoding(e)),
            forall|j: int| 0 <= j < i ==> entry_ok(#[trigger] sv[j]),
            map@ == entries_map(decoded.take(i as int)),
            forall|s: Seq<EntryModel>|
                keys_wf(s) && keys_sorted(s) && sv == serialized_form(s) ==> map.entries_view()
                    == s.take(i as int),
        decreases entries@.len() - i,
    {
        assert(sv[i as int] == (entries@[i as int].0@, entries@[i as int].1@));
        let key = match outpoint_from_str(entries[i].0.as_str()) {
            Some(k) => k,
            None => {
                proof {
                    assert forall|s: Seq<EntryModel>|
                        keys_wf(s) && keys_sorted(s) && sv == serialized_form(s) implies false by {
                        lemma_serialized_index(s, sv, i as int);
                        assert(s[i as int].0.txid.len() == 32);
                    }
                }
                return Err(TxOutMapError::InvalidKey { index: i });
            },
        };
        let value = match deserialize_txout(entries[i].1.as_slice()) {
            Some(v) => v,
            None => {
                proof {
                    assert forall|s: Seq<EntryModel>|
                        keys_wf(s) && keys_sorted(s) && sv == serialized_form(s) implies false by {
                        lemma_serialized_index(s, sv, i as int);
                    }
                    if is_txout_encoding(entries@[i as int].1@) {
                        let m = choose|m: TxOutModel| txout_encoding(m) == entries@[i as int].1@;
                        assert(txout_encoding(m) == entries@[i as int].1@);
                    }
                }
                return Err(TxOutMapError::InvalidValue { index: i });
            },
        };
        proof {
            assert(is_txout_encoding(entries@[i as int].1@));
            let m = txout_decoding(entries@[i as int].1@);
            assert(txout_encoding(m) == entries@[i as int].1@);
            assert(value@ == m);
            assert(entry_ok(sv[i as int]));
            assert(decoded[i as int] == (key@, value@));
            assert(decoded.take(i + 1).drop_last() =~= decoded.take(i as int));
        }
        let ghost prev = map.entries_view();
        map.insert(key, value);
        proof {
            assert forall|s: Seq<EntryModel>|
                keys_wf(s) && keys_sorted(s) && sv == serialized_form(s) implies map.entries_view()
                == s.take(i + 1) by {
                lemma_serialized_index(s, sv, i as int);
                assert(s[i as int].0.txid.len() == 32);
                assert(key@ == s[i as int].0 && value@ == s[i as int].1);
                assert(prev == s.take(i as int));
                assert forall|q: int| 0 <= q < prev.len() implies outpoint_lt(
                    #[trigger] prev[q].0,
                    key@,
                ) by {
                    assert(prev[q] == s[q]);
                }
                assert(s.take(i + 1) =~= s.take(i as int).push(s[i as int]));
            }
        }
        i = i + 1;
    }
    proof {
        assert(decoded.take(i as int) =~= decoded);
        assert forall|s: Seq<EntryModel>|
            keys_wf(s) && keys_sorted(s) && sv == serialized_form(s) implies map.entries_view()
            == s by {
            assert(s.len() == sv.len());
            assert(s.take(i as int) =~= s);
        }
    }
    Ok(map)
}

} // verus!
