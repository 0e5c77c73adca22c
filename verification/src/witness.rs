//! Executable checks of the witness size limits of the `bitcoin` crate.
use crate::consensus::{
    compact_size, lemma_le_bytes_len, witness_content_len, witnesses_fit,
    witnesses_within_limit, MAX_VEC_SIZE,
};
use crate::primitives::{Transaction, TransactionModel};
use vstd::prelude::*;

verus! {

/// The length of the CompactSize encoding of `n`.
fn compact_size_len(n: usize) -> (r: u64)
    ensures
        r == compact_size(n as nat).len(),
        r <= 9,
{
    proof {
        lemma_le_bytes_len(n as nat, 2);
        lemma_le_bytes_len(n as nat, 4);
        lemma_le_bytes_len(n as nat, 8);
    }
    if n < 0xfd {
        1
    } else if n <= 0xffff {
        3
    } else if n as u64 <= 0xffff_ffffu64 {
        5
    } else {
        9
    }
}

/// Whether the first `n` elements of a witness take at most `bound` bytes with their lengths.
pub fn witness_len_at_most(w: &Vec<Vec<u8>>, n: usize, bound: u32) -> (r: bool)
    requires
        n <= w@.len(),
    ensures
        r == (witness_content_len(w.deep_view().take(n as int)) <= bound),
{
    let ghost d = w.deep_view();
    let mut total: u64 = 0;
    let mut i: usize = 0;
    assert(d.take(0) =~= Seq::<Seq<u8>>::empty());
    while i < n
        invariant
            n <= w@.len(),
            d == w.deep_view(),
            i <= n,
            total == witness_content_len(d.take(i as int)),
            total <= bound,
        decreases n - i,
    {
        let len = w[i].len();
        assert(d[i as int] =~= w@[i as int]@);
        assert(d.take(i + 1).drop_last() =~= d.take(i as int));
        if len as u64 > bound as u64 {
            proof {
                assert(witness_content_len(d.take(i + 1)) > bound);
                lemma_content_len_grows(d, i as int + 1, n as int);
            }
            return false;
        }
        let next = total + compact_size_len(len) + len as u64;
        if next > bound as u64 {
            proof {
                lemma_content_len_grows(d, i as int + 1, n as int);
            }
            return false;
        }
        total = next;
        i = i + 1;
    }
    true
}

/// The content length only grows along prefixes.
proof fn lemma_content_len_grows(d: Seq<Seq<u8>>, i: int, j: int)
    requires
        0 <= i <= j <= d.len(),
    ensures
        witness_content_len(d.take(i)) <= witness_content_len(d.take(j)),
    decreases j - i,
{
    if i < j {
        assert(d.take(j).drop_last() =~= d.take(j - 1));
        lemma_content_len_grows(d, i, j - 1);
    }
}

/// Witnesses within the decoder's limit fit the `bitcoin` crate's `Witness`.
pub proof fn lemma_within_limit_fits(t: TransactionModel)
    requires
        witnesses_within_limit(t),
    ensures
        witnesses_fit(t),
{
    assert forall|i: int| 0 <= i < t.input.len() implies (#[trigger] t.input[i].witness).len()
        == 0 || witness_content_len(t.input[i].witness.drop_last()) <= u32::MAX by {
        let w = t.input[i].witness;
        if w.len() > 0 {
            assert(witness_content_len(w) <= MAX_VEC_SIZE);
        }
    }
}

/// Whether the `bitcoin` crate can hold each witness of the transaction.
pub fn tx_witnesses_fit(t: &Transaction) -> (r: bool)
    ensures
        r == witnesses_fit(t@),
{
    let mut i: usize = 0;
    while i < t.input.len()
        invariant
            i <= t.input@.len(),
            forall|j: int|
                0 <= j < i ==> (#[trigger] t@.input[j].witness).len() == 0 || witness_content_len(
                    t@.input[j].witness.drop_last(),
                ) <= u32::MAX,
        decreases t.input@.len() - i,
    {
        let w = &t.input[i].witness;
        assert(t@.input[i as int].witness == w.deep_view());
        if w.len() > 0 {
            assert(w.deep_view().take(w@.len() - 1) =~= w.deep_view().drop_last());
            if !witness_len_at_most(w, w.len() - 1, 0xffff_ffffu32) {
                return false;
            }
        }
        i = i + 1;
    }
    true
}

/// Whether each witness of the transaction fits the decoder's limit.
pub fn tx_witnesses_within_limit(t: &Transaction) -> (r: bool)
    ensures
        r == witnesses_within_limit(t@),
{
    let mut i: usize = 0;
    while i < t.input.len()
        invariant
            i <= t.input@.len(),
            forall|j: int|
                0 <= j < i ==> witness_content_len(#[trigger] t@.input[j].witness)
                    <= MAX_VEC_SIZE,
        decreases t.input@.len() - i,
    {
        let w = &t.input[i].witness;
        assert(t@.input[i as int].witness == w.deep_view());
        assert(w.deep_view().take(w@.len() as int) =~= w.deep_view());
        if !witness_len_at_most(w, w.len(), 4_000_000u32) {
            return false;
        }
        i = i + 1;
    }
    true
}

} // verus!
