//! Folding the hashes of a block's transactions into one Merkle root.

use vstd::prelude::*;
use vstd::utf8::encode_utf8;
use crate::block::{Transaction, TransactionView, tx_hash, tx_views};
use crate::chain::Chain;
use crate::hashing::hash_of;

verus! {

/// The hash of two hashes written one after the other.
pub open spec fn pair_hash(a: Seq<char>, b: Seq<char>) -> Seq<char> {
    hash_of(encode_utf8(a + b))
}

/// Repeatedly replaces the first two hashes of the queue by the hash of the pair,
/// appended at the back, until one hash is left.
pub open spec fn merkle_fold(q: Seq<Seq<char>>) -> Seq<char>
    decreases q.len(),
{
    if q.len() == 0 {
        Seq::empty()
    } else if q.len() == 1 {
        q[0]
    } else {
        merkle_fold(q.subrange(2, q.len() as int).push(pair_hash(q[0], q[1])))
    }
}

/// A list of odd length gets its last element repeated.
pub open spec fn padded(q: Seq<Seq<char>>) -> Seq<Seq<char>> {
    if q.len() % 2 == 1 {
        q.push(q.last())
    } else {
        q
    }
}

/// The hashes of the transactions, in order.
pub open spec fn leaves(txs: Seq<TransactionView>) -> Seq<Seq<char>> {
    txs.map_values(|t: TransactionView| tx_hash(t))
}

/// The Merkle root of a list of transactions.
pub open spec fn merkle_root_of(txs: Seq<TransactionView>) -> Seq<char> {
    merkle_fold(padded(leaves(txs)))
}

/// The texts of a list of strings.
pub open spec fn texts(v: Seq<String>) -> Seq<Seq<char>> {
    v.map_values(|s: String| s@)
}

/// A list of odd length has the Merkle root of the same list with its last
/// transaction repeated.
pub proof fn lemma_merkle_odd_padding(txs: Seq<TransactionView>)
    requires
        txs.len() % 2 == 1,
    ensures
        merkle_root_of(txs) == merkle_root_of(txs.push(txs.last())),
{
    assert(leaves(txs.push(txs.last())) =~= leaves(txs).push(leaves(txs).last()));
}

impl Chain {
    /// The Merkle root of a non-empty list of transactions.
    pub fn get_merkle(current_transactions: &Vec<Transaction>) -> (root: String)
        requires
            current_transactions@.len() > 0,
        ensures
            root@ == merkle_root_of(tx_views(current_transactions@)),
    {
        let ghost txs = tx_views(current_transactions@);
        let mut merkle: Vec<String> = Vec::new();
        let mut i: usize = 0;
        while i < current_transactions.len()
            invariant
                i <= current_transactions@.len(),
                txs == tx_views(current_transactions@),
                texts(merkle@) =~= leaves(txs.subrange(0, i as int)),
            decreases current_transactions@.len() - i,
        {
            let h = Chain::hash(&current_transactions[i]);
            assert(h@ == tx_hash(txs[i as int]));
            let ghost before = merkle@;
            merkle.push(h);
            assert(texts(merkle@) =~= texts(before).push(h@));
            assert(leaves(txs.subrange(0, i + 1)) =~= leaves(txs.subrange(0, i as int)).push(
                tx_hash(txs[i as int]),
            ));
            i = i + 1;
            assert(texts(merkle@) =~= leaves(txs.subrange(0, i as int)));
        }
        assert(txs.subrange(0, i as int) =~= txs);
        if merkle.len() % 2 == 1 {
            let last = merkle[merkle.len() - 1].clone();
            merkle.push(last);
            assert(texts(merkle@) =~= padded(leaves(txs)));
        }
        assert(texts(merkle@) =~= padded(leaves(txs)));
        while merkle.len() > 1
            invariant
                merkle@.len() >= 1,
                merkle_fold(texts(merkle@)) == merkle_root_of(txs),
            decreases merkle@.len(),
        {
            let ghost q = texts(merkle@);
            let mut hash1 = merkle.remove(0);
            let hash2 = merkle.remove(0);
            hash1.append(hash2.as_str());
            let merged = Chain::hash(&hash1);
            merkle.push(merged);
            assert(texts(merkle@) =~= q.subrange(2, q.len() as int).push(pair_hash(q[0], q[1])));
        }
        let root = merkle.remove(0);
        root
    }
}

} // verus!
