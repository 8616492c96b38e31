//! Reduction of an ordered transaction list to a single Merkle root.

use crate::block::{transaction_text, Transaction};
use crate::hashing::{hash_of, json_string_of, Encode, HASH_HEX_LEN};
use crate::ledger::{is_reward, reward_sender, Chain, ChainError};
use vstd::prelude::*;

verus! {

/// The hash of one transaction.
pub open spec fn leaf_hash(t: Transaction) -> Seq<char> {
    hash_of(t.encoding())
}

/// The parent of two nodes: the hash of their concatenation, hashed as a string.
pub open spec fn node_hash(left: Seq<char>, right: Seq<char>) -> Seq<char> {
    hash_of(json_string_of(left + right))
}

/// A level of hashes made even in length by repeating its last hash when needed.
pub open spec fn padded(l: Seq<Seq<char>>) -> Seq<Seq<char>> {
    if l.len() % 2 == 1 {
        l.push(l.last())
    } else {
        l
    }
}

/// The leaf level: one hash per transaction, the last repeated when their number is odd.
pub open spec fn leaves(txs: Seq<Transaction>) -> Seq<Seq<char>> {
    padded(txs.map_values(|t: Transaction| leaf_hash(t)))
}

/// Work-queue reduction: the first two hashes are replaced by their parent, appended at the
/// back, until one hash is left.
pub open spec fn reduce(queue: Seq<Seq<char>>) -> Seq<char>
    decreases queue.len(),
{
    if queue.len() <= 1 {
        if queue.len() == 1 {
            queue[0]
        } else {
            Seq::empty()
        }
    } else {
        reduce(queue.subrange(2, queue.len() as int).push(node_hash(queue[0], queue[1])))
    }
}

/// The Merkle root of a non-empty transaction list.
pub open spec fn merkle_root(txs: Seq<Transaction>) -> Seq<char> {
    reduce(leaves(txs))
}

/// The texts of a list of strings.
pub open spec fn views(v: Seq<String>) -> Seq<Seq<char>> {
    v.map_values(|s: String| s@)
}

/// The Merkle root of a block's transactions: the reward paying `reward` to `miner`,
/// followed by `pending`.
pub open spec fn block_root(miner: Seq<char>, reward: Seq<char>, pending: Seq<Transaction>) -> Seq<
    char,
> {
    reduce(
        padded(
            seq![hash_of(transaction_text(reward_sender(), miner, reward))] + pending.map_values(
                |t: Transaction| leaf_hash(t),
            ),
        ),
    )
}

/// The root of a reward followed by a pool is the block root of that reward and pool.
pub proof fn lemma_block_root(txs: Seq<Transaction>, miner: Seq<char>, reward: Seq<char>, pending: Seq<Transaction>)
    requires
        txs.len() == pending.len() + 1,
        is_reward(txs[0], miner, reward),
        txs.subrange(1, txs.len() as int) == pending,
    ensures
        merkle_root(txs) == block_root(miner, reward, pending),
{
    let l = txs.map_values(|t: Transaction| leaf_hash(t));
    let m = seq![hash_of(transaction_text(reward_sender(), miner, reward))] + pending.map_values(
        |t: Transaction| leaf_hash(t),
    );
    assert forall|i: int| 0 <= i < l.len() implies l[i] == m[i] by {
        if i > 0 {
            assert(txs[i] == pending[i - 1]);
        }
    }
    assert(l =~= m);
}

/// Two transaction lists that agree field by field, in order.
pub open spec fn same_transactions(a: Seq<Transaction>, b: Seq<Transaction>) -> bool {
    &&& a.len() == b.len()
    &&& forall|i: int|
        0 <= i < a.len() ==> {
            &&& (#[trigger] a[i]).sender@ == b[i].sender@
            &&& a[i].receiver@ == b[i].receiver@
            &&& a[i].amount@ == b[i].amount@
        }
}

/// The Merkle root is deterministic: lists with the same transactions in the same order
/// have the same root.
pub proof fn merkle_root_deterministic(a: Seq<Transaction>, b: Seq<Transaction>)
    requires
        same_transactions(a, b),
    ensures
        merkle_root(a) == merkle_root(b),
{
    let la = a.map_values(|t: Transaction| leaf_hash(t));
    let lb = b.map_values(|t: Transaction| leaf_hash(t));
    assert forall|i: int| 0 <= i < la.len() implies la[i] == lb[i] by {
        assert(a[i].encoding() == b[i].encoding());
    }
    assert(la =~= lb);
    assert(leaves(a) =~= leaves(b));
}

impl Chain {
    /// Folds the transactions' hashes into their Merkle root; an empty list is refused.
    pub fn get_merkle(curr_trans: &Vec<Transaction>) -> (r: Result<String, ChainError>)
        ensures
            curr_trans@.len() == 0 ==> r == Err::<String, ChainError>(ChainError::EmptyInput),
            curr_trans@.len() > 0 ==> (r matches Ok(root) && root@ == merkle_root(curr_trans@)
                && root@.len() == HASH_HEX_LEN),
    {
        if curr_trans.len() == 0 {
            return Err(ChainError::EmptyInput);
        }
        let ghost hashes = curr_trans@.map_values(|t: Transaction| leaf_hash(t));
        let mut merkle: Vec<String> = Vec::new();
        let mut i: usize = 0;
        while i < curr_trans.len()
            invariant
                i <= curr_trans@.len(),
                hashes == curr_trans@.map_values(|t: Transaction| leaf_hash(t)),
                merkle@.len() == i,
                forall|j: int| 0 <= j < i ==> (#[trigger] merkle@[j])@.len() == HASH_HEX_LEN,
                views(merkle@) =~= hashes.subrange(0, i as int),
            decreases curr_trans@.len() - i,
        {
            let h = Chain::hash(&curr_trans[i]);
            merkle.push(h);
            assert(views(merkle@) =~= hashes.subrange(0, i + 1));
            i = i + 1;
        }
        assert(views(merkle@) =~= hashes);
        if merkle.len() % 2 == 1 {
            let last = merkle[merkle.len() - 1].clone();
            merkle.push(last);
        }
        assert(views(merkle@) =~= leaves(curr_trans@));
        while merkle.len() > 1
            invariant
                merkle@.len() >= 1,
                forall|j: int| 0 <= j < merkle@.len() ==> (#[trigger] merkle@[j])@.len() == HASH_HEX_LEN,
                reduce(views(merkle@)) == merkle_root(curr_trans@),
            decreases merkle@.len(),
        {
            let ghost before = views(merkle@);
            let mut h1 = merkle.remove(0);
            let h2 = merkle.remove(0);
            h1.append(h2.as_str());
            let nh = Chain::hash(&h1);
            merkle.push(nh);
            assert(views(merkle@) =~= before.subrange(2, before.len() as int).push(
                node_hash(before[0], before[1]),
            ));
        }
        let root = merkle.remove(0);
        Ok(root)
    }
}

} // verus!
