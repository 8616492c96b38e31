//! The ledger: the block sequence, the pending pool and the mining configuration.

use crate::block::{zero_prefix, Block, Blockheader, Transaction};
use crate::hashing::{hash_of, Encode, HASH_HEX_LEN};
use crate::merkle::{block_root, lemma_block_root, merkle_root};
use vstd::prelude::*;

verus! {

/// Why a ledger operation was refused.
#[derive(Debug, Clone, Copy, PartialEq, Eq, Structural)]
pub enum ChainError {
    /// The worker count is below one.
    InvalidWorkerCount,
    /// The difficulty is negative or longer than a hash.
    InvalidDifficulty,
    /// A Merkle root was asked of no transactions.
    EmptyInput,
    /// The nonce search delivered no nonce that meets the difficulty.
    NoSolution,
}

/// The reward a fresh ledger pays the miner of each block, as the amount's JSON text.
pub open spec fn initial_reward() -> Seq<char> {
    "100.0"@
}

/// The sender of every reward transaction.
pub open spec fn reward_sender() -> Seq<char> {
    "Root"@
}

/// The previous hash of the first block: 64 zero characters.
pub open spec fn zero_hash() -> Seq<char> {
    Seq::new(HASH_HEX_LEN as nat, |i: int| '0')
}

/// The hash of a block header.
pub open spec fn header_hash(h: Blockheader) -> Seq<char> {
    hash_of(h.encoding())
}

/// The hash a new block links to: that of the last block's header, or the zero hash.
pub open spec fn last_hash_of(blocks: Seq<Block>) -> Seq<char> {
    if blocks.len() == 0 {
        zero_hash()
    } else {
        header_hash(blocks.last().header)
    }
}

/// The reward transaction paying `reward` to `miner`.
pub open spec fn is_reward(t: Transaction, miner: Seq<char>, reward: Seq<char>) -> bool {
    &&& t.sender@ == reward_sender()
    &&& t.receiver@ == miner
    &&& t.amount@ == reward
}

/// A block as mining leaves it: counted, rewarded first, summarised and solved.
pub open spec fn sealed(b: Block) -> bool {
    &&& b.count == b.transactions@.len()
    &&& b.transactions@.len() >= 1
    &&& b.transactions@[0].sender@ == reward_sender()
    &&& b.header.merkle@ == merkle_root(b.transactions@)
    &&& 0 <= b.header.difficulty <= HASH_HEX_LEN
    &&& b.header.solved()
}

/// The chain is hash-linked: in a well-formed ledger the first block links to the zero
/// hash, every later block's previous hash is the hash of the header before it, and every
/// block's header hash starts with as many '0' characters as its difficulty.
pub proof fn chain_is_linked(c: &Chain)
    requires
        c.wf(),
    ensures
        c.spec_blocks().len() > 0 ==> c.spec_blocks()[0].header.pre_hash@ == zero_hash(),
        forall|i: int|
            0 <= i < c.spec_blocks().len() - 1 ==> (#[trigger] c.spec_blocks()[i + 1]).header.pre_hash@
                == header_hash(c.spec_blocks()[i].header),
        forall|i: int|
            0 <= i < c.spec_blocks().len() ==> zero_prefix(
                header_hash((#[trigger] c.spec_blocks()[i]).header),
                c.spec_blocks()[i].header.difficulty as int,
            ),
{
    let blocks = c.spec_blocks();
    assert forall|i: int| 0 <= i < blocks.len() - 1 implies (#[trigger] blocks[i + 1]).header.pre_hash@
        == header_hash(blocks[i].header) by {
        assert(blocks[(i + 1) - 1] == blocks[i]);
    }
    assert forall|i: int| 0 <= i < blocks.len() implies zero_prefix(
        header_hash((#[trigger] blocks[i]).header),
        blocks[i].header.difficulty as int,
    ) by {
        assert(sealed(blocks[i]));
    }
}

/// An append-only block sequence, the pool of transactions waiting for the next block, and
/// the difficulty, miner address and reward that the next block is mined with.
pub struct Chain {
    chain: Vec<Block>,
    curr_trans: Vec<Transaction>,
    difficulty: i32,
    miner_addr: String,
    reward: String,
}

impl Chain {
    /// The blocks, the first block first.
    pub closed spec fn spec_blocks(&self) -> Seq<Block> {
        self.chain@
    }

    /// The pending pool, in submission order.
    pub closed spec fn spec_pending(&self) -> Seq<Transaction> {
        self.curr_trans@
    }

    /// The difficulty the next block is mined with.
    pub closed spec fn spec_difficulty(&self) -> i32 {
        self.difficulty
    }

    /// The address the next block's reward is paid to.
    pub closed spec fn spec_miner(&self) -> Seq<char> {
        self.miner_addr@
    }

    /// The next block's reward, as the amount's JSON text.
    pub closed spec fn spec_reward(&self) -> Seq<char> {
        self.reward@
    }

    /// Every block is sealed; the first links to the zero hash and each later one to the
    /// hash of the header before it.
    pub open spec fn wf(&self) -> bool {
        let blocks = self.spec_blocks();
        &&& forall|i: int| 0 <= i < blocks.len() ==> sealed(#[trigger] blocks[i])
        &&& blocks.len() > 0 ==> blocks[0].header.pre_hash@ == zero_hash()
        &&& forall|i: int|
            0 < i < blocks.len() ==> (#[trigger] blocks[i]).header.pre_hash@ == header_hash(
                blocks[i - 1].header,
            )
    }

    /// The difficulty, miner address and reward of `self` and `other` agree.
    pub open spec fn same_config(&self, other: &Chain) -> bool {
        &&& other.spec_difficulty() == self.spec_difficulty()
        &&& other.spec_miner() == self.spec_miner()
        &&& other.spec_reward() == self.spec_reward()
    }

    /// The hash of the last block's header, or 64 zero characters for an empty chain.
    pub fn last_hash(&self) -> (r: String)
        ensures
            r@ == last_hash_of(self.spec_blocks()),
            r@.len() == HASH_HEX_LEN,
    {
        let n = self.chain.len();
        if n == 0 {
            let mut s = String::new();
            let mut i: i32 = 0;
            while i < HASH_HEX_LEN
                invariant
                    0 <= i <= HASH_HEX_LEN,
                    s@ =~= Seq::new(i as nat, |j: int| '0'),
                decreases HASH_HEX_LEN - i,
            {
                s.append("0");
                proof {
                    reveal_strlit("0");
                }
                i = i + 1;
            }
            return s;
        }
        Chain::hash(&self.chain[n - 1].header)
    }

    /// Pays the miner, takes the pending pool, and seals the lot into a block mined by
    /// `mine` and linked to the last block. On failure nothing changes.
    pub fn generate_new_block<F>(&mut self, threads: i32, mine: F) -> (r: Result<(), ChainError>)
        where F: FnOnce(&Blockheader, i32) -> Option<i32>
        requires
            old(self).wf(),
            forall|t: &Blockheader, n: i32| mine.requires((t, n)),
        ensures
            final(self).wf(),
            old(self).same_config(final(self)),
            threads < 1 ==> r == Err::<(), ChainError>(ChainError::InvalidWorkerCount),
            threads >= 1 && !(0 <= old(self).spec_difficulty() <= HASH_HEX_LEN) ==> r == Err::<
                (),
                ChainError,
            >(ChainError::InvalidDifficulty),
            threads >= 1 && 0 <= old(self).spec_difficulty() <= HASH_HEX_LEN && r is Err ==> r
                == Err::<(), ChainError>(ChainError::NoSolution) && old(self).spec_difficulty() > 0,
            r is Err ==> final(self).spec_blocks() == old(self).spec_blocks()
                && final(self).spec_pending() == old(self).spec_pending(),
            r is Ok ==> {
                let old_blocks = old(self).spec_blocks();
                let blocks = final(self).spec_blocks();
                let b = blocks.last();
                &&& blocks.len() == old_blocks.len() + 1
                &&& blocks.subrange(0, old_blocks.len() as int) == old_blocks
                &&& final(self).spec_pending().len() == 0
                &&& b.transactions@.len() == old(self).spec_pending().len() + 1
                &&& is_reward(b.transactions@[0], old(self).spec_miner(), old(self).spec_reward())
                &&& b.transactions@.subrange(1, b.transactions@.len() as int) == old(self).spec_pending()
                &&& b.header.pre_hash@ == last_hash_of(old_blocks)
                &&& b.header.difficulty == old(self).spec_difficulty()
                &&& b.header.nonce >= 0
                &&& (old(self).spec_difficulty() == 0 ==> b.header.nonce == 0)
            },
            threads >= 1 && 0 < old(self).spec_difficulty() <= HASH_HEX_LEN ==> exists|
                t: Blockheader,
                found: Option<i32>,
            |
                {
                    &&& t.nonce == 0
                    &&& t.pre_hash@ == last_hash_of(old(self).spec_blocks())
                    &&& t.merkle@ == block_root(
                        old(self).spec_miner(),
                        old(self).spec_reward(),
                        old(self).spec_pending(),
                    )
                    &&& t.difficulty == old(self).spec_difficulty()
                    &&& #[trigger] mine.ensures((&t, threads), found)
                    &&& (found matches Some(n) && n >= 0 && t.solved_at(n as int)) <==> r is Ok
                    &&& r is Ok ==> found == Some(final(self).spec_blocks().last().header.nonce)
                        && t.same_but_nonce(
                        &final(self).spec_blocks().last().header,
                        final(self).spec_blocks().last().header.nonce as int,
                    )
                },
    {
        let ghost old_blocks = self.chain@;
        let ghost old_pending = self.curr_trans@;
        let mut sender = String::new();
        sender.append("Root");
        let reward_trans = Transaction {
            sender,
            receiver: self.miner_addr.clone(),
            amount: self.reward.clone(),
        };
        let mut transactions = vec![reward_trans];
        transactions.append(&mut self.curr_trans);
        let count = transactions.len();
        proof {
            assert(transactions@.subrange(1, transactions@.len() as int) =~= old_pending);
            lemma_block_root(transactions@, self.miner_addr@, self.reward@, old_pending);
        }
        let merkle = match Chain::get_merkle(&transactions) {
            Ok(m) => m,
            Err(e) => {
                return Err(e);
            },
        };
        let pre_hash = self.last_hash();
        let mined = Chain::proof_of_work(pre_hash, self.difficulty, merkle, threads, mine);
        match mined {
            Ok(header) => {
                let block = Block { header, count, transactions };
                self.chain.push(block);
                proof {
                    let blocks = self.chain@;
                    assert(blocks.subrange(0, old_blocks.len() as int) =~= old_blocks);
                    assert(block.transactions@.subrange(1, block.transactions@.len() as int)
                        =~= old_pending);
                    assert forall|i: int| 0 < i < blocks.len() implies (#[trigger] blocks[i]).header.pre_hash@
                        == header_hash(blocks[i - 1].header) by {
                        if i < old_blocks.len() {
                            assert(blocks[i] == old_blocks[i]);
                        }
                    }
                }
                Ok(())
            },
            Err(e) => {
                transactions.remove(0);
                self.curr_trans = transactions;
                proof {
                    assert(self.curr_trans@ =~= old_pending);
                }
                Err(e)
            },
        }
    }

    /// A ledger paying `miner_addr`, whose first block is mined at once.
    pub fn new<F>(miner_addr: String, difficulty: i32, threads: i32, mine: F) -> (r: Result<
        Chain,
        ChainError,
    >) where F: FnOnce(&Blockheader, i32) -> Option<i32>
        requires
            forall|t: &Blockheader, n: i32| mine.requires((t, n)),
        ensures
            threads < 1 ==> r == Err::<Chain, ChainError>(ChainError::InvalidWorkerCount),
            threads >= 1 && !(0 <= difficulty <= HASH_HEX_LEN) ==> r == Err::<Chain, ChainError>(
                ChainError::InvalidDifficulty,
            ),
            threads >= 1 && 0 <= difficulty <= HASH_HEX_LEN && r is Err ==> r == Err::<
                Chain,
                ChainError,
            >(ChainError::NoSolution) && difficulty > 0,
            r matches Ok(c) ==> {
                &&& c.wf()
                &&& c.spec_blocks().len() == 1
                &&& c.spec_blocks()[0].transactions@.len() == 1
                &&& is_reward(c.spec_blocks()[0].transactions@[0], miner_addr@, initial_reward())
                &&& c.spec_blocks()[0].header.pre_hash@ == zero_hash()
                &&& c.spec_blocks()[0].header.difficulty == difficulty
                &&& c.spec_pending().len() == 0
                &&& c.spec_difficulty() == difficulty
                &&& c.spec_miner() == miner_addr@
                &&& c.spec_reward() == initial_reward()
            },
            threads >= 1 && 0 < difficulty <= HASH_HEX_LEN ==> exists|
                t: Blockheader,
                found: Option<i32>,
            |
                {
                    &&& t.nonce == 0
                    &&& t.pre_hash@ == zero_hash()
                    &&& t.merkle@ == block_root(miner_addr@, initial_reward(), Seq::empty())
                    &&& t.difficulty == difficulty
                    &&& #[trigger] mine.ensures((&t, threads), found)
                    &&& (found matches Some(n) && n >= 0 && t.solved_at(n as int)) <==> r is Ok
                    &&& r matches Ok(c) ==> found == Some(c.spec_blocks()[0].header.nonce)
                        && t.same_but_nonce(
                        &c.spec_blocks()[0].header,
                        c.spec_blocks()[0].header.nonce as int,
                    )
                },
    {
        let mut reward = String::new();
        reward.append("100.0");
        let mut chain = Chain {
            chain: Vec::new(),
            curr_trans: Vec::new(),
            difficulty,
            miner_addr,
            reward,
        };
        match chain.generate_new_block(threads, mine) {
            Ok(()) => Ok(chain),
            Err(e) => Err(e),
        }
    }

    /// Adds a transaction to the pending pool; always succeeds.
    pub fn new_transaction(&mut self, sender: String, receiver: String, amount: String) -> (r: bool)
        requires
            old(self).wf(),
        ensures
            r,
            final(self).wf(),
            old(self).same_config(final(self)),
            final(self).spec_blocks() == old(self).spec_blocks(),
            final(self).spec_pending() == old(self).spec_pending().push(
                (Transaction { sender, receiver, amount }),
            ),
    {
        self.curr_trans.push(Transaction { sender, receiver, amount });
        true
    }

    /// Sets the difficulty of the blocks mined from now on; it is checked when one is mined.
    pub fn update_difficulty(&mut self, difficulty: i32) -> (r: bool)
        requires
            old(self).wf(),
        ensures
            r,
            final(self).wf(),
            final(self).spec_difficulty() == difficulty,
            final(self).spec_miner() == old(self).spec_miner(),
            final(self).spec_reward() == old(self).spec_reward(),
            final(self).spec_blocks() == old(self).spec_blocks(),
            final(self).spec_pending() == old(self).spec_pending(),
    {
        self.difficulty = difficulty;
        true
    }

    /// Sets the reward paid by the blocks mined from now on, as the amount's JSON text.
    pub fn update_reward(&mut self, reward: String) -> (r: bool)
        requires
            old(self).wf(),
        ensures
            r,
            final(self).wf(),
            final(self).spec_reward() == reward@,
            final(self).spec_difficulty() == old(self).spec_difficulty(),
            final(self).spec_miner() == old(self).spec_miner(),
            final(self).spec_blocks() == old(self).spec_blocks(),
            final(self).spec_pending() == old(self).spec_pending(),
    {
        self.reward = reward;
        true
    }

    /// The blocks, the first block first.
    pub fn blocks(&self) -> (r: &Vec<Block>)
        ensures
            r@ == self.spec_blocks(),
    {
        &self.chain
    }

    /// The transactions waiting for the next block, in submission order.
    pub fn pending(&self) -> (r: &Vec<Transaction>)
        ensures
            r@ == self.spec_pending(),
    {
        &self.curr_trans
    }
}

} // verus!
