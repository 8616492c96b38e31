//! Transactions, block headers and blocks, with their canonical texts.

use crate::hashing::{decimal, hash_of, json_int, json_string, json_string_of, Encode};
use vstd::prelude::*;

verus! {

/// A transfer between two addresses; `amount` is the number's JSON text (e.g. `10.0`).
#[derive(Debug)]
pub struct Transaction {
    pub sender: String,
    pub receiver: String,
    pub amount: String,
}

/// The hashed summary of a block, bound to it by proof of work.
#[derive(Debug)]
pub struct Blockheader {
    pub timestamp: i64,
    pub nonce: i32,
    pub pre_hash: String,
    pub merkle: String,
    pub difficulty: i32,
}

/// A header together with the transactions it summarises.
#[derive(Debug)]
pub struct Block {
    pub header: Blockheader,
    pub count: usize,
    pub transactions: Vec<Transaction>,
}

/// Canonical text of a transaction: a JSON object with its fields in declared order.
pub open spec fn transaction_text(sender: Seq<char>, receiver: Seq<char>, amount: Seq<char>) -> Seq<char> {
    "{\"sender\":"@ + json_string_of(sender) + ",\"receiver\":"@ + json_string_of(receiver)
        + ",\"amount\":"@ + amount + "}"@
}

/// Canonical text of a header: a JSON object with its fields in declared order.
pub open spec fn header_text(
    timestamp: int,
    nonce: int,
    pre_hash: Seq<char>,
    merkle: Seq<char>,
    difficulty: int,
) -> Seq<char> {
    "{\"timestamp\":"@ + decimal(timestamp) + ",\"nonce\":"@ + decimal(nonce) + ",\"pre_hash\":"@
        + json_string_of(pre_hash) + ",\"merkle\":"@ + json_string_of(merkle)
        + ",\"difficulty\":"@ + decimal(difficulty) + "}"@
}

/// A hash meets a difficulty when its first `difficulty` characters are all '0'.
pub open spec fn zero_prefix(hash: Seq<char>, difficulty: int) -> bool {
    &&& 0 <= difficulty <= hash.len()
    &&& forall|i: int| 0 <= i < difficulty ==> hash[i] == '0'
}

impl Blockheader {
    /// The hash this header would have with its nonce replaced by `nonce`.
    pub open spec fn hash_at(&self, nonce: int) -> Seq<char> {
        hash_of(header_text(self.timestamp as int, nonce, self.pre_hash@, self.merkle@, self.difficulty as int))
    }

    /// Whether this header, with its nonce replaced by `nonce`, meets its own difficulty.
    pub open spec fn solved_at(&self, nonce: int) -> bool {
        zero_prefix(self.hash_at(nonce), self.difficulty as int)
    }

    /// Whether the header's hash meets the header's difficulty.
    pub open spec fn solved(&self) -> bool {
        self.solved_at(self.nonce as int)
    }

    /// Whether `other` is this header with only the nonce changed, to `nonce`.
    pub open spec fn same_but_nonce(&self, other: &Blockheader, nonce: int) -> bool {
        &&& other.timestamp == self.timestamp
        &&& other.nonce == nonce
        &&& other.pre_hash@ == self.pre_hash@
        &&& other.merkle@ == self.merkle@
        &&& other.difficulty == self.difficulty
    }

    /// A copy of this header carrying `nonce`.
    pub fn with_nonce(&self, nonce: i32) -> (r: Blockheader)
        ensures
            self.same_but_nonce(&r, nonce as int),
    {
        Blockheader {
            timestamp: self.timestamp,
            nonce,
            pre_hash: self.pre_hash.clone(),
            merkle: self.merkle.clone(),
            difficulty: self.difficulty,
        }
    }
}

impl Transaction {
    /// A transaction of `amount` (the number's JSON text) from `sender` to `receiver`.
    pub fn new(sender: String, receiver: String, amount: String) -> (r: Transaction)
        ensures
            r.sender@ == sender@,
            r.receiver@ == receiver@,
            r.amount@ == amount@,
    {
        Transaction { sender, receiver, amount }
    }
}

impl Encode for Transaction {
    open spec fn encoding(&self) -> Seq<char> {
        transaction_text(self.sender@, self.receiver@, self.amount@)
    }

    fn encode(&self) -> (r: String) {
        let mut s = String::new();
        s.append("{\"sender\":");
        s.append(json_string(self.sender.as_str()).as_str());
        s.append(",\"receiver\":");
        s.append(json_string(self.receiver.as_str()).as_str());
        s.append(",\"amount\":");
        s.append(self.amount.as_str());
        s.append("}");
        assert(s@ =~= self.encoding());
        s
    }
}

impl Encode for Blockheader {
    open spec fn encoding(&self) -> Seq<char> {
        header_text(
            self.timestamp as int,
            self.nonce as int,
            self.pre_hash@,
            self.merkle@,
            self.difficulty as int,
        )
    }

    fn encode(&self) -> (r: String) {
        let mut s = String::new();
        s.append("{\"timestamp\":");
        s.append(json_int(self.timestamp).as_str());
        s.append(",\"nonce\":");
        s.append(json_int(self.nonce as i64).as_str());
        s.append(",\"pre_hash\":");
        s.append(json_string(self.pre_hash.as_str()).as_str());
        s.append(",\"merkle\":");
        s.append(json_string(self.merkle.as_str()).as_str());
        s.append(",\"difficulty\":");
        s.append(json_int(self.difficulty as i64).as_str());
        s.append("}");
        assert(s@ =~= self.encoding());
        s
    }
}

} // verus!
