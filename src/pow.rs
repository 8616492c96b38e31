//! Proof of work: the difficulty predicate, one worker's search over its residue class of
//! nonces, and the acceptance of the nonce that the workers deliver.

use crate::block::{zero_prefix, Blockheader};
use crate::hashing::HASH_HEX_LEN;
use crate::ledger::{Chain, ChainError};
use std::sync::atomic::{AtomicBool, Ordering};
use vstd::prelude::*;

verus! {

/// Relies on time::get_time: the current wall-clock time, in whole seconds since the epoch.
#[verifier::external_body]
fn now_seconds() -> (r: i64) {
    time::get_time().sec
}

/// Whether the first `difficulty` characters of `hash` are all '0'.
pub fn meets_difficulty(hash: &String, difficulty: i32) -> (r: bool)
    ensures
        r == zero_prefix(hash@, difficulty as int),
{
    if difficulty < 0 {
        return false;
    }
    let s = hash.as_str();
    let n = s.unicode_len();
    if difficulty as usize > n {
        return false;
    }
    let d = difficulty as usize;
    let mut i: usize = 0;
    while i < d
        invariant
            d <= s@.len(),
            d == difficulty,
            s@ == hash@,
            i <= d,
            forall|j: int| 0 <= j < i ==> s@[j] == '0',
        decreases d - i,
    {
        if s.get_char(i) != '0' {
            return false;
        }
        i = i + 1;
    }
    true
}

proof fn lemma_next_in_class(base: int, nonce: int, step: int, k: int)
    requires
        step >= 1,
        nonce >= base,
        (nonce - base) % step == 0,
    ensures
        (nonce + step - base) % step == 0,
        nonce < k < nonce + step ==> (k - base) % step != 0,
{
    assert((nonce + step - base) % step == 0) by (nonlinear_arith)
        requires
            step >= 1,
            nonce >= base,
            (nonce - base) % step == 0,
    ;
    if nonce < k < nonce + step {
        assert((k - base) % step != 0) by (nonlinear_arith)
            requires
                step >= 1,
                nonce >= base,
                (nonce - base) % step == 0,
                nonce < k,
                k < nonce + step,
        ;
    }
}

/// One worker of the search: tries `header.nonce`, then every `threads`-th nonce after it,
/// until a hash meets the header's difficulty, another worker has raised `result_found`,
/// or the nonces of its class run out. The winner raises `result_found`.
pub fn proof_thread(header: &Blockheader, threads: i32, result_found: &AtomicBool) -> (r: Option<i32>)
    requires
        threads >= 1,
    ensures
        header.solved_at(header.nonce as int) ==> r == Some(header.nonce),
        header.difficulty == 0 ==> r == Some(header.nonce),
        r matches Some(n) ==> {
            &&& n >= header.nonce
            &&& (n - header.nonce) % (threads as int) == 0
            &&& header.solved_at(n as int)
            &&& forall|k: int|
                header.nonce <= k < n && (k - header.nonce) % (threads as int) == 0
                    ==> !header.solved_at(k)
        },
{
    let mut nonce: i32 = header.nonce;
    assert(0int % (threads as int) == 0) by (nonlinear_arith)
        requires
            threads >= 1,
    ;
    loop
        invariant
            threads >= 1,
            nonce >= header.nonce,
            (nonce - header.nonce) % (threads as int) == 0,
            forall|k: int|
                header.nonce <= k < nonce && (k - header.nonce) % (threads as int) == 0
                    ==> !header.solved_at(k),
            header.difficulty == 0 ==> nonce == header.nonce,
        decreases i32::MAX - nonce,
    {
        let candidate = header.with_nonce(nonce);
        let hash = Chain::hash(&candidate);
        if meets_difficulty(&hash, header.difficulty) {
            result_found.store(true, Ordering::Relaxed);
            return Some(nonce);
        }
        assert(header.difficulty != 0);
        if result_found.load(Ordering::Relaxed) {
            return None;
        }
        if nonce > i32::MAX - threads {
            return None;
        }
        proof {
            let base = header.nonce as int;
            let step = threads as int;
            lemma_next_in_class(base, nonce as int, step, 0);
            assert forall|k: int| base <= k < nonce + step && (k - base) % step == 0 implies !header.solved_at(k) by {
                lemma_next_in_class(base, nonce as int, step, k);
            }
        }
        nonce = nonce + threads;
    }
}

/// Accepts the nonce a search delivered when it is not negative and the header carrying it
/// meets its difficulty.
pub fn accept_nonce(template: &Blockheader, found: Option<i32>) -> (r: Result<Blockheader, ChainError>)
    ensures
        match found {
            Some(n) => if n >= 0 && template.solved_at(n as int) {
                r matches Ok(h) && template.same_but_nonce(&h, n as int)
            } else {
                r == Err::<Blockheader, ChainError>(ChainError::NoSolution)
            },
            None => r == Err::<Blockheader, ChainError>(ChainError::NoSolution),
        },
{
    match found {
        Some(n) => {
            if n < 0 {
                return Err(ChainError::NoSolution);
            }
            let header = template.with_nonce(n);
            let hash = Chain::hash(&header);
            if meets_difficulty(&hash, header.difficulty) {
                Ok(header)
            } else {
                Err(ChainError::NoSolution)
            }
        },
        None => Err(ChainError::NoSolution),
    }
}

impl Chain {
    /// Fixes one timestamp, then hands the header template and the worker count to `mine`,
    /// which runs the workers and delivers one nonce. Difficulty 0 needs no search: nonce 0.
    pub fn proof_of_work<F>(
        pre_hash: String,
        difficulty: i32,
        merkle: String,
        threads: i32,
        mine: F,
    ) -> (r: Result<Blockheader, ChainError>) where F: FnOnce(&Blockheader, i32) -> Option<i32>
        requires
            forall|t: &Blockheader, n: i32| mine.requires((t, n)),
        ensures
            threads < 1 ==> r == Err::<Blockheader, ChainError>(ChainError::InvalidWorkerCount),
            threads >= 1 && !(0 <= difficulty <= HASH_HEX_LEN) ==> r == Err::<
                Blockheader,
                ChainError,
            >(ChainError::InvalidDifficulty),
            threads >= 1 && 0 <= difficulty <= HASH_HEX_LEN ==> match r {
                Ok(h) => {
                    &&& h.pre_hash@ == pre_hash@
                    &&& h.merkle@ == merkle@
                    &&& h.difficulty == difficulty
                    &&& h.nonce >= 0
                    &&& h.solved()
                    &&& difficulty == 0 ==> h.nonce == 0
                },
                Err(e) => e == ChainError::NoSolution && difficulty > 0,
            },
            threads >= 1 && 0 < difficulty <= HASH_HEX_LEN ==> exists|t: Blockheader, found: Option<i32>|
                {
                    &&& t.nonce == 0
                    &&& t.pre_hash@ == pre_hash@
                    &&& t.merkle@ == merkle@
                    &&& t.difficulty == difficulty
                    &&& #[trigger] mine.ensures((&t, threads), found)
                    &&& (found matches Some(n) && n >= 0 && t.solved_at(n as int)) <==> r is Ok
                    &&& r matches Ok(h) ==> found == Some(h.nonce) && t.same_but_nonce(&h, h.nonce as int)
                },
    {
        if threads < 1 {
            return Err(ChainError::InvalidWorkerCount);
        }
        if difficulty < 0 || difficulty > HASH_HEX_LEN {
            return Err(ChainError::InvalidDifficulty);
        }
        let timestamp = now_seconds();
        let template = Blockheader { timestamp, nonce: 0, pre_hash, merkle, difficulty };
        if difficulty == 0 {
            return Ok(template);
        }
        let found = mine(&template, threads);
        assert(mine.ensures((&template, threads), found));
        accept_nonce(&template, found)
    }
}

} // verus!
