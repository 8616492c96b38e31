use blockchain::pow::{accept_nonce, meets_difficulty, proof_thread};
use blockchain::{Block, Blockheader, Chain, ChainError, Encode, Transaction};
use std::sync::atomic::AtomicBool;

fn s(text: &str) -> String {
    text.to_string()
}

fn tx(sender: &str, receiver: &str, amount: &str) -> Transaction {
    Transaction::new(s(sender), s(receiver), s(amount))
}

fn one_worker(template: &Blockheader, _threads: i32) -> Option<i32> {
    let flag = AtomicBool::new(false);
    proof_thread(template, 1, &flag)
}

fn header(nonce: i32, difficulty: i32) -> Blockheader {
    Blockheader { timestamp: 1, nonce, pre_hash: s("p"), merkle: s("m"), difficulty }
}

fn assert_linked(blocks: &Vec<Block>) {
    assert_eq!(blocks[0].header.pre_hash, "0".repeat(64));
    for i in 1..blocks.len() {
        assert_eq!(blocks[i].header.pre_hash, Chain::hash(&blocks[i - 1].header));
    }
}

#[test]
fn hex_pads_every_byte() {
    assert_eq!(Chain::hex_to_string(&[0x0a, 0xff, 0x00, 0x7]), "0aff0007");
    assert_eq!(Chain::hex_to_string(&[]), "");
}

#[test]
fn hash_of_string_is_sha256_of_its_json() {
    assert_eq!(
        Chain::hash(&s("abc")),
        "6cc43f858fbb763301637b5af970e2a46b46f461f27e5a0f41e009c59b827b25"
    );
}

#[test]
fn transaction_text_is_json_in_field_order() {
    assert_eq!(
        tx("A", "B", "10.0").encode(),
        "{\"sender\":\"A\",\"receiver\":\"B\",\"amount\":10.0}"
    );
    assert_eq!(
        tx("a\"b", "c\\d", "1.5").encode(),
        "{\"sender\":\"a\\\"b\",\"receiver\":\"c\\\\d\",\"amount\":1.5}"
    );
}

#[test]
fn header_text_and_hash() {
    let h = header(-2, 0);
    assert_eq!(
        h.encode(),
        "{\"timestamp\":1,\"nonce\":-2,\"pre_hash\":\"p\",\"merkle\":\"m\",\"difficulty\":0}"
    );
    assert_eq!(
        Chain::hash(&h),
        "160be4cc8d89c396bf8e24ff7525afef4e689cee3b827ba6f486c71ea444967c"
    );
}

#[test]
fn merkle_of_nothing_is_an_error() {
    assert_eq!(Chain::get_merkle(&vec![]), Err(ChainError::EmptyInput));
}

#[test]
fn merkle_of_one_duplicates_the_leaf() {
    let leaf = Chain::hash(&tx("A", "B", "10.0"));
    assert_eq!(leaf, "6c4dbd4c4c6b0a825becc4f9d8b6914fd02f96c99c50d22c4db3527c4c82c8be");
    assert_eq!(
        Chain::get_merkle(&vec![tx("A", "B", "10.0")]),
        Ok(s("025a0bf44bc07def64f04d0c90971e22b24b346b786692d42004502a4c8bf31f"))
    );
}

#[test]
fn merkle_of_two_hashes_the_pair() {
    assert_eq!(
        Chain::get_merkle(&vec![tx("A", "B", "10.0"), tx("B", "A", "10.0")]),
        Ok(s("457a9653f3241d9c75a56d3a4ee632e0c2052311445ed2fad0d50e510bec2b19"))
    );
}

#[test]
fn merkle_is_deterministic() {
    let txs = vec![tx("A", "B", "1.0"), tx("C", "D", "2.0"), tx("E", "F", "3.0")];
    let again = vec![tx("A", "B", "1.0"), tx("C", "D", "2.0"), tx("E", "F", "3.0")];
    assert_eq!(Chain::get_merkle(&txs), Chain::get_merkle(&again));
}

#[test]
fn merkle_depends_on_order() {
    let ab = Chain::get_merkle(&vec![tx("A", "B", "1.0"), tx("C", "D", "2.0")]);
    let ba = Chain::get_merkle(&vec![tx("C", "D", "2.0"), tx("A", "B", "1.0")]);
    assert_ne!(ab, ba);
}

#[test]
fn difficulty_predicate() {
    assert!(meets_difficulty(&s("00ab"), 2));
    assert!(!meets_difficulty(&s("00ab"), 3));
    assert!(meets_difficulty(&s("ab"), 0));
    assert!(!meets_difficulty(&s("00"), 3));
    assert!(!meets_difficulty(&s("00"), -1));
}

#[test]
fn worker_at_difficulty_zero_takes_its_first_nonce() {
    let flag = AtomicBool::new(false);
    assert_eq!(proof_thread(&header(3, 0), 4, &flag), Some(3));
}

#[test]
fn worker_finds_a_nonce_in_its_class() {
    let flag = AtomicBool::new(false);
    let n = proof_thread(&header(1, 1), 3, &flag).unwrap();
    assert_eq!((n - 1) % 3, 0);
    assert!(Chain::hash(&header(n, 1)).starts_with('0'));
    assert!(flag.load(std::sync::atomic::Ordering::Relaxed));
}

#[test]
fn worker_stops_once_another_has_won() {
    let flag = AtomicBool::new(true);
    assert_eq!(proof_thread(&header(0, 64), 1, &flag), None);
}

#[test]
fn accept_nonce_checks_the_difficulty() {
    assert_eq!(accept_nonce(&header(0, 64), Some(0)).err(), Some(ChainError::NoSolution));
    assert_eq!(accept_nonce(&header(0, 1), None).err(), Some(ChainError::NoSolution));
    let h = accept_nonce(&header(0, 0), Some(7)).unwrap();
    assert_eq!(h.nonce, 7);
}

#[test]
fn proof_of_work_refuses_bad_configuration() {
    let r = Chain::proof_of_work(s("p"), 1, s("m"), 0, one_worker);
    assert_eq!(r.err(), Some(ChainError::InvalidWorkerCount));
    let r = Chain::proof_of_work(s("p"), 65, s("m"), 1, one_worker);
    assert_eq!(r.err(), Some(ChainError::InvalidDifficulty));
    let r = Chain::proof_of_work(s("p"), -1, s("m"), 1, one_worker);
    assert_eq!(r.err(), Some(ChainError::InvalidDifficulty));
}

#[test]
fn proof_of_work_at_difficulty_zero_uses_nonce_zero() {
    let h = Chain::proof_of_work(s("p"), 0, s("m"), 2, |_t: &Blockheader, _n: i32| None).unwrap();
    assert_eq!(h.nonce, 0);
    assert_eq!(h.difficulty, 0);
}

#[test]
fn proof_of_work_meets_the_difficulty() {
    let h = Chain::proof_of_work(s("p"), 2, s("m"), 2, one_worker).unwrap();
    assert!(Chain::hash(&h).starts_with("00"));
    assert_eq!(h.pre_hash, "p");
    assert_eq!(h.merkle, "m");
}

#[test]
fn proof_of_work_reports_a_failed_search() {
    let r = Chain::proof_of_work(s("p"), 1, s("m"), 2, |_t: &Blockheader, _n: i32| None);
    assert_eq!(r.err(), Some(ChainError::NoSolution));
}

#[test]
fn ledger_scenario_one_transaction() {
    let mut chain = Chain::new(s("M"), 1, 2, one_worker).unwrap();
    assert_eq!(chain.blocks().len(), 1);
    assert_eq!(chain.blocks()[0].count, 1);
    assert!(chain.new_transaction(s("A"), s("B"), s("10.0")));
    assert!(chain.generate_new_block(2, one_worker).is_ok());
    let blocks = chain.blocks();
    assert_eq!(blocks.len(), 2);
    assert_eq!(blocks[1].count, 2);
    assert_eq!(blocks[1].transactions[0].sender, "Root");
    assert_eq!(blocks[1].transactions[0].receiver, "M");
    assert_eq!(blocks[1].transactions[0].amount, "100.0");
    assert_eq!(blocks[1].transactions[1].sender, "A");
    assert_eq!(blocks[1].transactions[1].receiver, "B");
    assert_eq!(blocks[1].transactions[1].amount, "10.0");
    assert_eq!(blocks[1].header.pre_hash, Chain::hash(&blocks[0].header));
    assert!(Chain::hash(&blocks[1].header).starts_with('0'));
    assert_eq!(chain.last_hash(), Chain::hash(&blocks[1].header));
}

#[test]
fn ledger_appends_n_blocks_linked() {
    let mut chain = Chain::new(s("M"), 1, 3, one_worker).unwrap();
    for _ in 0..4 {
        assert!(chain.generate_new_block(3, one_worker).is_ok());
    }
    assert_eq!(chain.blocks().len(), 5);
    assert_linked(chain.blocks());
}

#[test]
fn assembling_empties_the_pool_reward_first() {
    let mut chain = Chain::new(s("M"), 0, 1, one_worker).unwrap();
    chain.new_transaction(s("A"), s("B"), s("1.0"));
    chain.new_transaction(s("C"), s("D"), s("2.0"));
    assert_eq!(chain.pending().len(), 2);
    assert!(chain.generate_new_block(1, one_worker).is_ok());
    assert_eq!(chain.pending().len(), 0);
    let b = &chain.blocks()[1];
    assert_eq!(b.count, 3);
    assert_eq!(b.transactions[0].sender, "Root");
    assert_eq!(b.transactions[1].sender, "A");
    assert_eq!(b.transactions[2].sender, "C");
    assert_eq!(b.header.nonce, 0);
    assert_eq!(Ok(b.header.merkle.clone()), Chain::get_merkle(&b.transactions));
}

#[test]
fn ledger_construction_refuses_bad_configuration() {
    assert_eq!(Chain::new(s("M"), 1, 0, one_worker).err(), Some(ChainError::InvalidWorkerCount));
    assert_eq!(Chain::new(s("M"), 65, 1, one_worker).err(), Some(ChainError::InvalidDifficulty));
}

#[test]
fn bad_difficulty_leaves_the_ledger_unchanged() {
    let mut chain = Chain::new(s("M"), 0, 1, one_worker).unwrap();
    chain.new_transaction(s("A"), s("B"), s("1.0"));
    assert!(chain.update_difficulty(70));
    assert_eq!(chain.generate_new_block(1, one_worker), Err(ChainError::InvalidDifficulty));
    assert_eq!(chain.blocks().len(), 1);
    assert_eq!(chain.pending().len(), 1);
    assert!(chain.update_difficulty(0));
    assert!(chain.update_reward(s("5.0")));
    assert!(chain.generate_new_block(1, one_worker).is_ok());
    assert_eq!(chain.blocks()[1].transactions[0].amount, "5.0");
}

#[test]
fn accept_nonce_refuses_negative_nonces() {
    assert_eq!(accept_nonce(&header(0, 0), Some(-1)).err(), Some(ChainError::NoSolution));
}

#[test]
fn roots_and_hashes_are_sixty_four_hex_characters() {
    let root = Chain::get_merkle(&vec![tx("A", "B", "1.0"), tx("C", "D", "2.0"), tx("E", "F", "3.0")])
        .unwrap();
    assert_eq!(root.len(), 64);
    assert!(root.chars().all(|c| "0123456789abcdef".contains(c)));
    let chain = Chain::new(s("M"), 0, 1, one_worker).unwrap();
    assert_eq!(chain.last_hash().len(), 64);
}

#[test]
fn genesis_carries_the_difficulty() {
    let chain = Chain::new(s("M"), 2, 2, one_worker).unwrap();
    let genesis = &chain.blocks()[0];
    assert_eq!(genesis.header.difficulty, 2);
    assert_eq!(genesis.header.pre_hash, "0".repeat(64));
    assert!(Chain::hash(&genesis.header).starts_with("00"));
    assert!(genesis.header.nonce >= 0);
}
