use simple_blockchain::block::{Block, GENESIS_DIFFICULTY};
use simple_blockchain::hash::fingerprint;
use simple_blockchain::timestamp::Timestamp;

fn at(seconds: i64) -> Timestamp {
    Timestamp { seconds, nanos: 0 }
}

#[test]
fn with_timestamp_sets_fields_and_hash() {
    let block = Block::with_timestamp(7, at(-5), "hello".to_string(), "abc".to_string(), 3);
    assert_eq!(block.index, 7);
    assert_eq!(block.timestamp, at(-5));
    assert_eq!(block.data, "hello");
    assert_eq!(block.previous_hash, "abc");
    assert_eq!(block.nonce, 0);
    assert_eq!(block.difficulty, 3);
    assert_eq!(block.hash, fingerprint(7, -5, "hello", "abc", 0, 3));
    assert!(block.is_valid());
}

#[test]
fn new_block_starts_at_nonce_zero_with_its_hash() {
    let block = Block::new(4, "data".to_string(), "00ff".to_string(), 2);
    assert_eq!(block.index, 4);
    assert_eq!(block.data, "data");
    assert_eq!(block.previous_hash, "00ff");
    assert_eq!(block.nonce, 0);
    assert_eq!(block.difficulty, 2);
    assert_eq!(block.hash, fingerprint(4, block.timestamp.seconds, "data", "00ff", 0, 2));
    assert!(block.is_valid());
}

#[test]
fn genesis_block_at_is_fixed() {
    let genesis = Block::genesis_block_at(at(1700000000));
    assert_eq!(genesis.index, 0);
    assert_eq!(genesis.data, "创世区块 - Genesis Block");
    assert_eq!(genesis.previous_hash, "0");
    assert_eq!(genesis.nonce, 0);
    assert_eq!(genesis.difficulty, 1);
    assert_eq!(GENESIS_DIFFICULTY, 1);
    assert_eq!(genesis.hash, "585473e15113b65bd3cdc98dcce4862ec562eca14eff02c21bfb2056a601c771");
}

#[test]
fn genesis_block_is_index_zero() {
    let genesis = Block::genesis_block();
    assert_eq!(genesis.index, 0);
    assert_eq!(genesis.previous_hash, "0");
    assert_eq!(genesis.data, "创世区块 - Genesis Block");
    assert_eq!(genesis.nonce, 0);
    assert!(genesis.is_valid());
}

#[test]
fn calculate_hash_follows_the_fields() {
    let mut block = Block::with_timestamp(1, at(10), "a".to_string(), "b".to_string(), 1);
    assert_eq!(block.calculate_hash(), block.hash);
    block.nonce = 5;
    assert_eq!(block.calculate_hash(), fingerprint(1, 10, "a", "b", 5, 1));
    assert_ne!(block.calculate_hash(), block.hash);
}

#[test]
fn calculate_hash_ignores_the_nanoseconds() {
    let mut block = Block::with_timestamp(1, at(10), "a".to_string(), "b".to_string(), 1);
    let before = block.calculate_hash();
    block.timestamp.nanos = 999_999_999;
    assert_eq!(block.calculate_hash(), before);
}

#[test]
fn mine_block_finds_the_first_nonce() {
    let mut genesis = Block::genesis_block_at(at(1700000000));
    genesis.mine_block();
    assert_eq!(genesis.nonce, 12);
    assert_eq!(genesis.hash, "0a5775ab600be2579df904ccda813bd4e3d3bf5ea74196cfeb4778787657d6f1");
    assert!(genesis.is_valid());
    assert!(genesis.has_valid_proof_of_work());
    assert_eq!(genesis.index, 0);
    assert_eq!(genesis.data, "创世区块 - Genesis Block");
    assert_eq!(genesis.previous_hash, "0");
    assert_eq!(genesis.difficulty, 1);
    assert_eq!(genesis.timestamp, at(1700000000));
}

#[test]
fn mine_block_meets_difficulty_two() {
    let mut block = Block::with_timestamp(
        1,
        at(1700000010),
        "first".to_string(),
        "0a5775ab600be2579df904ccda813bd4e3d3bf5ea74196cfeb4778787657d6f1".to_string(),
        2,
    );
    block.mine_block();
    assert_eq!(block.nonce, 352);
    assert_eq!(block.hash, "00027f41a66fb81d6c76263f5ed4a486f43aed828fe016bb725752be6a4eedc5");
    assert!(block.hash.starts_with("00"));
    assert!(block.is_valid());
    assert!(block.has_valid_proof_of_work());
}

#[test]
fn mine_block_with_difficulty_zero_keeps_the_nonce() {
    let mut block = Block::with_timestamp(9, at(77), "free".to_string(), "ff".to_string(), 0);
    block.nonce = 31;
    block.mine_block();
    assert_eq!(block.nonce, 31);
    assert_eq!(block.hash, fingerprint(9, 77, "free", "ff", 31, 0));
    assert!(block.has_valid_proof_of_work());
    assert!(block.is_valid());
}

#[test]
fn mine_block_starts_at_the_current_nonce_and_wraps() {
    let mut block = Block::with_timestamp(3, at(1700000000), "wrap".to_string(), "00ab".to_string(), 1);
    block.nonce = u64::MAX;
    block.mine_block();
    assert_eq!(block.nonce, 4);
    assert_eq!(block.hash, "0b647859dec92a22804727fb9243e8de44fbaa69869809a78a3cc321207b36b5");
    assert!(block.is_valid());
}

#[test]
fn mine_block_on_a_sealed_block_changes_nothing() {
    let mut block = Block::genesis_block_at(at(1700000000));
    block.mine_block();
    let sealed = block.clone();
    block.mine_block();
    assert_eq!(block, sealed);
}

#[test]
fn mine_attempts_stops_at_the_limit() {
    let mut block = Block::with_timestamp(5, at(1700000000), "limit".to_string(), "00".to_string(), 2);
    assert!(!block.mine_attempts(40));
    assert_eq!(block.nonce, 40);
    assert_eq!(block.hash, fingerprint(5, 1700000000, "limit", "00", 39, 2));
    assert!(!block.has_valid_proof_of_work());
    assert!(block.mine_attempts(1000));
    assert_eq!(block.nonce, 390);
    assert_eq!(block.hash, "00db1199f5f8d5d891aa9508514c73cf51973dc8a6ba564d1bb75a6efae12698");
    assert!(block.is_valid());
    assert!(block.has_valid_proof_of_work());
}

#[test]
fn mine_attempts_in_rounds_agrees_with_mine_block() {
    let mut whole = Block::with_timestamp(5, at(1700000000), "limit".to_string(), "00".to_string(), 2);
    let mut rounds = whole.clone();
    whole.mine_block();
    let mut count = 0;
    while !rounds.mine_attempts(7) {
        count += 1;
        assert!(count < 100);
    }
    assert_eq!(rounds, whole);
    assert_eq!(count, 390 / 7);
}

#[test]
fn mine_attempts_with_no_attempt_changes_nothing() {
    let mut block = Block::with_timestamp(5, at(1700000000), "limit".to_string(), "00".to_string(), 2);
    let before = block.clone();
    assert!(!block.mine_attempts(0));
    assert_eq!(block, before);
}

#[test]
fn mine_attempts_exact_limit_seals() {
    let mut block = Block::genesis_block_at(at(1700000000));
    assert!(!block.mine_attempts(12));
    assert_eq!(block.nonce, 12);
    let mut again = Block::genesis_block_at(at(1700000000));
    assert!(again.mine_attempts(13));
    assert_eq!(again.nonce, 12);
    assert!(again.is_valid());
}

#[test]
fn is_valid_detects_a_changed_field() {
    let mut block = Block::genesis_block_at(at(1700000000));
    block.mine_block();
    assert!(block.is_valid());
    let mut changed = block.clone();
    changed.data = "other".to_string();
    assert!(!changed.is_valid());
    let mut changed = block.clone();
    changed.index = 1;
    assert!(!changed.is_valid());
    let mut changed = block.clone();
    changed.nonce += 1;
    assert!(!changed.is_valid());
    let mut changed = block.clone();
    changed.difficulty = 2;
    assert!(!changed.is_valid());
    let mut changed = block.clone();
    changed.timestamp.seconds += 1;
    assert!(!changed.is_valid());
    let mut changed = block.clone();
    changed.previous_hash = "1".to_string();
    assert!(!changed.is_valid());
    let mut changed = block.clone();
    changed.hash = "0".repeat(64);
    assert!(!changed.is_valid());
}

#[test]
fn proof_of_work_looks_at_the_stored_hash_only() {
    let mut block = Block::with_timestamp(1, at(10), "a".to_string(), "b".to_string(), 3);
    block.hash = "000abc".to_string();
    assert!(block.has_valid_proof_of_work());
    assert!(!block.is_valid());
    block.difficulty = 4;
    assert!(!block.has_valid_proof_of_work());
    block.difficulty = 0;
    assert!(block.has_valid_proof_of_work());
    block.hash = String::new();
    assert!(block.has_valid_proof_of_work());
    block.difficulty = 1;
    assert!(!block.has_valid_proof_of_work());
}

#[test]
fn get_size_adds_the_strings_to_the_footprint() {
    let block = Block::with_timestamp(1, at(10), "héllo".to_string(), "0".to_string(), 1);
    assert_eq!(block.data.len(), 6);
    assert_eq!(block.get_size(), std::mem::size_of::<Block>() + 6 + 1 + 64);
    let mut empty = block.clone();
    empty.data = String::new();
    empty.previous_hash = String::new();
    empty.hash = String::new();
    assert_eq!(empty.get_size(), std::mem::size_of::<Block>());
}

#[test]
fn calculate_hash_is_lower_hex() {
    let block = Block::with_timestamp(2, at(99), "any".to_string(), "prev".to_string(), 3);
    let hash = block.calculate_hash();
    assert_eq!(hash.len(), 64);
    assert!(hash.chars().all(|c| c.is_ascii_digit() || ('a'..='f').contains(&c)));
}

#[test]
fn new_block_takes_its_time_from_the_clock() {
    let first = Block::new(1, "d".to_string(), "p".to_string(), 1);
    let second = Block::new(1, "d".to_string(), "p".to_string(), 1);
    assert!(first.timestamp.nanos < 1_000_000_000);
    assert!(second.timestamp.nanos < 1_000_000_000);
    assert!(second.timestamp.seconds_since(&first.timestamp).abs() < 3600);
}
