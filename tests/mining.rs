use pow_miner::digest::{calculate_hash, encode_block, has_leading_zeros};
use pow_miner::Block;

fn sample_block(difficulty: u64) -> Block {
    Block::with_timestamp(1, 1700000000, "hello".to_string(), "0".to_string(), difficulty)
}

#[test]
fn encoding_renders_fields_without_separators() {
    let bytes = encode_block(12, -5, "ab", "0", 7, 2);
    assert_eq!(bytes, b"12-5ab072".to_vec());
    let bytes = encode_block(0, 0, "", "", 0, 0);
    assert_eq!(bytes, b"0000".to_vec());
    let bytes = encode_block(u64::MAX, i64::MIN, "x", "y", 10, 100);
    assert_eq!(bytes, b"18446744073709551615-9223372036854775808xy10100".to_vec());
}

#[test]
fn encoding_keeps_utf8_bytes_of_text() {
    let bytes = encode_block(1, 2, "\u{e9}", "", 3, 4);
    assert_eq!(bytes, vec![b'1', b'2', 0xc3, 0xa9, b'3', b'4']);
}

#[test]
fn hash_is_sha256_of_encoding() {
    assert_eq!(
        calculate_hash(1, 1700000000, "hello", "0", 0, 1),
        "80be8688d318cd14114bbbe50cef8413b8cd559634c27932eacfc147761d05f6"
    );
    assert_eq!(
        calculate_hash(12, -5, "ab", "0", 7, 2),
        "2584ad1ebfcb92a0d966ad79f09250548514a46365d4e8999e198336b0c061e0"
    );
}

#[test]
fn leading_zero_predicate() {
    assert!(has_leading_zeros("00ab", 2));
    assert!(has_leading_zeros("00ab", 0));
    assert!(has_leading_zeros("", 0));
    assert!(!has_leading_zeros("0a0b", 2));
    assert!(!has_leading_zeros("00", 3));
    assert!(has_leading_zeros("000", 3));
}

#[test]
fn skeleton_has_no_hash_and_nonce_zero() {
    let b = sample_block(3);
    assert_eq!(b.index, 1);
    assert_eq!(b.timestamp, 1700000000);
    assert_eq!(b.nonce, 0);
    assert_eq!(b.hash, "");
    assert_eq!(b.difficulty, 3);
    assert!(!b.is_valid());
}

#[test]
fn mining_at_difficulty_one_finds_first_qualifying_nonce() {
    let mut b = sample_block(1);
    let stats = b.mine().expect("a qualifying nonce exists");
    assert_eq!(b.nonce, 20);
    assert_eq!(stats.attempts, 21);
    assert_eq!(b.hash, "01501b711c3584cebeb0c575c69c4700ff743e403518c2962f0e61d7347c6fd6");
    assert!(b.is_valid());
}

#[test]
fn mining_at_difficulty_two_finds_first_qualifying_nonce() {
    let mut b = sample_block(2);
    let stats = b.mine().expect("a qualifying nonce exists");
    assert_eq!(b.nonce, 273);
    assert_eq!(stats.attempts, 274);
    assert!(b.hash.starts_with("00"));
    assert_eq!(b.hash, b.calculate_hash());
    for n in 0..b.nonce {
        let mut probe = sample_block(2);
        assert!(!probe.try_nonce(n));
    }
}

#[test]
fn mining_restarts_from_nonce_zero() {
    let mut b = sample_block(1);
    b.nonce = 500;
    b.mine().expect("a qualifying nonce exists");
    assert_eq!(b.nonce, 20);
}

#[test]
fn mining_at_difficulty_one_terminates_quickly() {
    for i in 0..50u64 {
        let mut b = Block::with_timestamp(i, 1700000000 + i as i64, format!("trial {}", i), "0".to_string(), 1);
        let stats = b.mine().expect("a qualifying nonce exists");
        assert!(b.hash.starts_with('0'));
        assert_eq!(stats.attempts, b.nonce + 1);
        assert!(stats.attempts < 2000);
    }
}

#[test]
fn mined_block_hash_is_digest_of_its_fields() {
    let mut b = sample_block(2);
    b.mine().unwrap();
    assert_eq!(
        b.hash,
        calculate_hash(b.index, b.timestamp, &b.data, &b.previous_hash, b.nonce, b.difficulty)
    );
    assert!(has_leading_zeros(&b.hash, b.difficulty));
}

#[test]
fn try_nonce_rehashes() {
    let mut b = sample_block(1);
    assert!(!b.try_nonce(0));
    assert_eq!(b.hash, "80be8688d318cd14114bbbe50cef8413b8cd559634c27932eacfc147761d05f6");
    assert!(b.try_nonce(20));
    assert_eq!(b.nonce, 20);
}

#[test]
fn tampering_with_any_field_invalidates_block() {
    let mut mined = sample_block(2);
    mined.mine().unwrap();
    assert!(mined.is_valid());

    let mut t = mined.clone();
    t.data = "hello!".to_string();
    assert!(!t.is_valid());

    let mut t = mined.clone();
    t.index = 2;
    assert!(!t.is_valid());

    let mut t = mined.clone();
    t.timestamp += 1;
    assert!(!t.is_valid());

    let mut t = mined.clone();
    t.previous_hash = "1".to_string();
    assert!(!t.is_valid());

    let mut t = mined.clone();
    t.nonce += 1;
    assert!(!t.is_valid());

    let mut t = mined.clone();
    t.difficulty = 1;
    assert!(!t.is_valid());
}

#[test]
fn hash_that_misses_difficulty_is_invalid() {
    let mut b = sample_block(1);
    b.try_nonce(0);
    assert_eq!(b.hash, b.calculate_hash());
    assert!(!b.is_valid());
}

#[test]
fn genesis_is_mined_at_difficulty_two() {
    let g = Block::genesis_at(1700000000);
    assert_eq!(g.index, 0);
    assert_eq!(g.previous_hash, "0");
    assert_eq!(g.difficulty, 2);
    assert!(g.hash.starts_with("00"));
    assert!(g.is_valid());
    let g = Block::genesis();
    assert!(g.is_valid());
}

#[test]
fn hash_is_sixty_four_lowercase_hex_digits() {
    let h = calculate_hash(3, 4, "x", "y", 5, 6);
    assert_eq!(h.len(), 64);
    assert!(h.chars().all(|c| c.is_ascii_digit() || ('a'..='f').contains(&c)));
}

#[test]
fn block_hash_is_sixty_four_lowercase_hex_digits() {
    let b = sample_block(1);
    let h = b.calculate_hash();
    assert_eq!(h, "80be8688d318cd14114bbbe50cef8413b8cd559634c27932eacfc147761d05f6");
    assert_eq!(h.len(), 64);
    assert!(h.chars().all(|c| c.is_ascii_digit() || ('a'..='f').contains(&c)));
}
