use pow_miner::chain::next_difficulty;
use pow_miner::{Block, Blockchain, MiningMethod};

fn mined(index: u64, timestamp: i64, previous_hash: &str) -> Block {
    let mut b = Block::with_timestamp(index, timestamp, format!("block {}", index), previous_hash.to_string(), 1);
    b.mine().unwrap();
    b
}

fn chain_with_times(times: &[i64], difficulty: u64) -> Blockchain {
    let mut blocks: Vec<Block> = Vec::new();
    for (i, t) in times.iter().enumerate() {
        let prev = if i == 0 { "0".to_string() } else { blocks[i - 1].hash.clone() };
        blocks.push(mined(i as u64, *t, &prev));
    }
    Blockchain {
        chain: blocks,
        difficulty,
        target_time: 10,
        mining_stats: Vec::new(),
        manual_difficulty_changes: Vec::new(),
    }
}

#[test]
fn controller_rule_on_averages() {
    assert_eq!(next_difficulty(2, 10, 9, 3), 3);
    assert_eq!(next_difficulty(2, 10, 75, 3), 1);
    assert_eq!(next_difficulty(2, 10, 30, 3), 2);
    assert_eq!(next_difficulty(1, 10, 75, 3), 1);
    assert_eq!(next_difficulty(u64::MAX, 10, 0, 3), u64::MAX);
    // exactly half and exactly twice the target leave it alone
    assert_eq!(next_difficulty(4, 10, 15, 3), 4);
    assert_eq!(next_difficulty(4, 10, 60, 3), 4);
    assert_eq!(next_difficulty(4, 10, 14, 3), 5);
    assert_eq!(next_difficulty(4, 10, 61, 3), 3);
}

#[test]
fn controller_raises_on_fast_blocks() {
    let mut c = chain_with_times(&[0, 3, 6, 9], 2);
    c.adjust_difficulty();
    assert_eq!(c.difficulty, 3);
}

#[test]
fn controller_lowers_on_slow_blocks() {
    let mut c = chain_with_times(&[0, 25, 50, 75], 2);
    c.adjust_difficulty();
    assert_eq!(c.difficulty, 1);
    c.adjust_difficulty();
    assert_eq!(c.difficulty, 1);
}

#[test]
fn controller_keeps_on_target_blocks() {
    let mut c = chain_with_times(&[0, 10, 20, 30], 2);
    c.adjust_difficulty();
    assert_eq!(c.difficulty, 2);
}

#[test]
fn controller_ignores_single_block_chain() {
    let mut c = chain_with_times(&[0], 2);
    c.adjust_difficulty();
    assert_eq!(c.difficulty, 2);
}

#[test]
fn controller_averages_only_last_three_intervals() {
    // a long first interval falls outside the window
    let mut c = chain_with_times(&[0, 1000, 1003, 1006, 1009], 2);
    c.adjust_difficulty();
    assert_eq!(c.difficulty, 3);
    // with two blocks, the single interval is the average
    let mut c = chain_with_times(&[0, 30], 2);
    c.adjust_difficulty();
    assert_eq!(c.difficulty, 1);
}

#[test]
fn set_difficulty_rejects_zero() {
    let mut c = Blockchain::new_at(0);
    assert!(!c.set_difficulty(0));
    assert_eq!(c.difficulty, 2);
    assert!(c.manual_difficulty_changes.is_empty());
}

#[test]
fn set_difficulty_records_change() {
    let mut c = Blockchain::new_at(0);
    assert_eq!(c.difficulty, 2);
    assert!(c.set_difficulty(5));
    assert_eq!(c.difficulty, 5);
    assert_eq!(c.manual_difficulty_changes, vec![(2, 5)]);
    assert!(c.set_difficulty(11));
    assert_eq!(c.difficulty, 11);
    assert_eq!(c.manual_difficulty_changes, vec![(2, 5), (5, 11)]);
}

#[test]
fn new_chain_holds_genesis_only() {
    let c = Blockchain::new_at(1700000000);
    assert_eq!(c.chain.len(), 1);
    assert_eq!(c.chain[0].index, 0);
    assert_eq!(c.chain[0].previous_hash, "0");
    assert_eq!(c.target_time, 10);
    assert!(c.mining_stats.is_empty());
    assert!(c.is_chain_valid());
    assert_eq!(c.last_block().index, 0);
}

#[test]
fn added_blocks_are_linked_and_valid() {
    let mut c = Blockchain::new_at(0);
    c.set_difficulty(1);
    // slow blocks keep the difficulty at 1
    let s1 = c.add_mined_block_at("first".to_string(), 100).unwrap();
    let s2 = c.add_mined_block_at("second".to_string(), 200).unwrap();
    assert_eq!(c.chain.len(), 3);
    assert_eq!(c.difficulty, 1);
    for i in 1..c.chain.len() {
        assert_eq!(c.chain[i].previous_hash, c.chain[i - 1].hash);
        assert_eq!(c.chain[i].index, c.chain[i - 1].index + 1);
        assert!(c.chain[i].is_valid());
    }
    assert_eq!(c.chain[1].data, "first");
    assert_eq!(c.chain[2].timestamp, 200);
    assert_eq!(s1.attempts, c.chain[1].nonce + 1);
    assert_eq!(s2.attempts, c.chain[2].nonce + 1);
    assert_eq!(c.mining_stats.len(), 2);
    assert_eq!(c.mining_stats[0].1, MiningMethod::Normal);
    assert!(c.is_chain_valid());
}

#[test]
fn adding_a_block_adjusts_difficulty_first() {
    let mut c = Blockchain::new_at(0);
    c.set_difficulty(1);
    c.add_mined_block_at("a".to_string(), 1).unwrap();
    assert_eq!(c.difficulty, 1);
    // one interval of 1 s is under half the target
    c.add_mined_block_at("b".to_string(), 2).unwrap();
    assert_eq!(c.difficulty, 2);
    assert_eq!(c.chain[2].difficulty, 2);
    assert!(c.chain[2].hash.starts_with("00"));
}

#[test]
fn tampered_chain_is_invalid() {
    let mut c = Blockchain::new_at(0);
    c.set_difficulty(1);
    c.add_mined_block_at("a".to_string(), 100).unwrap();
    c.add_mined_block_at("b".to_string(), 200).unwrap();
    assert!(c.is_chain_valid());
    c.chain[1].data = "forged".to_string();
    assert!(!c.is_chain_valid());
}

#[test]
fn broken_link_is_invalid() {
    let mut c = chain_with_times(&[0, 100], 1);
    assert!(c.is_chain_valid());
    let replacement = mined(1, 100, "not the genesis hash");
    c.chain[1] = replacement;
    assert!(!c.is_chain_valid());
}

#[test]
fn statistics_count_methods_and_attempts() {
    let mut c = Blockchain::new_at(0);
    let st = c.statistics();
    assert_eq!(st.total_blocks, 1);
    assert_eq!(st.intervals, 0);
    assert_eq!(st.normal_blocks, 0);
    c.set_difficulty(1);
    let a = c.add_mined_block_at("a".to_string(), 100).unwrap();
    let b = c.add_mined_block_at("b".to_string(), 250).unwrap();
    c.block_competition_at("c".to_string(), 2, 400).ok().unwrap();
    let st = c.statistics();
    assert_eq!(st.total_blocks, 4);
    assert_eq!(st.intervals, 3);
    assert_eq!(st.total_mining_time, 400);
    assert_eq!(st.normal_blocks, 2);
    assert_eq!(st.competition_blocks, 1);
    assert_eq!(st.normal_attempts, (a.attempts + b.attempts) as u128);
    assert_eq!(st.normal_micros, a.elapsed_micros + b.elapsed_micros);
    assert_eq!(st.manual_changes, 1);
    assert_eq!(st.difficulty, 1);
    assert_eq!(st.target_time, 10);
}
