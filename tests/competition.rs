use pow_miner::{BatchResult, Block, Blockchain, MiningMethod};

fn skeleton(difficulty: u64) -> Block {
    Block::with_timestamp(1, 1700000000, "race".to_string(), "0".to_string(), difficulty)
}

#[test]
fn single_miner_race_is_a_plain_search() {
    for _ in 0..5 {
        let o = skeleton(2).mining_competition(1).ok().unwrap();
        assert_eq!(o.winner, 1);
        assert_eq!(o.attempts_per_miner.len(), 1);
        assert_eq!(o.total_attempts, o.attempts_per_miner[0]);
        assert!(o.block.is_valid());
    }
}

#[test]
fn race_between_several_miners() {
    let o = skeleton(2).mining_competition(4).ok().unwrap();
    assert!(o.winner >= 1 && o.winner <= 4);
    assert_eq!(o.attempts_per_miner.len(), 4);
    assert!(o.attempts_per_miner[(o.winner - 1) as usize] > 0);
    assert_eq!(o.total_attempts, o.attempts_per_miner.iter().sum::<u64>());
    assert!(o.block.is_valid());
    assert!(o.block.hash.starts_with("00"));
    assert_eq!(o.block.data, "race");
    assert_eq!(o.block.index, 1);
    assert_eq!(o.block.timestamp, 1700000000);
}

#[test]
fn miners_before_the_winner_spend_a_full_batch() {
    let o = skeleton(3).mining_competition(3).ok().unwrap();
    for i in 0..(o.winner - 1) as usize {
        assert!(o.attempts_per_miner[i] >= 1000);
    }
}

#[test]
fn competition_block_joins_chain() {
    let mut c = Blockchain::new_at(0);
    c.set_difficulty(1);
    let (winner, attempts) = c.block_competition_at("contest".to_string(), 3, 100).ok().unwrap();
    assert!(winner >= 1 && winner <= 3);
    assert_eq!(attempts.len(), 3);
    assert_eq!(c.chain.len(), 2);
    assert_eq!(c.chain[1].previous_hash, c.chain[0].hash);
    assert!(c.chain[1].is_valid());
    assert_eq!(c.mining_stats[0].1, MiningMethod::Competition);
    assert_eq!(c.mining_stats[0].0.attempts, 0);
    assert!(c.is_chain_valid());
}

fn hello_block(difficulty: u64) -> Block {
    Block::with_timestamp(1, 1700000000, "hello".to_string(), "0".to_string(), difficulty)
}

#[test]
fn race_at_difficulty_zero_is_won_by_first_attempt() {
    let o = skeleton(0).mining_competition(3).ok().unwrap();
    assert_eq!(o.winner, 1);
    assert_eq!(o.total_attempts, 1);
    assert_eq!(o.attempts_per_miner, vec![1, 0, 0]);
    assert!(o.block.is_valid());
}

#[test]
fn batch_stops_at_first_qualifying_nonce() {
    // at difficulty 1, nonce 20 is the first that qualifies for this block
    let mut b = hello_block(1);
    let mut attempts = vec![5u64, 7];
    let mut total = 12u64;
    let r = b.race_batch(1, &vec![0, 1, 20, 5], &mut attempts, &mut total);
    assert!(matches!(r, BatchResult::Won(2)));
    assert_eq!(b.nonce, 20);
    assert!(b.is_valid());
    assert_eq!(attempts, vec![5, 10]);
    assert_eq!(total, 15);
}

#[test]
fn batch_without_qualifying_nonce_is_missed() {
    let mut b = hello_block(1);
    let mut attempts = vec![0u64, 0];
    let mut total = 0u64;
    let r = b.race_batch(0, &vec![0, 1, 2], &mut attempts, &mut total);
    assert!(matches!(r, BatchResult::Missed));
    assert_eq!(attempts, vec![3, 0]);
    assert_eq!(total, 3);
}

#[test]
fn batch_that_would_overflow_total_is_not_started() {
    let mut b = hello_block(1);
    let mut attempts = vec![u64::MAX - 1];
    let mut total = u64::MAX - 1;
    let r = b.race_batch(0, &vec![20, 21], &mut attempts, &mut total);
    assert!(matches!(r, BatchResult::TooMany));
    assert_eq!(b.nonce, 0);
    assert_eq!(b.hash, "");
    assert_eq!(attempts, vec![u64::MAX - 1]);
    assert_eq!(total, u64::MAX - 1);
}
