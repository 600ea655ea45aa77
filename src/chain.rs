//! The hash-linked chain, its difficulty controller, and the log of how each
//! block was mined.

use crate::block::{attempts_for, Block, MiningStats};
use crate::competition::{CompetitionOutcome, RaceExhausted};
use crate::digest::solvable;
use crate::sources::now_timestamp;
use vstd::prelude::*;

verus! {

/// Difficulty of a new chain.
pub const INITIAL_DIFFICULTY: u64 = 2;

/// Seconds a block should take to mine.
pub const TARGET_BLOCK_TIME: u64 = 10;

/// Above this, a manual difficulty change is accepted with a warning.
pub const DIFFICULTY_WARNING_THRESHOLD: u64 = 10;

/// Most recent intervals the controller averages over.
pub const ADJUSTMENT_WINDOW: usize = 3;

/// How a block was mined.
#[derive(Clone, Copy, Debug, PartialEq, Eq, Structural)]
pub enum MiningMethod {
    Normal,
    Competition,
}

/// The controller's rule. `total` seconds elapsed over `count` intervals:
/// an average under half the target raises the difficulty by one (saturating
/// at `u64::MAX`); an average over twice the target lowers it by one, but
/// never below 1; otherwise it stays.
pub open spec fn retarget(difficulty: u64, target: u64, total: int, count: int) -> u64 {
    if 2 * total < target * count {
        if difficulty < u64::MAX {
            (difficulty + 1) as u64
        } else {
            difficulty
        }
    } else if total > 2 * target * count && difficulty > 1 {
        (difficulty - 1) as u64
    } else {
        difficulty
    }
}

/// Number of intervals the controller averages over for a chain of `len` blocks.
pub open spec fn window(len: int) -> int {
    if len - 1 < ADJUSTMENT_WINDOW {
        len - 1
    } else {
        ADJUSTMENT_WINDOW as int
    }
}

/// Seconds between the last block of `chain` and the block `k` before it:
/// the sum of the last `k` inter-block intervals.
pub open spec fn recent_span(chain: Seq<Block>, k: int) -> int {
    chain.last().timestamp - chain[chain.len() - 1 - k].timestamp
}

/// The difficulty after the controller has looked at `chain`.
pub open spec fn adjusted_difficulty(chain: Seq<Block>, difficulty: u64, target: u64) -> u64 {
    if chain.len() < 2 {
        difficulty
    } else {
        retarget(difficulty, target, recent_span(chain, window(chain.len() as int)), window(chain.len() as int))
    }
}

/// Block `i` follows block `i - 1`: its index is one more and it records
/// that block's hash.
pub open spec fn linked(chain: Seq<Block>, i: int) -> bool {
    &&& chain[i].previous_hash@ == chain[i - 1].hash@
    &&& chain[i].index == chain[i - 1].index + 1
}

/// `new` is `old` with one valid block appended that carries `data`, is
/// stamped `timestamp`, is built at `difficulty` and follows `old`'s last block.
pub open spec fn appended(
    old: Seq<Block>,
    new: Seq<Block>,
    data: Seq<char>,
    timestamp: i64,
    difficulty: u64,
) -> bool {
    let b = new.last();
    &&& new == old.push(b)
    &&& b.index == old.len()
    &&& b.timestamp == timestamp
    &&& b.data@ == data
    &&& b.previous_hash@ == old.last().hash@
    &&& b.difficulty == difficulty
    &&& b.valid()
}

/// Every block is valid and every block after the first is linked to the
/// one before it.
pub open spec fn chain_valid(chain: Seq<Block>) -> bool {
    &&& forall|i: int| 0 <= i < chain.len() ==> (#[trigger] chain[i]).valid()
    &&& forall|i: int| 0 < i < chain.len() ==> #[trigger] linked(chain, i)
}

/// Number of log entries made by `method`.
pub open spec fn count_method(log: Seq<(MiningStats, MiningMethod)>, method: MiningMethod) -> int
    decreases log.len(),
{
    if log.len() == 0 {
        0
    } else {
        count_method(log.drop_last(), method) + if log.last().1 == method { 1int } else { 0int }
    }
}

/// Attempts summed over the sequentially mined entries of `log`.
pub open spec fn normal_attempts(log: Seq<(MiningStats, MiningMethod)>) -> int
    decreases log.len(),
{
    if log.len() == 0 {
        0
    } else {
        normal_attempts(log.drop_last()) + if log.last().1 == MiningMethod::Normal {
            log.last().0.attempts as int
        } else {
            0int
        }
    }
}

/// Microseconds summed over the sequentially mined entries of `log`, the
/// running sum saturating at `u128::MAX`.
pub open spec fn normal_micros(log: Seq<(MiningStats, MiningMethod)>) -> u128
    decreases log.len(),
{
    if log.len() == 0 {
        0
    } else if log.last().1 == MiningMethod::Normal {
        let s = normal_micros(log.drop_last()) + log.last().0.elapsed_micros;
        if s > u128::MAX {
            u128::MAX
        } else {
            s as u128
        }
    } else {
        normal_micros(log.drop_last())
    }
}

/// The ordered blocks, the current difficulty, the target block time, a log
/// entry for every block after the first, and the manual difficulty changes
/// as (from, to) pairs.
pub struct Blockchain {
    pub chain: Vec<Block>,
    pub difficulty: u64,
    pub target_time: u64,
    pub mining_stats: Vec<(MiningStats, MiningMethod)>,
    pub manual_difficulty_changes: Vec<(u64, u64)>,
}

/// Aggregates over a chain. Averages are left to the reader as the ratio
/// of a total to its count.
pub struct ChainStatistics {
    pub total_blocks: usize,
    pub difficulty: u64,
    pub target_time: u64,
    /// Seconds from the first block to the last: the sum of all intervals.
    pub total_mining_time: i128,
    /// Number of intervals, one fewer than the blocks.
    pub intervals: usize,
    pub normal_blocks: usize,
    pub competition_blocks: usize,
    /// Attempts over the sequentially mined blocks.
    pub normal_attempts: u128,
    /// Microseconds over the sequentially mined blocks, saturating.
    pub normal_micros: u128,
    pub manual_changes: usize,
}

proof fn lemma_counts_bounded(log: Seq<(MiningStats, MiningMethod)>)
    ensures
        0 <= count_method(log, MiningMethod::Normal) <= log.len(),
        0 <= count_method(log, MiningMethod::Competition) <= log.len(),
        count_method(log, MiningMethod::Normal) + count_method(log, MiningMethod::Competition)
            == log.len(),
        0 <= normal_attempts(log) <= log.len() * (u64::MAX as int),
    decreases log.len(),
{
    if log.len() > 0 {
        lemma_counts_bounded(log.drop_last());
        assert((log.len() - 1) * (u64::MAX as int) + u64::MAX == log.len() * (u64::MAX as int))
            by (nonlinear_arith);
    }
}

impl Blockchain {
    /// The chain is well formed: it starts with a genesis block of index 0
    /// that records the sentinel hash "0", every block is valid and linked to
    /// the one before it, the difficulty is at least 1, and there is one log
    /// entry for each block after the first.
    pub open spec fn wf(&self) -> bool {
        &&& self.chain@.len() >= 1
        &&& self.chain@[0].index == 0
        &&& self.chain@[0].previous_hash@ == seq!['0']
        &&& forall|i: int| 0 <= i < self.chain@.len() ==> (#[trigger] self.chain@[i]).valid()
        &&& forall|i: int| 0 < i < self.chain@.len() ==> #[trigger] linked(self.chain@, i)
        &&& self.difficulty >= 1
        &&& self.mining_stats@.len() == self.chain@.len() - 1
    }

    /// A chain holding only a genesis block created at `timestamp`.
    pub fn new_at(timestamp: i64) -> (r: Blockchain)
        ensures
            r.chain@[0].difficulty == 2 || (r.chain@[0].difficulty == 0 && !solvable(
                0,
                r.chain@[0].timestamp,
                r.chain@[0].data@,
                r.chain@[0].previous_hash@,
                2,
            )),
            r.wf(),
            r.chain@.len() == 1,
            r.chain@[0].timestamp == timestamp,
            r.difficulty == INITIAL_DIFFICULTY,
            r.target_time == TARGET_BLOCK_TIME,
            r.manual_difficulty_changes@.len() == 0,
    {
        let mut chain: Vec<Block> = Vec::new();
        chain.push(Block::genesis_at(timestamp));
        Blockchain {
            chain,
            difficulty: INITIAL_DIFFICULTY,
            target_time: TARGET_BLOCK_TIME,
            mining_stats: Vec::new(),
            manual_difficulty_changes: Vec::new(),
        }
    }

    /// A chain holding only a genesis block stamped with the current time.
    pub fn new() -> (r: Blockchain)
        ensures
            r.chain@[0].difficulty == 2 || (r.chain@[0].difficulty == 0 && !solvable(
                0,
                r.chain@[0].timestamp,
                r.chain@[0].data@,
                r.chain@[0].previous_hash@,
                2,
            )),
            r.wf(),
            r.chain@.len() == 1,
            r.difficulty == INITIAL_DIFFICULTY,
            r.target_time == TARGET_BLOCK_TIME,
            r.manual_difficulty_changes@.len() == 0,
    {
        Blockchain::new_at(now_timestamp())
    }

    /// The last block.
    pub fn last_block(&self) -> (r: &Block)
        requires
            self.wf(),
        ensures
            *r == self.chain@.last(),
    {
        &self.chain[self.chain.len() - 1]
    }

    /// Averages the last `min(3, len - 1)` inter-block intervals and moves
    /// the difficulty by the controller's rule. Does nothing on a chain of
    /// one block.
    pub fn adjust_difficulty(&mut self)
        requires
            old(self).chain@.len() >= 1,
        ensures
            final(self).chain == old(self).chain,
            final(self).target_time == old(self).target_time,
            final(self).mining_stats == old(self).mining_stats,
            final(self).manual_difficulty_changes == old(self).manual_difficulty_changes,
            final(self).difficulty == adjusted_difficulty(
                old(self).chain@,
                old(self).difficulty,
                old(self).target_time,
            ),
    {
        let len = self.chain.len();
        if len < 2 {
            return;
        }
        let recent: usize = if len - 1 < ADJUSTMENT_WINDOW {
            len - 1
        } else {
            ADJUSTMENT_WINDOW
        };
        let first = len - recent;
        let mut total_time: i128 = 0;
        let mut i: usize = first;
        while i < len
            invariant
                1 <= first <= i <= len,
                len == self.chain@.len(),
                total_time == self.chain@[i - 1].timestamp - self.chain@[first - 1].timestamp,
            decreases len - i,
        {
            total_time = total_time + (self.chain[i].timestamp as i128 - self.chain[i - 1].timestamp as i128);
            i = i + 1;
        }
        self.difficulty = next_difficulty(self.difficulty, self.target_time, total_time, recent as u64);
    }

    /// Shared preamble of both ways of mining: the index and hash of the
    /// last block, then the difficulty adjustment.
    fn prepare(&mut self) -> (r: (u64, String))
        requires
            old(self).wf(),
        ensures
            final(self).chain == old(self).chain,
            final(self).target_time == old(self).target_time,
            final(self).mining_stats == old(self).mining_stats,
            final(self).manual_difficulty_changes == old(self).manual_difficulty_changes,
            final(self).difficulty == adjusted_difficulty(
                old(self).chain@,
                old(self).difficulty,
                old(self).target_time,
            ),
            final(self).wf(),
            r.0 == old(self).chain@.len(),
            r.0 == old(self).chain@.last().index + 1,
            r.1@ == old(self).chain@.last().hash@,
    {
        proof {
            self.lemma_index_is_position();
        }
        let len = self.chain.len();
        let last = self.last_block();
        proof {
            assert(self.chain@[len - 1].index == len - 1);
        }
        let new_index = last.index + 1;
        let last_hash = last.hash.clone();
        self.adjust_difficulty();
        (new_index, last_hash)
    }

    pub(crate) proof fn lemma_index_is_position(&self)
        requires
            self.wf(),
        ensures
            forall|i: int| 0 <= i < self.chain@.len() ==> #[trigger] self.chain@[i].index == i,
    {
        assert forall|i: int| 0 <= i < self.chain@.len() implies #[trigger] self.chain@[i].index == i by {
            self.lemma_index_at(i);
        }
    }

    proof fn lemma_index_at(&self, i: int)
        requires
            self.wf(),
            0 <= i < self.chain@.len(),
        ensures
            self.chain@[i].index == i,
        decreases i,
    {
        if i > 0 {
            self.lemma_index_at(i - 1);
            assert(linked(self.chain@, i));
        }
    }

    /// Appends a mined block carrying `data`, stamped `timestamp`: adjusts the
    /// difficulty, builds a block on the last one at the new difficulty, mines
    /// it sequentially and logs the result as `Normal`. `None`, and no block
    /// added, exactly when no `u64` nonce qualifies.
    pub fn add_mined_block_at(&mut self, data: String, timestamp: i64) -> (r: Option<MiningStats>)
        requires
            old(self).wf(),
        ensures
            final(self).wf(),
            final(self).target_time == old(self).target_time,
            final(self).manual_difficulty_changes == old(self).manual_difficulty_changes,
            final(self).difficulty == adjusted_difficulty(
                old(self).chain@,
                old(self).difficulty,
                old(self).target_time,
            ),
            r is Some <==> solvable(
                old(self).chain@.len() as u64,
                timestamp,
                data@,
                old(self).chain@.last().hash@,
                final(self).difficulty,
            ),
            match r {
                Some(stats) => {
                    &&& appended(old(self).chain@, final(self).chain@, data@, timestamp, final(self).difficulty)
                    &&& stats.attempts == attempts_for(final(self).chain@.last().nonce)
                    &&& final(self).mining_stats@ == old(self).mining_stats@.push(
                        (stats, MiningMethod::Normal),
                    )
                },
                None => {
                    &&& final(self).chain@ == old(self).chain@
                    &&& final(self).mining_stats@ == old(self).mining_stats@
                },
            },
    {
        let (new_index, last_hash) = self.prepare();
        let mut block = Block::with_timestamp(new_index, timestamp, data, last_hash, self.difficulty);
        match block.mine() {
            Some(stats) => {
                self.chain.push(block);
                self.mining_stats.push((stats, MiningMethod::Normal));
                proof {
                    self.lemma_push_keeps_wf(old(self));
                }
                Some(stats)
            },
            None => None,
        }
    }

    proof fn lemma_push_keeps_wf(&self, prior: &Blockchain)
        requires
            prior.wf(),
            self.difficulty >= 1,
            self.chain@ == prior.chain@.push(self.chain@.last()),
            self.chain@.last().valid(),
            self.chain@.last().previous_hash@ == prior.chain@.last().hash@,
            self.chain@.last().index == prior.chain@.last().index + 1,
            self.mining_stats@.len() == prior.mining_stats@.len() + 1,
        ensures
            self.wf(),
    {
        assert(linked(self.chain@, self.chain@.len() - 1));
        assert forall|i: int| 0 < i < self.chain@.len() implies #[trigger] linked(self.chain@, i) by {
            if i < self.chain@.len() - 1 {
                assert(linked(prior.chain@, i));
            }
        }
        assert forall|i: int| 0 <= i < self.chain@.len() implies (#[trigger] self.chain@[i]).valid() by {
            if i < self.chain@.len() - 1 {
                assert(prior.chain@[i].valid());
            }
        }
    }

    /// Appends a mined block carrying `data`, stamped with the current time.
    /// `None`, and no block added, only when at the time it was stamped no
    /// `u64` nonce qualified.
    pub fn add_mined_block(&mut self, data: String) -> (r: Option<MiningStats>)
        requires
            old(self).wf(),
        ensures
            final(self).wf(),
            final(self).target_time == old(self).target_time,
            final(self).manual_difficulty_changes == old(self).manual_difficulty_changes,
            final(self).difficulty == adjusted_difficulty(
                old(self).chain@,
                old(self).difficulty,
                old(self).target_time,
            ),
            match r {
                Some(stats) => {
                    &&& appended(
                        old(self).chain@,
                        final(self).chain@,
                        data@,
                        final(self).chain@.last().timestamp,
                        final(self).difficulty,
                    )
                    &&& stats.attempts == attempts_for(final(self).chain@.last().nonce)
                    &&& final(self).mining_stats@ == old(self).mining_stats@.push(
                        (stats, MiningMethod::Normal),
                    )
                },
                None => {
                    &&& final(self).chain@ == old(self).chain@
                    &&& final(self).mining_stats@ == old(self).mining_stats@
                    &&& exists|t: i64|
                        !(#[trigger] solvable(
                            old(self).chain@.len() as u64,
                            t,
                            data@,
                            old(self).chain@.last().hash@,
                            final(self).difficulty,
                        ))
                },
            },
    {
        let timestamp = now_timestamp();
        self.add_mined_block_at(data, timestamp)
    }

    /// Appends a block carrying `data`, stamped `timestamp`, won in a race
    /// between `num_miners` miners: adjusts the difficulty, builds a block on
    /// the last one, runs the race and logs it as `Competition` with zeroed
    /// statistics. Hands back the winner's id (from 1) and every miner's
    /// attempts. On `Err`, and no block added, every attempt of the race
    /// failed and its count ran out of room in a `u64`.
    pub fn block_competition_at(&mut self, data: String, num_miners: u32, timestamp: i64) -> (r:
        Result<(u32, Vec<u64>), RaceExhausted>)
        requires
            old(self).wf(),
            num_miners >= 1,
        ensures
            final(self).wf(),
            final(self).target_time == old(self).target_time,
            final(self).manual_difficulty_changes == old(self).manual_difficulty_changes,
            final(self).difficulty == adjusted_difficulty(
                old(self).chain@,
                old(self).difficulty,
                old(self).target_time,
            ),
            match r {
                Ok((winner, attempts)) => {
                    &&& appended(old(self).chain@, final(self).chain@, data@, timestamp, final(self).difficulty)
                    &&& 1 <= winner <= num_miners
                    &&& attempts@.len() == num_miners
                    &&& attempts@[winner - 1] > 0
                    &&& final(self).mining_stats@ == old(self).mining_stats@.push(
                        (MiningStats { attempts: 0, elapsed_micros: 0 }, MiningMethod::Competition),
                    )
                },
                Err(e) => {
                    &&& e.exhausted_for(
                        old(self).chain@.len() as u64,
                        timestamp,
                        data@,
                        old(self).chain@.last().hash@,
                        final(self).difficulty,
                        num_miners,
                    )
                    &&& final(self).chain@ == old(self).chain@
                    &&& final(self).mining_stats@ == old(self).mining_stats@
                },
            },
    {
        let (new_index, last_hash) = self.prepare();
        let block = Block::with_timestamp(new_index, timestamp, data, last_hash, self.difficulty);
        match block.mining_competition(num_miners) {
            Ok(outcome) => {
                let CompetitionOutcome { block: mined, winner, attempts_per_miner, .. } = outcome;
                self.chain.push(mined);
                self.mining_stats.push(
                    (MiningStats { attempts: 0, elapsed_micros: 0 }, MiningMethod::Competition),
                );
                proof {
                    self.lemma_push_keeps_wf(old(self));
                }
                Ok((winner, attempts_per_miner))
            },
            Err(e) => Err(e),
        }
    }

    /// Appends a block won in a race, stamped with the current time.
    pub fn block_competition(&mut self, data: String, num_miners: u32) -> (r: Result<
        (u32, Vec<u64>),
        RaceExhausted,
    >)
        requires
            old(self).wf(),
            num_miners >= 1,
        ensures
            final(self).wf(),
            final(self).target_time == old(self).target_time,
            final(self).manual_difficulty_changes == old(self).manual_difficulty_changes,
            final(self).difficulty == adjusted_difficulty(
                old(self).chain@,
                old(self).difficulty,
                old(self).target_time,
            ),
            match r {
                Ok((winner, attempts)) => {
                    &&& appended(
                        old(self).chain@,
                        final(self).chain@,
                        data@,
                        final(self).chain@.last().timestamp,
                        final(self).difficulty,
                    )
                    &&& 1 <= winner <= num_miners
                    &&& attempts@.len() == num_miners
                    &&& attempts@[winner - 1] > 0
                    &&& final(self).mining_stats@ == old(self).mining_stats@.push(
                        (MiningStats { attempts: 0, elapsed_micros: 0 }, MiningMethod::Competition),
                    )
                },
                Err(e) => {
                    &&& exists|t: i64|
                        #[trigger] e.exhausted_for(
                            old(self).chain@.len() as u64,
                            t,
                            data@,
                            old(self).chain@.last().hash@,
                            final(self).difficulty,
                            num_miners,
                        )
                    &&& final(self).chain@ == old(self).chain@
                    &&& final(self).mining_stats@ == old(self).mining_stats@
                },
            },
    {
        let timestamp = now_timestamp();
        self.block_competition_at(data, num_miners, timestamp)
    }

    /// Sets the difficulty by hand. Refuses 0 and changes nothing; otherwise
    /// records (old, new) in the audit log and takes the new value.
    pub fn set_difficulty(&mut self, new_difficulty: u64) -> (r: bool)
        requires
            old(self).wf(),
        ensures
            final(self).wf(),
            r == (new_difficulty != 0),
            final(self).chain == old(self).chain,
            final(self).target_time == old(self).target_time,
            final(self).mining_stats == old(self).mining_stats,
            r ==> final(self).difficulty == new_difficulty,
            r ==> final(self).manual_difficulty_changes@ == old(self).manual_difficulty_changes@.push(
                (old(self).difficulty, new_difficulty),
            ),
            !r ==> final(self).difficulty == old(self).difficulty,
            !r ==> final(self).manual_difficulty_changes == old(self).manual_difficulty_changes,
    {
        if new_difficulty == 0 {
            return false;
        }
        let old_difficulty = self.difficulty;
        self.manual_difficulty_changes.push((old_difficulty, new_difficulty));
        self.difficulty = new_difficulty;
        true
    }

    /// Whether every block is valid and linked to the one before it.
    pub fn is_chain_valid(&self) -> (r: bool)
        ensures
            r == chain_valid(self.chain@),
    {
        let len = self.chain.len();
        let mut i: usize = 0;
        while i < len
            invariant
                i <= len,
                len == self.chain@.len(),
                forall|j: int| 0 <= j < i ==> (#[trigger] self.chain@[j]).valid(),
                forall|j: int| 0 < j < i ==> #[trigger] linked(self.chain@, j),
            decreases len - i,
        {
            if !self.chain[i].is_valid() {
                return false;
            }
            if i > 0 {
                if !(self.chain[i].previous_hash == self.chain[i - 1].hash) {
                    assert(!linked(self.chain@, i as int));
                    return false;
                }
                let previous_index = self.chain[i - 1].index;
                if previous_index == u64::MAX || self.chain[i].index != previous_index + 1 {
                    assert(!linked(self.chain@, i as int));
                    return false;
                }
            }
            i = i + 1;
        }
        true
    }

    /// Counts and totals over the chain and its mining log.
    pub fn statistics(&self) -> (r: ChainStatistics)
        requires
            self.wf(),
        ensures
            r.total_blocks == self.chain@.len(),
            r.difficulty == self.difficulty,
            r.target_time == self.target_time,
            r.total_mining_time == self.chain@.last().timestamp - self.chain@[0].timestamp,
            r.intervals == self.chain@.len() - 1,
            r.normal_blocks == count_method(self.mining_stats@, MiningMethod::Normal),
            r.competition_blocks == count_method(self.mining_stats@, MiningMethod::Competition),
            r.normal_attempts == normal_attempts(self.mining_stats@),
            r.normal_micros == normal_micros(self.mining_stats@),
            r.manual_changes == self.manual_difficulty_changes@.len(),
    {
        let len = self.chain.len();
        let total_mining_time = self.chain[len - 1].timestamp as i128 - self.chain[0].timestamp as i128;
        let log_len = self.mining_stats.len();
        let mut normal_blocks: usize = 0;
        let mut competition_blocks: usize = 0;
        let mut attempts: u128 = 0;
        let mut micros: u128 = 0;
        let mut i: usize = 0;
        while i < log_len
            invariant
                i <= log_len,
                log_len == self.mining_stats@.len(),
                normal_blocks == count_method(self.mining_stats@.subrange(0, i as int), MiningMethod::Normal),
                competition_blocks == count_method(
                    self.mining_stats@.subrange(0, i as int),
                    MiningMethod::Competition,
                ),
                attempts == normal_attempts(self.mining_stats@.subrange(0, i as int)),
                micros == normal_micros(self.mining_stats@.subrange(0, i as int)),
            decreases log_len - i,
        {
            let ghost prefix = self.mining_stats@.subrange(0, i as int);
            let ghost next = self.mining_stats@.subrange(0, i + 1);
            proof {
                assert(next.drop_last() =~= prefix);
                lemma_counts_bounded(prefix);
                assert(i * (u64::MAX as int) <= usize::MAX * (u64::MAX as int)) by (nonlinear_arith)
                    requires
                        i <= usize::MAX,
                ;
                assert(usize::MAX * (u64::MAX as int) + u64::MAX <= u128::MAX) by (nonlinear_arith)
                    requires
                        usize::MAX <= u64::MAX,
                ;
            }
            let (stats, method) = self.mining_stats[i];
            match method {
                MiningMethod::Normal => {
                    normal_blocks = normal_blocks + 1;
                    attempts = attempts + stats.attempts as u128;
                    micros = micros.saturating_add(stats.elapsed_micros);
                },
                MiningMethod::Competition => {
                    competition_blocks = competition_blocks + 1;
                },
            }
            i = i + 1;
        }
        assert(self.mining_stats@.subrange(0, log_len as int) =~= self.mining_stats@);
        ChainStatistics {
            total_blocks: len,
            difficulty: self.difficulty,
            target_time: self.target_time,
            total_mining_time,
            intervals: len - 1,
            normal_blocks,
            competition_blocks,
            normal_attempts: attempts,
            normal_micros: micros,
            manual_changes: self.manual_difficulty_changes.len(),
        }
    }
}

/// The controller's decision for `total_time` seconds over `intervals`
/// intervals at the given difficulty and target.
pub fn next_difficulty(difficulty: u64, target_time: u64, total_time: i128, intervals: u64) -> (r: u64)
    requires
        -0x1_0000_0000_0000_0000_0000 < total_time < 0x1_0000_0000_0000_0000_0000,
        intervals <= 3,
    ensures
        r == retarget(difficulty, target_time, total_time as int, intervals as int),
{
    assert(0 <= target_time * intervals <= u64::MAX * 3) by (nonlinear_arith)
        requires
            intervals <= 3,
    ;
    let scaled_target: i128 = target_time as i128 * intervals as i128;
    assert(2 * scaled_target == 2 * target_time * intervals) by (nonlinear_arith)
        requires
            scaled_target == target_time * intervals,
    ;
    if 2 * total_time < scaled_target {
        if difficulty < u64::MAX {
            difficulty + 1
        } else {
            difficulty
        }
    } else if total_time > 2 * scaled_target && difficulty > 1 {
        difficulty - 1
    } else {
        difficulty
    }
}

} // verus!
