//! A simulated race between miners who draw nonces at random.

use crate::block::Block;
use crate::digest::{block_digest, meets_difficulty};
use crate::sources::{random_in_range, random_u64};
use vstd::prelude::*;

verus! {

/// Fewest attempts a miner makes in one round.
pub const MIN_BATCH: u32 = 1000;

/// One more than the most attempts a miner makes in one round.
pub const MAX_BATCH: u32 = 5000;

/// The sum of a sequence of counters.
pub open spec fn seq_sum(s: Seq<u64>) -> int
    decreases s.len(),
{
    if s.len() == 0 {
        0
    } else {
        seq_sum(s.drop_last()) + s.last()
    }
}

proof fn lemma_sum_bounds_element(s: Seq<u64>, i: int)
    requires
        0 <= i < s.len(),
    ensures
        s[i] <= seq_sum(s),
        0 <= seq_sum(s),
    decreases s.len(),
{
    let t = s.drop_last();
    if t.len() > 0 {
        lemma_sum_bounds_element(t, if i < t.len() { i } else { 0 });
    }
    assert(seq_sum(s) == seq_sum(t) + s.last());
    if i < t.len() {
        assert(t[i] == s[i]);
    }
}

proof fn lemma_sum_update(s: Seq<u64>, i: int, v: u64)
    requires
        0 <= i < s.len(),
    ensures
        seq_sum(s.update(i, v)) == seq_sum(s) - s[i] + v,
    decreases s.len(),
{
    if i < s.len() - 1 {
        lemma_sum_update(s.drop_last(), i, v);
        assert(s.update(i, v).drop_last() =~= s.drop_last().update(i, v));
    } else {
        assert(s.update(i, v).drop_last() =~= s.drop_last());
    }
}

proof fn lemma_sum_zeros(s: Seq<u64>)
    requires
        forall|i: int| 0 <= i < s.len() ==> s[i] == 0,
    ensures
        seq_sum(s) == 0,
    decreases s.len(),
{
    if s.len() > 0 {
        lemma_sum_zeros(s.drop_last());
    }
}

/// How one miner's batch of attempts ended.
pub enum BatchResult {
    /// The nonce at this position of the batch was the first to qualify.
    Won(usize),
    /// No nonce of the batch qualified.
    Missed,
    /// The batch was not started: its attempts would push the total past
    /// `u64::MAX`.
    TooMany,
}

/// What a competition hands back: the mined block, the winner's id
/// (counted from 1), every miner's attempts, and every nonce tried in order.
pub struct CompetitionOutcome {
    pub block: Block,
    pub winner: u32,
    pub attempts_per_miner: Vec<u64>,
    pub total_attempts: u64,
    pub tried: Ghost<Seq<u64>>,
}

/// What a race that ran out of room hands back: every miner's attempts, their
/// total, and every nonce tried in order.
pub struct RaceExhausted {
    pub attempts_per_miner: Vec<u64>,
    pub total_attempts: u64,
    pub tried: Ghost<Seq<u64>>,
}

impl RaceExhausted {
    /// A race between `num_miners` miners on a block with these fields that
    /// stopped because another batch would push its total past `u64::MAX`:
    /// every nonce tried failed, and the counts add up.
    pub open spec fn exhausted_for(
        &self,
        index: u64,
        timestamp: i64,
        data: Seq<char>,
        previous_hash: Seq<char>,
        difficulty: u64,
        num_miners: u32,
    ) -> bool {
        &&& self.attempts_per_miner@.len() == num_miners
        &&& self.total_attempts == seq_sum(self.attempts_per_miner@)
        &&& self.total_attempts > u64::MAX - MAX_BATCH
        &&& self.tried@.len() == self.total_attempts
        &&& forall|i: int|
            0 <= i < self.tried@.len() ==> !meets_difficulty(
                #[trigger] block_digest(index, timestamp, data, previous_hash, self.tried@[i], difficulty),
                difficulty as nat,
            )
    }
}

impl CompetitionOutcome {
    /// The outcome of a race between `num_miners` miners on `start`: the
    /// block is `start` with a qualifying nonce, which was the last nonce
    /// tried, and every nonce tried before it failed; the winner is one of
    /// the miners and made at least one attempt, every miner ahead of it in
    /// the round order finished a whole batch, and the total is both the
    /// number of nonces tried and the sum of the per-miner counts.
    pub open spec fn wins(&self, start: Block, num_miners: u32) -> bool {
        &&& self.block.same_header(&start)
        &&& self.block.valid()
        &&& 1 <= self.winner <= num_miners
        &&& self.attempts_per_miner@.len() == num_miners
        &&& self.attempts_per_miner@[self.winner - 1] > 0
        &&& self.total_attempts == seq_sum(self.attempts_per_miner@)
        &&& forall|j: int| 0 <= j < self.winner - 1 ==> self.attempts_per_miner@[j] >= MIN_BATCH
        &&& self.tried@.len() == self.total_attempts
        &&& self.tried@.last() == self.block.nonce
        &&& forall|i: int| 0 <= i < self.tried@.len() - 1 ==> !start.qualifies(#[trigger] self.tried@[i])
    }
}

impl Block {
    /// The digest of this block's fields with `nonce` satisfies its difficulty.
    pub open spec fn qualifies(&self, nonce: u64) -> bool {
        meets_difficulty(self.digest_with(nonce), self.difficulty as nat)
    }

    /// One miner's turn in a race: tries `nonces` in order and stops at the
    /// first that qualifies, charging the attempts made to `miner` and to
    /// the running total. A batch whose attempts could push the total past
    /// `u64::MAX` is not started.
    pub fn race_batch(
        &mut self,
        miner: usize,
        nonces: &Vec<u64>,
        attempts: &mut Vec<u64>,
        total: &mut u64,
    ) -> (r: BatchResult)
        requires
            miner < old(attempts)@.len(),
            seq_sum(old(attempts)@) == *old(total),
        ensures
            final(self).same_header(old(self)),
            final(attempts)@.len() == old(attempts)@.len(),
            seq_sum(final(attempts)@) == *final(total),
            match r {
                BatchResult::Won(j) => {
                    &&& *old(total) + nonces@.len() <= u64::MAX
                    &&& j < nonces@.len()
                    &&& old(self).qualifies(nonces@[j as int])
                    &&& forall|i: int| 0 <= i < j ==> !old(self).qualifies(#[trigger] nonces@[i])
                    &&& final(self).nonce == nonces@[j as int]
                    &&& final(self).hash_matches()
                    &&& final(attempts)@ == old(attempts)@.update(
                        miner as int,
                        (old(attempts)@[miner as int] + j + 1) as u64,
                    )
                    &&& *final(total) == *old(total) + j + 1
                },
                BatchResult::Missed => {
                    &&& *old(total) + nonces@.len() <= u64::MAX
                    &&& forall|i: int| 0 <= i < nonces@.len() ==> !old(self).qualifies(#[trigger] nonces@[i])
                    &&& final(attempts)@ == old(attempts)@.update(
                        miner as int,
                        (old(attempts)@[miner as int] + nonces@.len()) as u64,
                    )
                    &&& *final(total) == *old(total) + nonces@.len()
                },
                BatchResult::TooMany => {
                    &&& *old(total) + nonces@.len() > u64::MAX
                    &&& *final(self) == *old(self)
                    &&& final(attempts)@ == old(attempts)@
                    &&& *final(total) == *old(total)
                },
            },
    {
        let len = nonces.len();
        if len as u64 > u64::MAX - *total {
            return BatchResult::TooMany;
        }
        let mut i: usize = 0;
        let mut hit = false;
        while !hit && i < len
            invariant
                i <= len,
                len == nonces@.len(),
                self.same_header(old(self)),
                forall|k: int| 0 <= k < i ==> !old(self).qualifies(#[trigger] nonces@[k]),
                hit ==> i < len && self.nonce == nonces@[i as int] && self.hash_matches()
                    && old(self).qualifies(nonces@[i as int]),
            decreases 2 * (len - i) + (if hit { 0int } else { 1int }),
        {
            if self.try_nonce(nonces[i]) {
                hit = true;
            } else {
                i = i + 1;
            }
        }
        let used: u64 = if hit {
            (i + 1) as u64
        } else {
            len as u64
        };
        proof {
            lemma_sum_bounds_element(attempts@, miner as int);
            lemma_sum_update(attempts@, miner as int, (attempts@[miner as int] + used) as u64);
        }
        attempts.set(miner, attempts[miner] + used);
        *total = *total + used;
        if hit {
            BatchResult::Won(i)
        } else {
            BatchResult::Missed
        }
    }

    /// Races `num_miners` simulated miners for this block. In each round every
    /// miner, in order of id, draws a batch of `MIN_BATCH..MAX_BATCH` random
    /// nonces and tries them in turn; the first attempt whose hash satisfies
    /// the difficulty wins. At difficulty 0 the very first attempt wins. On
    /// `Err` every attempt failed and the total leaves no room in a `u64` for
    /// another batch.
    pub fn mining_competition(self, num_miners: u32) -> (r: Result<CompetitionOutcome, RaceExhausted>)
        requires
            num_miners >= 1,
        ensures
            match r {
                Ok(o) => o.wins(self, num_miners),
                Err(e) => e.exhausted_for(
                    self.index,
                    self.timestamp,
                    self.data@,
                    self.previous_hash@,
                    self.difficulty,
                    num_miners,
                ),
            },
            self.difficulty == 0 ==> (r matches Ok(o) && o.winner == 1 && o.total_attempts == 1),
    {
        let mut block = self;
        let mut attempts: Vec<u64> = Vec::new();
        while attempts.len() < num_miners as usize
            invariant
                attempts@.len() <= num_miners,
                forall|i: int| 0 <= i < attempts@.len() ==> attempts@[i] == 0,
            decreases num_miners - attempts@.len(),
        {
            attempts.push(0);
        }
        proof {
            lemma_sum_zeros(attempts@);
        }
        let mut total: u64 = 0;
        let ghost mut tried: Seq<u64> = Seq::empty();
        loop
            invariant
                block.same_header(&self),
                attempts@.len() == num_miners,
                seq_sum(attempts@) == total,
                num_miners >= 1,
                tried.len() == total,
                forall|i: int| 0 <= i < tried.len() ==> !self.qualifies(#[trigger] tried[i]),
                self.difficulty == 0 ==> total == 0,
            decreases u64::MAX - total,
        {
            let ghost round_start = total;
            let mut miner: u32 = 0;
            while miner < num_miners
                invariant
                    block.same_header(&self),
                    attempts@.len() == num_miners,
                    seq_sum(attempts@) == total,
                    miner <= num_miners,
                    round_start <= total,
                    miner > 0 ==> round_start < total,
                    forall|j: int| 0 <= j < miner ==> attempts@[j] >= MIN_BATCH,
                    tried.len() == total,
                    forall|i: int| 0 <= i < tried.len() ==> !self.qualifies(#[trigger] tried[i]),
                    self.difficulty == 0 ==> total == 0 && miner == 0,
                decreases num_miners - miner,
            {
                let batch = random_in_range(MIN_BATCH, MAX_BATCH);
                let mut nonces: Vec<u64> = Vec::new();
                while nonces.len() < batch as usize
                    invariant
                        nonces@.len() <= batch,
                        MIN_BATCH <= batch < MAX_BATCH,
                    decreases batch - nonces@.len(),
                {
                    nonces.push(random_u64());
                }
                let ghost before = attempts@;
                proof {
                    lemma_sum_bounds_element(attempts@, miner as int);
                }
                match block.race_batch(miner as usize, &nonces, &mut attempts, &mut total) {
                    BatchResult::Won(j) => {
                        let ghost tried_now = tried + nonces@.subrange(0, j + 1);
                        proof {
                            assert forall|i: int| 0 <= i < tried_now.len() - 1 implies !self.qualifies(
                                #[trigger] tried_now[i],
                            ) by {
                                if i >= tried.len() {
                                    assert(tried_now[i] == nonces@[i - tried.len()]);
                                }
                            }
                            if self.difficulty == 0 {
                                assert(self.qualifies(nonces@[0]));
                            }
                        }
                        return Ok(
                            CompetitionOutcome {
                                block,
                                winner: miner + 1,
                                attempts_per_miner: attempts,
                                total_attempts: total,
                                tried: Ghost(tried_now),
                            },
                        );
                    },
                    BatchResult::Missed => {
                        proof {
                            let t = tried + nonces@;
                            assert forall|i: int| 0 <= i < t.len() implies !self.qualifies(#[trigger] t[i]) by {
                                if i >= tried.len() {
                                    assert(t[i] == nonces@[i - tried.len()]);
                                }
                            }
                            if self.difficulty == 0 {
                                assert(self.qualifies(nonces@[0]));
                            }
                            tried = t;
                            assert(attempts@[miner as int] >= MIN_BATCH);
                            assert forall|j: int| 0 <= j < miner + 1 implies attempts@[j] >= MIN_BATCH by {
                                if j < miner {
                                    assert(attempts@[j] == before[j]);
                                }
                            }
                        }
                    },
                    BatchResult::TooMany => {
                        let ghost t = tried;
                        assert forall|i: int| 0 <= i < t.len() implies !meets_difficulty(
                            #[trigger] block_digest(
                                self.index,
                                self.timestamp,
                                self.data@,
                                self.previous_hash@,
                                t[i],
                                self.difficulty,
                            ),
                            self.difficulty as nat,
                        ) by {
                            assert(!self.qualifies(t[i]));
                        }
                        return Err(
                            RaceExhausted {
                                attempts_per_miner: attempts,
                                total_attempts: total,
                                tried: Ghost(t),
                            },
                        );
                    },
                }
                miner = miner + 1;
            }
        }
    }
}

} // verus!
