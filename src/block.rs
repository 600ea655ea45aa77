//! Blocks and the sequential nonce search that mines them.

use crate::digest::{block_digest, calculate_hash, has_leading_zeros, meets_difficulty, solvable, is_lower_hex_digit};
use crate::sources::now_timestamp;
use std::time::Instant;
use vstd::prelude::*;

verus! {

/// One record of the chain. `nonce` and `hash` change while the block is
/// mined; the other fields are fixed when it is created.
#[derive(Clone, Debug)]
pub struct Block {
    pub index: u64,
    /// Seconds since the Unix epoch.
    pub timestamp: i64,
    pub data: String,
    pub previous_hash: String,
    pub hash: String,
    pub nonce: u64,
    /// Number of leading zero hex characters the hash must have.
    pub difficulty: u64,
}

/// The outcome of one successful sequential search.
#[derive(Clone, Copy, Debug)]
pub struct MiningStats {
    /// Number of hashes computed.
    pub attempts: u64,
    /// Wall time the search took, in microseconds.
    pub elapsed_micros: u128,
}

/// Hashes computed by a search from nonce 0 that stopped at `nonce`,
/// saturating at `u64::MAX`.
pub open spec fn attempts_for(nonce: u64) -> u64 {
    if nonce < u64::MAX {
        (nonce + 1) as u64
    } else {
        u64::MAX
    }
}

impl Block {
    /// The digest of this block's fields with `nonce` in place of its own.
    pub open spec fn digest_with(&self, nonce: u64) -> Seq<char> {
        block_digest(self.index, self.timestamp, self.data@, self.previous_hash@, nonce, self.difficulty)
    }

    /// The digest of this block's fields.
    pub open spec fn digest(&self) -> Seq<char> {
        self.digest_with(self.nonce)
    }

    /// The stored hash is the digest of the other fields.
    pub open spec fn hash_matches(&self) -> bool {
        self.hash@ == self.digest()
    }

    /// The stored hash satisfies the block's own difficulty.
    pub open spec fn is_mined(&self) -> bool {
        meets_difficulty(self.hash@, self.difficulty as nat)
    }

    /// What `is_valid` checks: the hash is current and satisfies the difficulty.
    pub open spec fn valid(&self) -> bool {
        self.hash_matches() && self.is_mined()
    }

    /// The fields other than `nonce` and `hash` agree.
    pub open spec fn same_header(&self, other: &Block) -> bool {
        &&& self.index == other.index
        &&& self.timestamp == other.timestamp
        &&& self.data@ == other.data@
        &&& self.previous_hash@ == other.previous_hash@
        &&& self.difficulty == other.difficulty
    }

    /// Some nonce that makes the digest satisfy the difficulty.
    pub open spec fn has_solution(&self) -> bool {
        solvable(self.index, self.timestamp, self.data@, self.previous_hash@, self.difficulty)
    }

    /// A block skeleton with the given timestamp: nonce 0 and no hash yet.
    pub fn with_timestamp(
        index: u64,
        timestamp: i64,
        data: String,
        previous_hash: String,
        difficulty: u64,
    ) -> (b: Block)
        ensures
            b.index == index,
            b.timestamp == timestamp,
            b.data@ == data@,
            b.previous_hash@ == previous_hash@,
            b.hash@ == Seq::<char>::empty(),
            b.nonce == 0,
            b.difficulty == difficulty,
    {
        Block { index, timestamp, data, previous_hash, hash: String::new(), nonce: 0, difficulty }
    }

    /// The first block of a chain, created at `timestamp` and mined at
    /// difficulty 2. Should no `u64` nonce qualify, it is kept
    /// with difficulty 0, which every hash satisfies.
    pub fn genesis_at(timestamp: i64) -> (b: Block)
        ensures
            b.index == 0,
            b.timestamp == timestamp,
            b.previous_hash@ == seq!['0'],
            b.valid(),
            b.difficulty == 2 || (b.difficulty == 0 && !solvable(
                0,
                timestamp,
                b.data@,
                b.previous_hash@,
                2,
            )),
    {
        let mut block = Block::with_timestamp(
            0,
            timestamp,
            "\u{1f31f} Genesis Block - The adventure begins!".to_string(),
            "0".to_string(),
            2,
        );
        proof {
            reveal_strlit("0");
        }
        match block.mine() {
            Some(_) => block,
            None => {
                block.difficulty = 0;
                block.hash = block.calculate_hash();
                block
            },
        }
    }

    /// The first block of a chain, stamped with the current time.
    pub fn genesis() -> (b: Block)
        ensures
            b.index == 0,
            b.previous_hash@ == seq!['0'],
            b.valid(),
            b.difficulty == 2 || (b.difficulty == 0 && !solvable(
                0,
                b.timestamp,
                b.data@,
                b.previous_hash@,
                2,
            )),
    {
        Block::genesis_at(now_timestamp())
    }

    /// A block skeleton stamped with the current time: nonce 0 and no hash yet.
    pub fn new(index: u64, data: String, previous_hash: String, difficulty: u64) -> (b: Block)
        ensures
            b.index == index,
            b.data@ == data@,
            b.previous_hash@ == previous_hash@,
            b.hash@ == Seq::<char>::empty(),
            b.nonce == 0,
            b.difficulty == difficulty,
    {
        let timestamp = now_timestamp();
        Block::with_timestamp(index, timestamp, data, previous_hash, difficulty)
    }

    /// The digest of this block's current fields.
    pub fn calculate_hash(&self) -> (r: String)
        ensures
            r@ == self.digest(),
            r@.len() == 64,
            forall|i: int| 0 <= i < r@.len() ==> is_lower_hex_digit(#[trigger] r@[i]),
    {
        calculate_hash(
            self.index,
            self.timestamp,
            self.data.as_str(),
            self.previous_hash.as_str(),
            self.nonce,
            self.difficulty,
        )
    }

    /// Searches nonces upward from 0, rehashing each time, and stops at the
    /// first whose digest has `difficulty` leading zeros. The search covers
    /// every `u64` nonce; `None` means none of them qualified.
    pub fn mine(&mut self) -> (r: Option<MiningStats>)
        ensures
            final(self).same_header(old(self)),
            final(self).hash_matches(),
            forall|n: u64|
                n < final(self).nonce ==> !meets_difficulty(
                    #[trigger] old(self).digest_with(n),
                    old(self).difficulty as nat,
                ),
            r is Some <==> old(self).has_solution(),
            match r {
                Some(stats) => final(self).is_mined() && stats.attempts == attempts_for(final(self).nonce),
                None => final(self).nonce == u64::MAX && !final(self).is_mined(),
            },
    {
        let start = Instant::now();
        self.nonce = 0;
        loop
            invariant
                self.same_header(old(self)),
                forall|n: u64|
                    n < self.nonce ==> !meets_difficulty(
                        #[trigger] old(self).digest_with(n),
                        old(self).difficulty as nat,
                    ),
            decreases u64::MAX - self.nonce,
        {
            self.hash = self.calculate_hash();
            assert(self.digest() == old(self).digest_with(self.nonce));
            if has_leading_zeros(self.hash.as_str(), self.difficulty) {
                let elapsed_micros = start.elapsed().as_micros();
                let attempts = if self.nonce < u64::MAX {
                    self.nonce + 1
                } else {
                    u64::MAX
                };
                return Some(MiningStats { attempts, elapsed_micros });
            }
            if self.nonce == u64::MAX {
                assert forall|n: u64| true implies !meets_difficulty(
                    #[trigger] old(self).digest_with(n),
                    old(self).difficulty as nat,
                ) by {
                    if n < self.nonce {
                    } else {
                        assert(n == self.nonce);
                    }
                }
                assert(!old(self).has_solution()) by {
                    if old(self).has_solution() {
                        let n = choose|n: u64|
                            meets_difficulty(
                                #[trigger] block_digest(
                                    old(self).index,
                                    old(self).timestamp,
                                    old(self).data@,
                                    old(self).previous_hash@,
                                    n,
                                    old(self).difficulty,
                                ),
                                old(self).difficulty as nat,
                            );
                        assert(!meets_difficulty(old(self).digest_with(n), old(self).difficulty as nat));
                    }
                }
                return None;
            }
            self.nonce = self.nonce + 1;
        }
    }

    /// Sets the nonce, rehashes, and says whether the new hash satisfies the
    /// difficulty: one attempt of a search.
    pub fn try_nonce(&mut self, nonce: u64) -> (r: bool)
        ensures
            final(self).same_header(old(self)),
            final(self).nonce == nonce,
            final(self).hash_matches(),
            r == final(self).is_mined(),
    {
        self.nonce = nonce;
        self.hash = self.calculate_hash();
        has_leading_zeros(self.hash.as_str(), self.difficulty)
    }

    /// Whether the stored hash is the digest of the other fields and has at
    /// least `difficulty` leading zeros.
    pub fn is_valid(&self) -> (r: bool)
        ensures
            r == self.valid(),
    {
        let calculated = self.calculate_hash();
        calculated == self.hash && has_leading_zeros(self.hash.as_str(), self.difficulty)
    }
}

} // verus!
