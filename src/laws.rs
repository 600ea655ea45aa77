//! Properties that hold across the engine's operations.

use crate::block::Block;
use crate::chain::{adjusted_difficulty, chain_valid, linked, recent_span, window, Blockchain};
use crate::competition::{seq_sum, CompetitionOutcome};
use vstd::prelude::*;

verus! {

/// Every block of a well-formed chain stores the digest of its own fields,
/// and that hash has at least as many leading zeros as the block's
/// difficulty asks for.
pub proof fn lemma_chain_blocks_are_mined(c: &Blockchain)
    requires
        c.wf(),
    ensures
        forall|i: int|
            0 <= i < c.chain@.len() ==> (#[trigger] c.chain@[i]).hash@ == c.chain@[i].digest()
                && c.chain@[i].is_mined(),
{
    assert forall|i: int| 0 <= i < c.chain@.len() implies (#[trigger] c.chain@[i]).hash@
        == c.chain@[i].digest() && c.chain@[i].is_mined() by {
        assert(c.chain@[i].valid());
    }
}

/// In a well-formed chain every block after the first records the hash of
/// the block before it and has the next index; every block's index is its
/// position; so a scan of the whole chain finds it valid.
pub proof fn lemma_chain_is_linked(c: &Blockchain)
    requires
        c.wf(),
    ensures
        forall|i: int|
            0 < i < c.chain@.len() ==> (#[trigger] c.chain@[i]).previous_hash@ == c.chain@[i
                - 1].hash@ && c.chain@[i].index == c.chain@[i - 1].index + 1,
        forall|i: int| 0 <= i < c.chain@.len() ==> (#[trigger] c.chain@[i]).index == i,
        chain_valid(c.chain@),
{
    assert forall|i: int| 0 < i < c.chain@.len() implies (#[trigger] c.chain@[i]).previous_hash@
        == c.chain@[i - 1].hash@ && c.chain@[i].index == c.chain@[i - 1].index + 1 by {
        assert(linked(c.chain@, i));
    }
    c.lemma_index_is_position();
}

/// On a chain of four or more blocks the controller looks at the average of
/// the last three intervals: under half the target it raises the difficulty
/// by exactly one (short of `u64::MAX`), over twice the target it lowers it
/// by exactly one (when above 1), and from half to twice the target it
/// leaves it unchanged.
pub proof fn lemma_controller_steps(chain: Seq<Block>, difficulty: u64, target: u64)
    requires
        chain.len() >= 4,
    ensures
        2 * recent_span(chain, 3) < 3 * target && difficulty < u64::MAX ==> adjusted_difficulty(
            chain,
            difficulty,
            target,
        ) == difficulty + 1,
        recent_span(chain, 3) > 6 * target && difficulty > 1 ==> adjusted_difficulty(
            chain,
            difficulty,
            target,
        ) == difficulty - 1,
        3 * target <= 2 * recent_span(chain, 3) <= 12 * target ==> adjusted_difficulty(
            chain,
            difficulty,
            target,
        ) == difficulty,
        recent_span(chain, 3) > 6 * target && difficulty <= 1 ==> adjusted_difficulty(
            chain,
            difficulty,
            target,
        ) == difficulty,
{
    assert(window(chain.len() as int) == 3);
    assert(target * 3 == 3 * target);
    assert(2 * target * 3 == 6 * target);
}

/// A race with a single miner is a plain random search: that miner, id 1,
/// wins, and the total attempts are its own.
pub proof fn lemma_single_miner_race(outcome: &CompetitionOutcome, start: Block)
    requires
        outcome.wins(start, 1),
    ensures
        outcome.winner == 1,
        outcome.total_attempts == outcome.attempts_per_miner@[0],
{
    let s = outcome.attempts_per_miner@;
    assert(seq_sum(s.drop_last()) == 0);
    assert(seq_sum(s) == seq_sum(s.drop_last()) + s.last());
}

/// A block whose fields were changed after mining while its hash was kept
/// fails validation, whenever the changed fields hash to something other
/// than the kept hash.
pub proof fn lemma_tampered_block_is_invalid(mined: &Block, tampered: &Block)
    requires
        mined.valid(),
        tampered.hash@ == mined.hash@,
        tampered.digest() != mined.hash@,
    ensures
        !tampered.valid(),
{
}

} // verus!
