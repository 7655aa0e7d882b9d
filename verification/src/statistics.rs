//! What a chain reports about itself.
//!
//! Counts are integers, and the two averages are exact fractions. A count
//! that does not fit its type is reported as the largest value of the type.

use crate::block::BlockView;
use crate::blockchain::Blockchain;
use crate::timestamp::seconds_between;
use vstd::math::min;
use vstd::prelude::*;

verus! {

/// A quotient of two integers, in sign and magnitude.
#[derive(Debug, Clone, Copy, PartialEq, Eq, Structural)]
pub struct Fraction {
    /// The quotient is below zero.
    pub negative: bool,
    /// The magnitude of the dividend.
    pub numerator: u128,
    /// The divisor.
    pub denominator: u128,
}

impl Fraction {
    /// The dividend with its sign.
    pub open spec fn numer(self) -> int {
        if self.negative {
            -(self.numerator as int)
        } else {
            self.numerator as int
        }
    }

    /// The fraction stands for `numerator / denominator`; zero is never
    /// marked negative.
    pub open spec fn represents(self, numerator: int, denominator: int) -> bool {
        &&& self.numer() == numerator
        &&& self.denominator == denominator
        &&& self.negative <==> numerator < 0
    }

    /// The fraction 0 / 1.
    pub fn zero() -> (fraction: Fraction)
        ensures
            fraction.represents(0, 1),
    {
        Fraction { negative: false, numerator: 0, denominator: 1 }
    }

    /// Whether the fraction is zero.
    pub fn is_zero(&self) -> (zero: bool)
        ensures
            zero == (self.numer() == 0),
    {
        self.numerator == 0
    }
}

/// The figures of a chain.
#[derive(Debug, Clone)]
pub struct BlockchainStatistics {
    /// How many blocks the chain has.
    pub total_blocks: u64,
    /// The sum of the blocks' approximate sizes, in bytes.
    pub total_size: usize,
    /// How many transactions the chain holds: one for each block.
    pub total_transactions: u64,
    /// The difficulty for future blocks.
    pub current_difficulty: u32,
    /// The reward for mining a block.
    pub mining_reward: u64,
    /// Seconds from one block to the next, on average.
    pub average_block_time: Fraction,
    /// Mining attempts in a second, on average.
    pub average_hash_rate: Fraction,
    /// The sum of the blocks' nonces: one less, for each block, than the
    /// attempts that its mining made.
    pub total_attempts: u64,
}

/// The sum of the approximate sizes of `blocks`.
pub open spec fn total_size(blocks: Seq<BlockView>) -> nat
    decreases blocks.len(),
{
    if blocks.len() == 0 {
        0
    } else {
        total_size(blocks.drop_last()) + blocks.last().size()
    }
}

/// The sum of the nonces of `blocks`.
pub open spec fn total_nonces(blocks: Seq<BlockView>) -> nat
    decreases blocks.len(),
{
    if blocks.len() == 0 {
        0
    } else {
        total_nonces(blocks.drop_last()) + blocks.last().nonce as nat
    }
}

/// The sum of the nonces as it is reported.
pub open spec fn reported_attempts(blocks: Seq<BlockView>) -> int {
    min(total_nonces(blocks) as int, u64::MAX as int)
}

/// Whole seconds from the first block's timestamp to the last one's; 0 for
/// a chain of at most one block.
pub open spec fn elapsed_seconds(blocks: Seq<BlockView>) -> int {
    if blocks.len() <= 1 {
        0
    } else {
        seconds_between(blocks.first().timestamp, blocks.last().timestamp)
    }
}

/// Dividend of the average block time: the elapsed seconds.
pub open spec fn block_time_numerator(blocks: Seq<BlockView>) -> int {
    elapsed_seconds(blocks)
}

/// Divisor of the average block time: the number of steps from block to
/// block; 1 for a chain of at most one block, whose average is 0.
pub open spec fn block_time_denominator(blocks: Seq<BlockView>) -> int {
    if blocks.len() <= 1 {
        1
    } else {
        blocks.len() - 1
    }
}

/// Dividend of the average hash rate, which is the attempts divided by the
/// product of the block count and the average block time: the attempts
/// times the number of steps. It is 0 where the average block time is not
/// above 0.
pub open spec fn hash_rate_numerator(blocks: Seq<BlockView>) -> int {
    if elapsed_seconds(blocks) <= 0 {
        0
    } else {
        reported_attempts(blocks) * (blocks.len() - 1)
    }
}

/// Divisor of the average hash rate: the block count times the elapsed
/// seconds; 1 where the average block time is not above 0.
pub open spec fn hash_rate_denominator(blocks: Seq<BlockView>) -> int {
    if elapsed_seconds(blocks) <= 0 {
        1
    } else {
        min(blocks.len() * elapsed_seconds(blocks), u128::MAX as int)
    }
}

/// The sums over the first `count + 1` blocks are those over the first
/// `count` blocks plus what block `count` adds.
pub proof fn lemma_sums_step(blocks: Seq<BlockView>, count: int)
    requires
        0 <= count < blocks.len(),
    ensures
        total_size(blocks.take(count + 1)) == total_size(blocks.take(count))
            + blocks[count].size(),
        total_nonces(blocks.take(count + 1)) == total_nonces(blocks.take(count))
            + blocks[count].nonce,
{
    assert(blocks.take(count + 1).drop_last() =~= blocks.take(count));
    assert(blocks.take(count + 1).last() == blocks[count]);
}

impl Blockchain {
    /// The chain's figures.
    pub fn get_statistics(&self) -> (stats: BlockchainStatistics)
        ensures
            stats.total_blocks == self@.chain.len(),
            stats.total_transactions == self@.chain.len(),
            stats.total_size == min(total_size(self@.chain) as int, usize::MAX as int),
            stats.current_difficulty == self.difficulty,
            stats.mining_reward == self.mining_reward,
            stats.total_attempts == reported_attempts(self@.chain),
            stats.average_block_time.represents(
                block_time_numerator(self@.chain),
                block_time_denominator(self@.chain),
            ),
            stats.average_hash_rate.represents(
                hash_rate_numerator(self@.chain),
                hash_rate_denominator(self@.chain),
            ),
            self@.chain.len() <= 1 ==> stats.average_block_time.numer() == 0
                && stats.average_hash_rate.numer() == 0,
    {
        let count: usize = self.chain.len();
        let ghost blocks = self@.chain;
        let mut size_sum: usize = 0;
        let mut nonce_sum: u64 = 0;
        let mut i: usize = 0;
        while i < count
            invariant
                i <= count,
                count == self.chain.len(),
                blocks == self@.chain,
                blocks.len() == count,
                size_sum == min(total_size(blocks.take(i as int)) as int, usize::MAX as int),
                nonce_sum == min(total_nonces(blocks.take(i as int)) as int, u64::MAX as int),
            decreases count - i,
        {
            proof {
                lemma_sums_step(blocks, i as int);
            }
            let block = &self.chain[i];
            assert(block@ == blocks[i as int]);
            size_sum = size_sum.saturating_add(block.get_size());
            nonce_sum = nonce_sum.saturating_add(block.nonce);
            i += 1;
        }
        assert(blocks.take(count as int) =~= blocks);
        let mut average_block_time = Fraction::zero();
        let mut average_hash_rate = Fraction::zero();
        if count > 1 {
            let first = &self.chain[0];
            let last = &self.chain[count - 1];
            assert(first@ == blocks.first() && last@ == blocks.last());
            let elapsed: i128 = last.timestamp.seconds_since(&first.timestamp);
            let steps: u128 = (count - 1) as u128;
            if elapsed < 0 {
                average_block_time =
                Fraction { negative: true, numerator: (-elapsed) as u128, denominator: steps };
            } else {
                average_block_time =
                Fraction { negative: false, numerator: elapsed as u128, denominator: steps };
            }
            if elapsed > 0 {
                assert(nonce_sum * steps <= 0xffff_ffff_ffff_ffff * 0xffff_ffff_ffff_ffff)
                    by (nonlinear_arith)
                    requires
                        0 <= nonce_sum <= 0xffff_ffff_ffff_ffff,
                        0 <= steps <= 0xffff_ffff_ffff_ffff,
                ;
                let seconds = match (count as u128).checked_mul(elapsed as u128) {
                    Some(product) => product,
                    None => u128::MAX,
                };
                average_hash_rate =
                Fraction {
                    negative: false,
                    numerator: nonce_sum as u128 * steps,
                    denominator: seconds,
                };
            }
        }
        BlockchainStatistics {
            total_blocks: count as u64,
            total_size: size_sum,
            total_transactions: count as u64,
            current_difficulty: self.difficulty,
            mining_reward: self.mining_reward,
            average_block_time,
            average_hash_rate,
            total_attempts: nonce_sum,
        }
    }
}

} // verus!
