//! The chain: an ordered, append-only sequence of blocks, the rules that
//! make it valid, and what is reported about it.

use crate::block::{
    genesis_data, genesis_previous_hash, lemma_mined_block_is_sealed, Block, BlockView,
    GENESIS_DIFFICULTY,
};
use crate::hash::lemma_hex_text_is_injective;
use crate::text::{append_decimal, decimal_text};
use crate::timestamp::{current_time, Timestamp};
use vstd::prelude::*;
use vstd::string::StringExecFns;

verus! {

/// The difficulty that a new chain asks of future blocks.
pub const DEFAULT_DIFFICULTY: u32 = 2;

/// The mining reward of a new chain.
pub const DEFAULT_MINING_REWARD: u64 = 100;

/// The smallest difficulty that `set_difficulty` accepts.
pub const MIN_DIFFICULTY: u32 = 1;

/// The largest difficulty that `set_difficulty` accepts.
pub const MAX_DIFFICULTY: u32 = 10;

/// Why an operation on a chain failed.
#[derive(Debug)]
pub enum BlockchainError {
    /// A block failed the checks that come before it is appended.
    InvalidBlock(String),
    /// A chain as a whole is not valid.
    InvalidChain(String),
    /// The store behind a chain could not be read or written.
    IoError(String),
    /// Stored data is malformed or does not fit the chain's layout.
    SerializationError(String),
}

/// The message of the error for a block whose hash is not its fingerprint.
pub open spec fn hash_invalid_message() -> Seq<char> {
    "区块哈希无效"@
}

/// The message of the error for a block whose hash misses the difficulty.
pub open spec fn proof_of_work_invalid_message() -> Seq<char> {
    "工作量证明无效"@
}

/// The message of the error for a block that does not follow the tip.
pub open spec fn link_invalid_message() -> Seq<char> {
    "区块链接无效"@
}

/// The message of the error for a chain that is restored and not valid.
pub open spec fn chain_invalid_message() -> Seq<char> {
    "加载的区块链无效"@
}

/// The ledger.
#[derive(Debug, Clone)]
pub struct Blockchain {
    /// The blocks in chain order; the genesis block comes first.
    pub chain: Vec<Block>,
    /// The difficulty that blocks appended from now on are mined at.
    pub difficulty: u32,
    /// The reward for mining a block; informational.
    pub mining_reward: u64,
    /// Payloads that wait to be sealed into a block.
    pub pending_transactions: Vec<String>,
}

/// What a `Blockchain` holds, with blocks and strings by their views.
pub struct BlockchainView {
    pub chain: Seq<BlockView>,
    pub difficulty: u32,
    pub mining_reward: u64,
    pub pending_transactions: Seq<Seq<char>>,
}

/// The views of `blocks`, in order.
pub open spec fn block_views(blocks: Seq<Block>) -> Seq<BlockView> {
    blocks.map_values(|block: Block| block@)
}

impl View for Blockchain {
    type V = BlockchainView;

    open spec fn view(&self) -> BlockchainView {
        BlockchainView {
            chain: block_views(self.chain@),
            difficulty: self.difficulty,
            mining_reward: self.mining_reward,
            pending_transactions: self.pending_transactions@.map_values(|text: String| text@),
        }
    }
}

/// `block` may follow `tip`: it has the next index and names the tip's hash.
pub open spec fn follows(tip: BlockView, block: BlockView) -> bool {
    block.index == tip.index + 1 && block.previous_hash == tip.hash
}

/// Block `i + 1` of `blocks` follows block `i`.
pub open spec fn linked_at(blocks: Seq<BlockView>, i: int) -> bool {
    follows(blocks[i], blocks[i + 1])
}

/// Block `i` of `blocks` has the hash that is its fingerprint, and the hash
/// meets the block's own difficulty.
pub open spec fn sealed_at(blocks: Seq<BlockView>, i: int) -> bool {
    blocks[i].is_hash_valid() && blocks[i].meets_difficulty()
}

/// The chain's validity: it is not empty, begins with a genesis block, each
/// later block follows the one before, and every block has the hash that is
/// its fingerprint and that meets its own difficulty.
pub open spec fn valid_chain(blocks: Seq<BlockView>) -> bool {
    &&& blocks.len() > 0
    &&& blocks[0].index == 0
    &&& blocks[0].previous_hash == genesis_previous_hash()
    &&& forall|i: int| 0 <= i < blocks.len() - 1 ==> #[trigger] linked_at(blocks, i)
    &&& forall|i: int| 0 <= i < blocks.len() ==> #[trigger] sealed_at(blocks, i)
}

/// A block may be appended to a chain: its hash is its fingerprint and meets
/// its difficulty, and it follows the chain's last block.
pub open spec fn acceptable(blocks: Seq<BlockView>, block: BlockView) -> bool {
    &&& block.is_hash_valid()
    &&& block.meets_difficulty()
    &&& follows(blocks.last(), block)
}

/// The candidate for the next block of a chain whose last block is `tip`.
/// Past the largest index the candidate's index wraps to 0, and then it does
/// not follow the tip.
pub open spec fn candidate(
    tip: BlockView,
    data: Seq<char>,
    timestamp: Timestamp,
    difficulty: u32,
) -> BlockView {
    BlockView::fresh(
        if tip.index == u64::MAX {
            0
        } else {
            (tip.index + 1) as u64
        },
        timestamp,
        data,
        tip.hash,
        difficulty,
    )
}

/// Why a block may not be appended to a chain, as the message of the error;
/// `None` where it may. The hash is judged first, then the proof of work,
/// then the link to the chain's last block.
pub open spec fn rejection(blocks: Seq<BlockView>, block: BlockView) -> Option<Seq<char>> {
    if !block.is_hash_valid() {
        Some(hash_invalid_message())
    } else if !block.meets_difficulty() {
        Some(proof_of_work_invalid_message())
    } else if !follows(blocks.last(), block) {
        Some(link_invalid_message())
    } else {
        None
    }
}

/// How appending a block that carries `data` and is made at `timestamp`
/// ends, on a chain of blocks `before` that mines at `difficulty`: the
/// candidate is mined; if it may be appended, `after` is `before` with the
/// mined block pushed; else `after` is `before` and the error says why.
pub open spec fn append_outcome(
    before: Seq<BlockView>,
    difficulty: u32,
    data: Seq<char>,
    timestamp: Timestamp,
    after: Seq<BlockView>,
    added: Result<(), BlockchainError>,
) -> bool {
    let block = candidate(before.last(), data, timestamp, difficulty).mined();
    match added {
        Ok(()) => rejection(before, block) is None && after == before.push(block),
        Err(BlockchainError::InvalidBlock(message)) => rejection(before, block) == Some(message@)
            && after == before,
        Err(_) => false,
    }
}

/// `block` is what mining makes of the candidate that follows `tip` and
/// carries `data`, at the time that `block` itself names, and it is sealed.
pub open spec fn is_mined_successor(
    tip: BlockView,
    block: BlockView,
    data: Seq<char>,
    difficulty: u32,
) -> bool {
    &&& block == candidate(tip, data, block.timestamp, difficulty).mined()
    &&& block.is_hash_valid()
    &&& block.meets_difficulty()
    &&& follows(tip, block)
}

/// The payload of block number `number` of a batch: the prefix, a space, a
/// hash sign and the number in decimal.
pub open spec fn batch_label(prefix: Seq<char>, number: nat) -> Seq<char> {
    prefix + " #"@ + decimal_text(number)
}

/// Builds the payload of block number `number` of a batch.
pub fn batch_data(data_prefix: &str, number: u32) -> (data: String)
    ensures
        data@ == batch_label(data_prefix@, number as nat),
{
    let mut data = String::from_str(data_prefix);
    data.append(" #");
    append_decimal(&mut data, number as u64);
    assert(data@ =~= batch_label(data_prefix@, number as nat));
    data
}

/// Block `i` of `after` is mined on the block before it at `difficulty`,
/// with the payload for its number in the batch that began after `before`.
pub open spec fn batch_step(
    before: Seq<BlockView>,
    after: Seq<BlockView>,
    prefix: Seq<char>,
    difficulty: u32,
    i: int,
) -> bool {
    is_mined_successor(
        after[i - 1],
        after[i],
        batch_label(prefix, (i - before.len() + 1) as nat),
        difficulty,
    )
}

/// `after` is `before` with blocks appended, each mined on the one before
/// it at `difficulty`, the first with the payload for number 1 of the batch,
/// the next for number 2, and so on.
pub open spec fn extended_by_batch(
    before: Seq<BlockView>,
    after: Seq<BlockView>,
    prefix: Seq<char>,
    difficulty: u32,
) -> bool {
    &&& before.len() <= after.len()
    &&& after.subrange(0, before.len() as int) == before
    &&& forall|i: int|
        before.len() <= i < after.len() ==> #[trigger] batch_step(
            before,
            after,
            prefix,
            difficulty,
            i,
        )
}

/// A batch that has come from `before` to `after` stops there: the append
/// of its next block, made at `timestamp`, ends with the error in `mined`
/// and leaves the chain as it is.
pub open spec fn batch_stopped(
    before: Seq<BlockView>,
    after: Seq<BlockView>,
    prefix: Seq<char>,
    difficulty: u32,
    timestamp: Timestamp,
    mined: Result<(), BlockchainError>,
) -> bool {
    &&& mined is Err
    &&& append_outcome(
        after,
        difficulty,
        batch_label(prefix, (after.len() - before.len() + 1) as nat),
        timestamp,
        after,
        mined,
    )
}

/// A batch that has come from `before` to `so_far` comes to
/// `so_far.push(block)` where `block` is mined on the last block of `so_far`
/// with the payload for the batch's next number.
pub proof fn lemma_batch_grows(
    before: Seq<BlockView>,
    so_far: Seq<BlockView>,
    block: BlockView,
    prefix: Seq<char>,
    difficulty: u32,
)
    requires
        before.len() > 0,
        extended_by_batch(before, so_far, prefix, difficulty),
        is_mined_successor(
            so_far.last(),
            block,
            batch_label(prefix, (so_far.len() - before.len() + 1) as nat),
            difficulty,
        ),
    ensures
        extended_by_batch(before, so_far.push(block), prefix, difficulty),
{
    let longer = so_far.push(block);
    assert(longer.subrange(0, before.len() as int) =~= so_far.subrange(0, before.len() as int));
    assert forall|i: int| before.len() <= i < longer.len() implies #[trigger] batch_step(
        before,
        longer,
        prefix,
        difficulty,
        i,
    ) by {
        if i < so_far.len() {
            assert(batch_step(before, so_far, prefix, difficulty, i));
            assert(longer[i] == so_far[i]);
            assert(longer[i - 1] == so_far[i - 1]);
        } else {
            assert(longer[i - 1] == so_far.last());
        }
    }
}

/// In a valid chain every block's index is its position.
pub proof fn lemma_index_is_position(blocks: Seq<BlockView>, position: int)
    requires
        valid_chain(blocks),
        0 <= position < blocks.len(),
    ensures
        blocks[position].index == position,
    decreases position,
{
    if position > 0 {
        lemma_index_is_position(blocks, position - 1);
        assert(linked_at(blocks, position - 1));
    }
}

/// Appending an acceptable block to a valid chain gives a valid chain.
pub proof fn lemma_append_keeps_validity(blocks: Seq<BlockView>, block: BlockView)
    requires
        valid_chain(blocks),
        acceptable(blocks, block),
    ensures
        valid_chain(blocks.push(block)),
{
    let longer = blocks.push(block);
    assert forall|i: int| 0 <= i < longer.len() - 1 implies #[trigger] linked_at(longer, i) by {
        assert(longer[i] == blocks[i]);
        if i + 1 < blocks.len() {
            assert(linked_at(blocks, i));
            assert(longer[i + 1] == blocks[i + 1]);
        }
    }
    assert forall|i: int| 0 <= i < longer.len() implies #[trigger] sealed_at(longer, i) by {
        if i < blocks.len() {
            assert(sealed_at(blocks, i));
            assert(longer[i] == blocks[i]);
        }
    }
}

/// Tamper detection. Where a block of a valid chain that is not the last is
/// replaced, the chain is still valid only if the new block keeps the index,
/// the previous hash and the hash of the old one, and that hash is still its
/// fingerprint and meets its difficulty. So whatever else was changed must
/// have left the fingerprint as it was.
pub proof fn lemma_replaced_block_is_detected(
    blocks: Seq<BlockView>,
    position: int,
    forged: BlockView,
)
    requires
        valid_chain(blocks),
        0 <= position < blocks.len() - 1,
    ensures
        valid_chain(blocks.update(position, forged)) <==> {
            &&& forged.index == blocks[position].index
            &&& forged.previous_hash == blocks[position].previous_hash
            &&& forged.hash == blocks[position].hash
            &&& forged.is_hash_valid()
            &&& forged.meets_difficulty()
        },
{
    let changed = blocks.update(position, forged);
    assert(changed[position] == forged);
    assert(changed[position + 1] == blocks[position + 1]);
    assert(linked_at(blocks, position));
    if position > 0 {
        assert(changed[position - 1] == blocks[position - 1]);
        assert(linked_at(blocks, position - 1));
    }
    if valid_chain(changed) {
        assert(linked_at(changed, position));
        assert(sealed_at(changed, position));
        if position > 0 {
            assert(linked_at(changed, position - 1));
        }
    }
    if forged.index == blocks[position].index && forged.previous_hash
        == blocks[position].previous_hash && forged.hash == blocks[position].hash
        && forged.is_hash_valid() && forged.meets_difficulty() {
        assert forall|i: int| 0 <= i < changed.len() - 1 implies #[trigger] linked_at(
            changed,
            i,
        ) by {
            assert(linked_at(blocks, i));
        }
        assert forall|i: int| 0 <= i < changed.len() implies #[trigger] sealed_at(changed, i) by {
            assert(sealed_at(blocks, i));
        }
    }
}

/// Tamper detection. Where any block of a valid chain is replaced by one
/// with the same hash whose hashed fields give another SHA-256 digest, the
/// chain is no longer valid. A change to the index, the timestamp's seconds,
/// the payload, the previous hash, the nonce or the difficulty goes
/// unnoticed only if SHA-256 takes the old and the new text to one digest.
pub proof fn lemma_changed_fields_are_detected(
    blocks: Seq<BlockView>,
    position: int,
    forged: BlockView,
)
    requires
        valid_chain(blocks),
        0 <= position < blocks.len(),
        forged.hash == blocks[position].hash,
        forged.digest() != blocks[position].digest(),
    ensures
        !valid_chain(blocks.update(position, forged)),
{
    let changed = blocks.update(position, forged);
    assert(sealed_at(blocks, position));
    if forged.is_hash_valid() {
        lemma_hex_text_is_injective(forged.digest(), blocks[position].digest());
    }
    assert(changed[position] == forged);
    if valid_chain(changed) {
        assert(sealed_at(changed, position));
    }
}

impl Blockchain {
    /// A chain whose genesis block is made at `timestamp` and mined, with the
    /// default difficulty and reward and nothing pending.
    pub fn new_at(timestamp: Timestamp) -> (blockchain: Blockchain)
        ensures
            blockchain@.chain == seq![
                BlockView::fresh(
                    0,
                    timestamp,
                    genesis_data(),
                    genesis_previous_hash(),
                    GENESIS_DIFFICULTY,
                ).mined(),
            ],
            blockchain@.difficulty == DEFAULT_DIFFICULTY,
            blockchain@.mining_reward == DEFAULT_MINING_REWARD,
            blockchain@.pending_transactions == Seq::<Seq<char>>::empty(),
            blockchain@.chain[0].index == 0,
            blockchain@.chain[0].previous_hash == genesis_previous_hash(),
            blockchain@.chain[0].is_hash_valid(),
            valid_chain(blockchain@.chain) <==> BlockView::fresh(
                0,
                timestamp,
                genesis_data(),
                genesis_previous_hash(),
                GENESIS_DIFFICULTY,
            ).solvable(),
    {
        let mut genesis = Block::genesis_block_at(timestamp);
        genesis.mine_block();
        let mut chain: Vec<Block> = Vec::new();
        chain.push(genesis);
        let blockchain = Blockchain {
            chain,
            difficulty: DEFAULT_DIFFICULTY,
            mining_reward: DEFAULT_MINING_REWARD,
            pending_transactions: Vec::new(),
        };
        proof {
            assert(blockchain@.chain =~= seq![genesis@]);
            assert(blockchain@.pending_transactions =~= Seq::<Seq<char>>::empty());
            assert(sealed_at(blockchain@.chain, 0) <==> genesis@.meets_difficulty());
        }
        blockchain
    }

    /// A chain whose genesis block is made now: as `new_at` makes it at the
    /// time that the clock gives.
    pub fn new() -> (blockchain: Blockchain)
        ensures
            blockchain@.chain == seq![
                BlockView::fresh(
                    0,
                    blockchain@.chain[0].timestamp,
                    genesis_data(),
                    genesis_previous_hash(),
                    GENESIS_DIFFICULTY,
                ).mined(),
            ],
            blockchain@.difficulty == DEFAULT_DIFFICULTY,
            blockchain@.mining_reward == DEFAULT_MINING_REWARD,
            blockchain@.pending_transactions == Seq::<Seq<char>>::empty(),
            blockchain@.chain[0].index == 0,
            blockchain@.chain[0].previous_hash == genesis_previous_hash(),
            blockchain@.chain[0].is_hash_valid(),
            valid_chain(blockchain@.chain) <==> BlockView::fresh(
                0,
                blockchain@.chain[0].timestamp,
                genesis_data(),
                genesis_previous_hash(),
                GENESIS_DIFFICULTY,
            ).solvable(),
    {
        let blockchain = Blockchain::new_at(current_time());
        proof {
            lemma_mined_block_is_sealed(
                BlockView::fresh(
                    0,
                    blockchain@.chain[0].timestamp,
                    genesis_data(),
                    genesis_previous_hash(),
                    GENESIS_DIFFICULTY,
                ),
            );
        }
        blockchain
    }

    /// The last block.
    pub fn get_latest_block(&self) -> (block: &Block)
        requires
            self.chain@.len() > 0,
        ensures
            *block == self.chain@.last(),
            block@ == self@.chain.last(),
    {
        &self.chain[self.chain.len() - 1]
    }

    /// Whether the chain is valid.
    pub fn is_chain_valid(&self) -> (valid: bool)
        ensures
            valid == valid_chain(self@.chain),
    {
        if self.chain.len() == 0 {
            return false;
        }
        let genesis = &self.chain[0];
        if genesis.index != 0 || genesis.previous_hash != String::from_str("0") {
            return false;
        }
        let ghost blocks = self@.chain;
        let mut i: usize = 0;
        while i < self.chain.len()
            invariant
                i <= self.chain.len(),
                blocks == self@.chain,
                blocks.len() == self.chain.len(),
                forall|k: int| 0 <= k < i - 1 ==> #[trigger] linked_at(blocks, k),
                forall|k: int| 0 <= k < i ==> #[trigger] sealed_at(blocks, k),
            decreases self.chain.len() - i,
        {
            let current = &self.chain[i];
            assert(current@ == blocks[i as int]);
            if !current.is_valid() || !current.has_valid_proof_of_work() {
                assert(!sealed_at(blocks, i as int));
                return false;
            }
            assert(sealed_at(blocks, i as int));
            if i >= 1 {
                let previous = &self.chain[i - 1];
                assert(previous@ == blocks[i - 1]);
                if current.previous_hash != previous.hash || previous.index == u64::MAX
                    || current.index != previous.index + 1 {
                    assert(!linked_at(blocks, i - 1));
                    return false;
                }
                assert(linked_at(blocks, i - 1));
            }
            i += 1;
        }
        true
    }

    /// The candidate for the next block, made at `timestamp` and not mined:
    /// it carries `data`, names the last block's hash and asks for the
    /// chain's difficulty.
    pub fn next_block_at(&self, data: String, timestamp: Timestamp) -> (block: Block)
        requires
            self.chain@.len() > 0,
        ensures
            block@ == candidate(self@.chain.last(), data@, timestamp, self.difficulty),
    {
        let tip = self.get_latest_block();
        Block::with_timestamp(
            tip.index.wrapping_add(1),
            timestamp,
            data,
            tip.hash.clone(),
            self.difficulty,
        )
    }

    /// The candidate for the next block, made now and not mined.
    pub fn next_block(&self, data: String) -> (block: Block)
        requires
            self.chain@.len() > 0,
        ensures
            block@ == candidate(self@.chain.last(), data@, block.timestamp, self.difficulty),
    {
        self.next_block_at(data, current_time())
    }

    /// Appends `block` if its hash is its fingerprint and meets its
    /// difficulty and it follows the last block; else the chain stays as it
    /// is and the error says which of these failed.
    pub fn accept_block(&mut self, block: Block) -> (accepted: Result<(), BlockchainError>)
        requires
            old(self).chain@.len() > 0,
        ensures
            match accepted {
                Ok(()) => {
                    &&& acceptable(old(self)@.chain, block@)
                    &&& final(self).chain@ == old(self).chain@.push(block)
                    &&& final(self)@.chain == old(self)@.chain.push(block@)
                },
                Err(BlockchainError::InvalidBlock(message)) => {
                    &&& rejection(old(self)@.chain, block@) == Some(message@)
                    &&& final(self).chain == old(self).chain
                },
                Err(_) => false,
            },
            final(self).difficulty == old(self).difficulty,
            final(self).mining_reward == old(self).mining_reward,
            final(self).pending_transactions == old(self).pending_transactions,
            accepted is Ok && valid_chain(old(self)@.chain) ==> valid_chain(final(self)@.chain),
    {
        if !block.is_valid() {
            return Err(BlockchainError::InvalidBlock(String::from_str("区块哈希无效")));
        }
        if !block.has_valid_proof_of_work() {
            return Err(BlockchainError::InvalidBlock(String::from_str("工作量证明无效")));
        }
        let tip = self.get_latest_block();
        if tip.index == u64::MAX || block.index != tip.index + 1 || block.previous_hash
            != tip.hash {
            return Err(BlockchainError::InvalidBlock(String::from_str("区块链接无效")));
        }
        proof {
            assert(block_views(self.chain@.push(block)) =~= block_views(self.chain@).push(block@));
            if valid_chain(self@.chain) {
                lemma_append_keeps_validity(self@.chain, block@);
            }
        }
        self.chain.push(block);
        Ok(())
    }

    /// Appends a block that carries `data` and is made at `timestamp`: builds
    /// the candidate, mines it and appends it if it is acceptable. Mining
    /// fails only where no nonce at all solves the candidate.
    pub fn add_block_at(&mut self, data: String, timestamp: Timestamp) -> (added: Result<
        (),
        BlockchainError,
    >)
        requires
            old(self).chain@.len() > 0,
        ensures
            append_outcome(
                old(self)@.chain,
                old(self).difficulty,
                data@,
                timestamp,
                final(self)@.chain,
                added,
            ),
            added is Err ==> final(self).chain == old(self).chain,
            added is Ok <==> old(self)@.chain.last().index < u64::MAX && candidate(
                old(self)@.chain.last(),
                data@,
                timestamp,
                old(self).difficulty,
            ).solvable(),
            final(self).difficulty == old(self).difficulty,
            final(self).mining_reward == old(self).mining_reward,
            final(self).pending_transactions == old(self).pending_transactions,
            added is Ok && valid_chain(old(self)@.chain) ==> valid_chain(final(self)@.chain),
    {
        let mut block = self.next_block_at(data, timestamp);
        proof {
            lemma_mined_block_is_sealed(block@);
        }
        block.mine_block();
        self.accept_block(block)
    }

    /// Appends a block that carries `data` and is made now. Either the
    /// chain grows by one block, which follows the old last block, or the
    /// chain stays as it is and an error is returned.
    pub fn add_block(&mut self, data: String) -> (added: Result<(), BlockchainError>)
        requires
            old(self).chain@.len() > 0,
        ensures
            exists|timestamp: Timestamp|
                append_outcome(
                    old(self)@.chain,
                    old(self).difficulty,
                    data@,
                    timestamp,
                    final(self)@.chain,
                    added,
                ),
            match added {
                Ok(()) => {
                    &&& final(self)@.chain.len() == old(self)@.chain.len() + 1
                    &&& final(self)@.chain == old(self)@.chain.push(final(self)@.chain.last())
                    &&& is_mined_successor(
                        old(self)@.chain.last(),
                        final(self)@.chain.last(),
                        data@,
                        old(self).difficulty,
                    )
                    &&& final(self)@.chain.last().index == old(self)@.chain.last().index + 1
                    &&& final(self)@.chain.last().previous_hash == old(self)@.chain.last().hash
                },
                Err(_) => final(self).chain == old(self).chain,
            },
            final(self).difficulty == old(self).difficulty,
            final(self).mining_reward == old(self).mining_reward,
            final(self).pending_transactions == old(self).pending_transactions,
            added is Ok && valid_chain(old(self)@.chain) ==> valid_chain(final(self)@.chain),
    {
        let timestamp = current_time();
        let added = self.add_block_at(data, timestamp);
        assert(append_outcome(
            old(self)@.chain,
            old(self).difficulty,
            data@,
            timestamp,
            self@.chain,
            added,
        ));
        added
    }

    /// Appends `count` blocks, one after the other, with the payloads
    /// `"<data_prefix> #1"`, `"<data_prefix> #2"` and so on. Stops at the first
    /// block that cannot be appended; the blocks before it stay.
    pub fn batch_mine(&mut self, count: u32, data_prefix: &str) -> (mined: Result<
        (),
        BlockchainError,
    >)
        requires
            old(self).chain@.len() > 0,
        ensures
            extended_by_batch(
                old(self)@.chain,
                final(self)@.chain,
                data_prefix@,
                old(self).difficulty,
            ),
            match mined {
                Ok(()) => final(self)@.chain.len() == old(self)@.chain.len() + count,
                Err(_) => {
                    &&& final(self)@.chain.len() < old(self)@.chain.len() + count
                    &&& exists|timestamp: Timestamp|
                        batch_stopped(
                            old(self)@.chain,
                            final(self)@.chain,
                            data_prefix@,
                            old(self).difficulty,
                            timestamp,
                            mined,
                        )
                },
            },
            final(self).difficulty == old(self).difficulty,
            final(self).mining_reward == old(self).mining_reward,
            final(self).pending_transactions == old(self).pending_transactions,
            valid_chain(old(self)@.chain) ==> valid_chain(final(self)@.chain),
    {
        let ghost before = self@.chain;
        let mut done: u32 = 0;
        assert(self@.chain.subrange(0, before.len() as int) =~= before);
        while done < count
            invariant
                done <= count,
                before == old(self)@.chain,
                before.len() > 0,
                self.chain@.len() == before.len() + done,
                self@.chain.len() == before.len() + done,
                extended_by_batch(before, self@.chain, data_prefix@, old(self).difficulty),
                self.difficulty == old(self).difficulty,
                self.mining_reward == old(self).mining_reward,
                self.pending_transactions == old(self).pending_transactions,
                valid_chain(before) ==> valid_chain(self@.chain),
            decreases count - done,
        {
            let ghost so_far = self@.chain;
            let label = batch_data(data_prefix, done + 1);
            let added = self.add_block(label);
            if added.is_err() {
                proof {
                    let timestamp = choose|timestamp: Timestamp|
                        append_outcome(
                            so_far,
                            old(self).difficulty,
                            label@,
                            timestamp,
                            self@.chain,
                            added,
                        );
                    assert(self@.chain == so_far);
                    assert(batch_stopped(
                        before,
                        self@.chain,
                        data_prefix@,
                        old(self).difficulty,
                        timestamp,
                        added,
                    ));
                }
                return added;
            }
            proof {
                lemma_batch_grows(
                    before,
                    so_far,
                    self@.chain.last(),
                    data_prefix@,
                    old(self).difficulty,
                );
            }
            done += 1;
        }
        Ok(())
    }

    /// The block at position `index`, if the chain is that long.
    pub fn get_block(&self, index: u64) -> (block: Option<&Block>)
        ensures
            match block {
                Some(found) => index < self.chain@.len() && *found == self.chain@[index as int]
                    && found@ == self@.chain[index as int],
                None => index >= self.chain@.len(),
            },
            block is Some && valid_chain(self@.chain) ==> block->0.index == index,
    {
        if index < self.chain.len() as u64 {
            proof {
                if valid_chain(self@.chain) {
                    lemma_index_is_position(self@.chain, index as int);
                }
            }
            Some(&self.chain[index as usize])
        } else {
            None
        }
    }

    /// Sets the difficulty for future blocks if `difficulty` lies from 1 to
    /// 10, and says whether it did; a value outside that range changes
    /// nothing.
    pub fn set_difficulty(&mut self, difficulty: u32) -> (accepted: bool)
        ensures
            accepted == (MIN_DIFFICULTY <= difficulty <= MAX_DIFFICULTY),
            final(self).difficulty == if accepted {
                difficulty
            } else {
                old(self).difficulty
            },
            final(self).chain == old(self).chain,
            final(self).mining_reward == old(self).mining_reward,
            final(self).pending_transactions == old(self).pending_transactions,
    {
        if MIN_DIFFICULTY <= difficulty && difficulty <= MAX_DIFFICULTY {
            self.difficulty = difficulty;
            true
        } else {
            false
        }
    }

    /// Puts a chain together from stored parts. The parts are not trusted:
    /// a chain that is not valid is refused.
    pub fn restore(
        chain: Vec<Block>,
        difficulty: u32,
        mining_reward: u64,
        pending_transactions: Vec<String>,
    ) -> (restored: Result<Blockchain, BlockchainError>)
        ensures
            match restored {
                Ok(blockchain) => {
                    &&& valid_chain(block_views(chain@))
                    &&& blockchain.chain == chain
                    &&& blockchain.difficulty == difficulty
                    &&& blockchain.mining_reward == mining_reward
                    &&& blockchain.pending_transactions == pending_transactions
                },
                Err(BlockchainError::InvalidChain(message)) => {
                    &&& !valid_chain(block_views(chain@))
                    &&& message@ == chain_invalid_message()
                },
                Err(_) => false,
            },
    {
        let blockchain = Blockchain { chain, difficulty, mining_reward, pending_transactions };
        if !blockchain.is_chain_valid() {
            return Err(BlockchainError::InvalidChain(String::from_str("加载的区块链无效")));
        }
        Ok(blockchain)
    }
}

impl Default for Blockchain {
    /// The same as `Blockchain::new`.
    fn default() -> (blockchain: Blockchain)
        ensures
            blockchain@.chain == seq![
                BlockView::fresh(
                    0,
                    blockchain@.chain[0].timestamp,
                    genesis_data(),
                    genesis_previous_hash(),
                    GENESIS_DIFFICULTY,
                ).mined(),
            ],
            blockchain@.difficulty == DEFAULT_DIFFICULTY,
            blockchain@.mining_reward == DEFAULT_MINING_REWARD,
            blockchain@.pending_transactions == Seq::<Seq<char>>::empty(),
            valid_chain(blockchain@.chain) <==> BlockView::fresh(
                0,
                blockchain@.chain[0].timestamp,
                genesis_data(),
                genesis_previous_hash(),
                GENESIS_DIFFICULTY,
            ).solvable(),
    {
        Blockchain::new()
    }
}

/// What `BlockchainError::describe` puts before the message of an error of
/// the same kind as `error`.
pub open spec fn error_prefix(error: BlockchainError) -> Seq<char> {
    match error {
        BlockchainError::InvalidBlock(_) => "无效区块: "@,
        BlockchainError::InvalidChain(_) => "无效区块链: "@,
        BlockchainError::IoError(_) => "IO错误: "@,
        BlockchainError::SerializationError(_) => "序列化错误: "@,
    }
}

/// The message that `error` carries.
pub open spec fn error_message(error: BlockchainError) -> Seq<char> {
    match error {
        BlockchainError::InvalidBlock(message) => message@,
        BlockchainError::InvalidChain(message) => message@,
        BlockchainError::IoError(message) => message@,
        BlockchainError::SerializationError(message) => message@,
    }
}

impl BlockchainError {
    /// The error as a line of text: its kind, then its message.
    pub fn describe(&self) -> (text: String)
        ensures
            text@ == error_prefix(*self) + error_message(*self),
    {
        match self {
            BlockchainError::InvalidBlock(message) => String::from_str("无效区块: ").concat(
                message.as_str(),
            ),
            BlockchainError::InvalidChain(message) => String::from_str("无效区块链: ").concat(
                message.as_str(),
            ),
            BlockchainError::IoError(message) => String::from_str("IO错误: ").concat(
                message.as_str(),
            ),
            BlockchainError::SerializationError(message) => String::from_str(
                "序列化错误: ",
            ).concat(message.as_str()),
        }
    }
}

} // verus!
