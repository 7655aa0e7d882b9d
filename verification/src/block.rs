//! Blocks: the sealed unit of data, its fingerprint and its proof of work.

use crate::hash::{fingerprint, fingerprint_text, is_lower_hex, preimage_text, sha256_digest};
use crate::text::{has_leading_zeros, starts_with_zeros};
use crate::timestamp::{current_time, Timestamp};
use vstd::layout::size_of;
use vstd::prelude::*;
use vstd::string::StringExecFns;
use vstd::utf8::encode_utf8;

verus! {

/// One record of the chain.
#[derive(Debug, Clone, PartialEq)]
pub struct Block {
    /// Position in the chain; the genesis block has index 0.
    pub index: u64,
    /// When the block was made. Only the whole seconds are hashed.
    pub timestamp: Timestamp,
    /// The payload.
    pub data: String,
    /// The hash of the block before; `"0"` in the genesis block.
    pub previous_hash: String,
    /// The fingerprint of the other fields, as of the last hashing.
    pub hash: String,
    /// The counter that mining varies.
    pub nonce: u64,
    /// How many leading `0` digits the hash must have.
    pub difficulty: u32,
}

/// What a `Block` holds, with its strings as sequences of characters.
pub struct BlockView {
    pub index: u64,
    pub timestamp: Timestamp,
    pub data: Seq<char>,
    pub previous_hash: Seq<char>,
    pub hash: Seq<char>,
    pub nonce: u64,
    pub difficulty: u32,
}

impl View for Block {
    type V = BlockView;

    open spec fn view(&self) -> BlockView {
        BlockView {
            index: self.index,
            timestamp: self.timestamp,
            data: self.data@,
            previous_hash: self.previous_hash@,
            hash: self.hash@,
            nonce: self.nonce,
            difficulty: self.difficulty,
        }
    }
}

/// The payload of every genesis block.
pub open spec fn genesis_data() -> Seq<char> {
    "创世区块 - Genesis Block"@
}

/// The `previous_hash` of every genesis block.
pub open spec fn genesis_previous_hash() -> Seq<char> {
    "0"@
}

/// The difficulty of every genesis block.
pub const GENESIS_DIFFICULTY: u32 = 1;

/// How many values a nonce can take.
pub open spec fn nonce_space() -> int {
    0x1_0000_0000_0000_0000
}

/// The nonce that mining tries `offset` attempts after `start`, for an
/// offset from 0 to `nonce_space()`: nonces are tried in increasing order,
/// wrapping to 0 after the largest.
pub open spec fn nonce_at(start: u64, offset: int) -> u64 {
    if start + offset < nonce_space() {
        (start + offset) as u64
    } else {
        (start + offset - nonce_space()) as u64
    }
}

impl BlockView {
    /// The block as `Block::with_timestamp` makes it: nonce 0 and the hash
    /// that goes with it.
    pub open spec fn fresh(
        index: u64,
        timestamp: Timestamp,
        data: Seq<char>,
        previous_hash: Seq<char>,
        difficulty: u32,
    ) -> BlockView {
        BlockView {
            index,
            timestamp,
            data,
            previous_hash,
            hash: fingerprint_text(index, timestamp.seconds, data, previous_hash, 0, difficulty),
            nonce: 0,
            difficulty,
        }
    }

    /// The text of the hashed fields as they stand.
    pub open spec fn preimage(self) -> Seq<char> {
        preimage_text(
            self.index,
            self.timestamp.seconds,
            self.data,
            self.previous_hash,
            self.nonce,
            self.difficulty,
        )
    }

    /// The SHA-256 digest of the text of the hashed fields.
    pub open spec fn digest(self) -> Seq<u8> {
        sha256_digest(encode_utf8(self.preimage()))
    }

    /// The fingerprint of the hashed fields as they stand.
    pub open spec fn fingerprint(self) -> Seq<char> {
        fingerprint_text(
            self.index,
            self.timestamp.seconds,
            self.data,
            self.previous_hash,
            self.nonce,
            self.difficulty,
        )
    }

    /// The stored hash is the fingerprint of the other fields.
    pub open spec fn is_hash_valid(self) -> bool {
        self.hash == self.fingerprint()
    }

    /// The stored hash begins with `difficulty` digits `0`.
    pub open spec fn meets_difficulty(self) -> bool {
        has_leading_zeros(self.hash, self.difficulty as nat)
    }

    /// The block with `nonce` in place of its nonce and the hash that goes
    /// with it.
    pub open spec fn rehashed(self, nonce: u64) -> BlockView {
        BlockView {
            nonce,
            hash: fingerprint_text(
                self.index,
                self.timestamp.seconds,
                self.data,
                self.previous_hash,
                nonce,
                self.difficulty,
            ),
            ..self
        }
    }

    /// With `nonce` the block's fingerprint meets the block's difficulty.
    pub open spec fn solves(self, nonce: u64) -> bool {
        self.rehashed(nonce).meets_difficulty()
    }

    /// Some nonce solves the block.
    pub open spec fn solvable(self) -> bool {
        exists|nonce: u64| self.solves(nonce)
    }

    /// The first offset from `from` up to, not including, `limit` at which
    /// the search that starts at the block's nonce finds a solution.
    pub open spec fn first_solution(self, from: int, limit: int) -> Option<int>
        decreases limit - from,
    {
        if from >= limit {
            None
        } else if self.solves(nonce_at(self.nonce, from)) {
            Some(from)
        } else {
            self.first_solution(from + 1, limit)
        }
    }

    /// The block after at most `limit` mining attempts. Where one of them
    /// solved the block, nonce and hash are those of the first that did.
    /// Otherwise the nonce is the next one to try and the hash is that of
    /// the last attempt (the old hash, where there was no attempt).
    pub open spec fn after_attempts(self, limit: int) -> BlockView {
        match self.first_solution(0, limit) {
            Some(offset) => self.rehashed(nonce_at(self.nonce, offset)),
            None => BlockView {
                nonce: nonce_at(self.nonce, limit),
                hash: if limit <= 0 {
                    self.hash
                } else {
                    self.rehashed(nonce_at(self.nonce, limit - 1)).hash
                },
                ..self
            },
        }
    }

    /// The block after mining: sealed with the first nonce, in search order
    /// from its own, that solves it; with its own nonce where none does.
    pub open spec fn mined(self) -> BlockView {
        match self.first_solution(0, nonce_space()) {
            Some(offset) => self.rehashed(nonce_at(self.nonce, offset)),
            None => self.rehashed(self.nonce),
        }
    }

    /// The fixed footprint of a block plus the bytes of its three strings.
    pub open spec fn size(self) -> nat {
        size_of::<Block>() + encode_utf8(self.data).len() + encode_utf8(self.previous_hash).len()
            + encode_utf8(self.hash).len()
    }
}

/// What `first_solution` finds is a solution, no earlier offset in the range
/// is one, and where it finds none there is none in the range.
pub proof fn lemma_first_solution(block: BlockView, from: int, limit: int)
    ensures
        match block.first_solution(from, limit) {
            Some(offset) => {
                &&& from <= offset < limit
                &&& block.solves(nonce_at(block.nonce, offset))
                &&& forall|k: int| from <= k < offset ==> !block.solves(nonce_at(block.nonce, k))
            },
            None => forall|k: int| from <= k < limit ==> !block.solves(nonce_at(block.nonce, k)),
        },
    decreases limit - from,
{
    if from < limit && !block.solves(nonce_at(block.nonce, from)) {
        lemma_first_solution(block, from + 1, limit);
    }
}

/// A search of a range is a search of its first part and, where that finds
/// nothing, of the rest.
pub proof fn lemma_search_splits(block: BlockView, from: int, middle: int, limit: int)
    requires
        from <= middle <= limit,
    ensures
        block.first_solution(from, limit) == match block.first_solution(from, middle) {
            Some(offset) => Some(offset),
            None => block.first_solution(middle, limit),
        },
    decreases middle - from,
{
    if from < middle && !block.solves(nonce_at(block.nonce, from)) {
        lemma_search_splits(block, from + 1, middle, limit);
    }
}

/// Going on `second` nonces from where `first` nonces led is going on
/// `first + second` nonces.
pub proof fn lemma_nonce_at_adds(start: u64, first: int, second: int)
    requires
        0 <= first,
        0 <= second,
        first + second <= nonce_space(),
    ensures
        nonce_at(nonce_at(start, first), second) == nonce_at(start, first + second),
{
}

/// A block that differs from `block` in nonce and hash only, with the nonce
/// that lies `moved` attempts on, finds in a search what `block` finds
/// `moved` offsets later.
pub proof fn lemma_search_shifts(
    block: BlockView,
    later: BlockView,
    moved: int,
    from: int,
    limit: int,
)
    requires
        0 <= moved,
        0 <= from <= limit,
        moved + limit <= nonce_space(),
        later == (BlockView { nonce: nonce_at(block.nonce, moved), hash: later.hash, ..block }),
    ensures
        later.first_solution(from, limit) == match block.first_solution(
            moved + from,
            moved + limit,
        ) {
            Some(offset) => Some(offset - moved),
            None => None,
        },
    decreases limit - from,
{
    if from < limit {
        lemma_nonce_at_adds(block.nonce, moved, from);
        assert(later.rehashed(nonce_at(later.nonce, from)) == block.rehashed(
            nonce_at(block.nonce, moved + from),
        ));
        if !later.solves(nonce_at(later.nonce, from)) {
            lemma_search_shifts(block, later, moved, from + 1, limit);
        }
    }
}

/// Mining in rounds. A round that seals the block leaves what mining the
/// block at once leaves.
pub proof fn lemma_sealing_round_is_mining(block: BlockView, limit: int)
    requires
        0 <= limit <= nonce_space(),
        block.first_solution(0, limit) is Some,
    ensures
        block.after_attempts(limit) == block.mined(),
{
    lemma_search_splits(block, 0, limit, nonce_space());
}

/// Mining in rounds. After a round of `first` attempts that does not seal
/// the block, a round of `second` attempts leaves what one round of
/// `first + second` attempts leaves, and seals the block if that does.
pub proof fn lemma_rounds_add_up(block: BlockView, first: int, second: int)
    requires
        0 <= first,
        0 <= second,
        first + second <= nonce_space(),
        block.first_solution(0, first) is None,
    ensures
        block.after_attempts(first).after_attempts(second) == block.after_attempts(first + second),
        block.after_attempts(first).first_solution(0, second) is Some <==> block.first_solution(
            0,
            first + second,
        ) is Some,
{
    let later = block.after_attempts(first);
    lemma_search_splits(block, 0, first, first + second);
    lemma_search_shifts(block, later, first, 0, second);
    match block.first_solution(first, first + second) {
        Some(offset) => {
            lemma_first_solution(block, first, first + second);
            lemma_nonce_at_adds(block.nonce, first, offset - first);
        },
        None => {
            lemma_nonce_at_adds(block.nonce, first, second);
            if second > 0 {
                lemma_nonce_at_adds(block.nonce, first, second - 1);
            }
        },
    }
}

/// A search through the whole nonce space finds a solution exactly where
/// one exists.
pub proof fn lemma_full_search_is_complete(block: BlockView)
    ensures
        block.first_solution(0, nonce_space()) is Some <==> block.solvable(),
{
    lemma_first_solution(block, 0, nonce_space());
    if block.solvable() {
        let nonce = choose|nonce: u64| block.solves(nonce);
        let offset = if nonce >= block.nonce {
            nonce - block.nonce
        } else {
            nonce - block.nonce + nonce_space()
        };
        assert(nonce_at(block.nonce, offset) == nonce);
    }
}

/// Proof of work: mining leaves a block whose hash is the fingerprint of its
/// fields, and, where any nonce solves the block, a hash that meets the
/// difficulty. With difficulty 0 every hash does, and the nonce stays.
pub proof fn lemma_mined_block_is_sealed(block: BlockView)
    ensures
        block.mined().is_hash_valid(),
        block.solvable() <==> block.mined().meets_difficulty(),
        block.difficulty == 0 ==> block.mined() == block.rehashed(block.nonce)
            && block.mined().meets_difficulty(),
        block.mined() == block.rehashed(block.mined().nonce),
{
    lemma_first_solution(block, 0, nonce_space());
    lemma_full_search_is_complete(block);
    assert(nonce_at(block.nonce, 0) == block.nonce);
    if !block.solvable() {
        assert(!block.solves(block.nonce));
    }
}

impl Block {
    /// A block made at `timestamp`, with nonce 0 and the hash that goes with
    /// it. The hash need not meet the difficulty: the block is not mined yet.
    pub fn with_timestamp(
        index: u64,
        timestamp: Timestamp,
        data: String,
        previous_hash: String,
        difficulty: u32,
    ) -> (block: Block)
        ensures
            block@ == BlockView::fresh(index, timestamp, data@, previous_hash@, difficulty),
    {
        let hash = fingerprint(
            index,
            timestamp.seconds,
            data.as_str(),
            previous_hash.as_str(),
            0,
            difficulty,
        );
        Block { index, timestamp, data, previous_hash, hash, nonce: 0, difficulty }
    }

    /// A block made now: as `with_timestamp` makes it at the time that the
    /// clock gives.
    pub fn new(index: u64, data: String, previous_hash: String, difficulty: u32) -> (block: Block)
        ensures
            block@ == BlockView::fresh(
                index,
                block.timestamp,
                data@,
                previous_hash@,
                difficulty,
            ),
    {
        Block::with_timestamp(index, current_time(), data, previous_hash, difficulty)
    }

    /// The first block of a chain, made at `timestamp` and not mined.
    pub fn genesis_block_at(timestamp: Timestamp) -> (block: Block)
        ensures
            block@ == BlockView::fresh(
                0,
                timestamp,
                genesis_data(),
                genesis_previous_hash(),
                GENESIS_DIFFICULTY,
            ),
    {
        Block::with_timestamp(
            0,
            timestamp,
            String::from_str("创世区块 - Genesis Block"),
            String::from_str("0"),
            GENESIS_DIFFICULTY,
        )
    }

    /// The first block of a chain, made now and not mined.
    pub fn genesis_block() -> (block: Block)
        ensures
            block@ == BlockView::fresh(
                0,
                block.timestamp,
                genesis_data(),
                genesis_previous_hash(),
                GENESIS_DIFFICULTY,
            ),
    {
        Block::genesis_block_at(current_time())
    }

    /// The fingerprint of the block's fields as they stand.
    pub fn calculate_hash(&self) -> (hash: String)
        ensures
            hash@ == self@.fingerprint(),
            hash@.len() == 64,
            forall|i: int| 0 <= i < 64 ==> is_lower_hex(#[trigger] hash@[i]),
    {
        fingerprint(
            self.index,
            self.timestamp.seconds,
            self.data.as_str(),
            self.previous_hash.as_str(),
            self.nonce,
            self.difficulty,
        )
    }

    /// Whether the stored hash is the fingerprint of the other fields.
    pub fn is_valid(&self) -> (valid: bool)
        ensures
            valid == self@.is_hash_valid(),
    {
        self.hash == self.calculate_hash()
    }

    /// Whether the stored hash begins with `difficulty` digits `0`. This
    /// looks at the stored hash alone, not at whether it is the right one.
    pub fn has_valid_proof_of_work(&self) -> (valid: bool)
        ensures
            valid == self@.meets_difficulty(),
    {
        starts_with_zeros(self.hash.as_str(), self.difficulty)
    }

    /// Makes up to `limit` attempts, each with the next nonce in order.
    fn search(&mut self, limit: u128) -> (sealed: bool)
        requires
            limit <= nonce_space(),
        ensures
            final(self)@ == old(self)@.after_attempts(limit as int),
            sealed == (old(self)@.first_solution(0, limit as int) is Some),
    {
        let ghost start = self@;
        let mut tried: u128 = 0;
        while tried < limit
            invariant
                tried <= limit <= nonce_space(),
                start == old(self)@,
                self@ == (BlockView {
                    nonce: nonce_at(start.nonce, tried as int),
                    hash: if tried == 0 {
                        start.hash
                    } else {
                        start.rehashed(nonce_at(start.nonce, tried - 1)).hash
                    },
                    ..start
                }),
                start.first_solution(0, limit as int) == start.first_solution(
                    tried as int,
                    limit as int,
                ),
            decreases limit - tried,
        {
            self.hash = self.calculate_hash();
            assert(self@ == start.rehashed(nonce_at(start.nonce, tried as int)));
            if self.has_valid_proof_of_work() {
                return true;
            }
            self.nonce = self.nonce.wrapping_add(1);
            tried += 1;
        }
        false
    }

    /// Makes up to `limit` mining attempts and says whether one sealed the
    /// block. Each attempt hashes the block with its nonce as it stands and
    /// moves on to the next nonce if the hash does not meet the difficulty.
    /// A caller that wants to watch or stop the work mines in rounds of this.
    pub fn mine_attempts(&mut self, limit: u64) -> (sealed: bool)
        ensures
            final(self)@ == old(self)@.after_attempts(limit as int),
            sealed == (old(self)@.first_solution(0, limit as int) is Some),
    {
        self.search(limit as u128)
    }

    /// Proof of work: tries the nonces in order, from the block's own and
    /// wrapping after the largest, until the hash meets the difficulty. If
    /// no nonce at all does, the block keeps its nonce.
    pub fn mine_block(&mut self)
        ensures
            final(self)@ == old(self)@.mined(),
            final(self)@.is_hash_valid(),
            old(self)@.solvable() <==> final(self)@.meets_difficulty(),
    {
        let sealed = self.search(0x1_0000_0000_0000_0000);
        if !sealed {
            self.hash = self.calculate_hash();
        }
        proof {
            lemma_mined_block_is_sealed(old(self)@);
        }
    }

    /// The block's approximate size in bytes: its fixed footprint plus the
    /// bytes of its three strings. A size beyond `usize::MAX` is given as
    /// `usize::MAX`.
    pub fn get_size(&self) -> (size: usize)
        ensures
            size == vstd::math::min(self@.size() as int, usize::MAX as int),
    {
        core::mem::size_of::<Block>().saturating_add(
            self.data.as_str().as_bytes().len(),
        ).saturating_add(self.previous_hash.as_str().as_bytes().len()).saturating_add(
            self.hash.as_str().as_bytes().len(),
        )
    }
}

} // verus!
