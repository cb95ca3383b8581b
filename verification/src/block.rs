//! Blocks: a header, a payload, and the proof of work that seals both.

use vstd::prelude::*;
use vstd::string::StrSliceExecFns;
use vstd::utf8::encode_utf8;
use crate::clock::unix_time;
use crate::digest::{hex_text, sha256, sha256_hex};
use crate::text::{decimal, push_bytes, push_decimal, push_signed_decimal, signed_decimal};

verus! {

/// The number of leading zero digits that a mined block's hash has.
pub const MINING_DIFFICULTY: usize = 4;

/// One block of the chain.
#[derive(Debug)]
pub struct Block {
    /// The height of the block in the chain.
    pub index: u64,
    /// The Unix time at which the block was made.
    pub timestamp: i64,
    /// The hash of the block before this one.
    pub previous_hash: String,
    /// The hash of this block, found by mining.
    pub hash: String,
    /// The number that mining varies.
    pub nonce: u64,
    /// The payload: the JSON form of a list of transactions.
    pub data: String,
    /// What the block pays beyond the base reward.
    pub extra_reward: u64,
}

/// The mathematical content of a [`Block`].
pub struct BlockView {
    pub index: u64,
    pub timestamp: i64,
    pub previous_hash: Seq<char>,
    pub hash: Seq<char>,
    pub nonce: u64,
    pub data: Seq<char>,
    pub extra_reward: u64,
}

impl View for Block {
    type V = BlockView;

    open spec fn view(&self) -> BlockView {
        BlockView {
            index: self.index,
            timestamp: self.timestamp,
            previous_hash: self.previous_hash@,
            hash: self.hash@,
            nonce: self.nonce,
            data: self.data@,
            extra_reward: self.extra_reward,
        }
    }
}

impl DeepView for Block {
    type V = BlockView;

    open spec fn deep_view(&self) -> BlockView {
        self@
    }
}

impl Clone for Block {
    fn clone(&self) -> (copy: Self)
        ensures
            copy == *self,
    {
        Block {
            index: self.index,
            timestamp: self.timestamp,
            previous_hash: self.previous_hash.clone(),
            hash: self.hash.clone(),
            nonce: self.nonce,
            data: self.data.clone(),
            extra_reward: self.extra_reward,
        }
    }
}

/// The bytes that a block's hash commits to: the numerals of the index and
/// of the timestamp, the previous hash, the numeral of the nonce, the payload
/// and the numeral of the extra reward, one after the other.
pub open spec fn block_preimage(block: BlockView) -> Seq<u8> {
    decimal(block.index as nat) + signed_decimal(block.timestamp as int) + encode_utf8(
        block.previous_hash,
    ) + decimal(block.nonce as nat) + encode_utf8(block.data) + decimal(block.extra_reward as nat)
}

/// The hash of a block: the hexadecimal SHA-256 digest of its preimage. It
/// does not depend on the `hash` field.
pub open spec fn block_hash(block: BlockView) -> Seq<char> {
    hex_text(sha256(block_preimage(block)))
}

/// Whether the first `difficulty` characters of a hash are all `'0'`.
pub open spec fn meets_difficulty(hash: Seq<char>, difficulty: nat) -> bool {
    &&& difficulty <= hash.len()
    &&& forall|i: int| 0 <= i < difficulty ==> hash[i] == '0'
}

/// The hash that `block` has with the given nonce.
pub open spec fn hash_with_nonce(block: BlockView, nonce: u64) -> Seq<char> {
    block_hash(BlockView { nonce, ..block })
}

/// Whether `block` is what mining at `difficulty` makes of `template`: the
/// same header and payload, the smallest nonce whose hash meets the
/// difficulty, or the largest nonce there is if none does, and the hash that
/// belongs to that nonce.
pub open spec fn mined_from(block: BlockView, template: BlockView, difficulty: nat) -> bool {
    &&& block.index == template.index
    &&& block.timestamp == template.timestamp
    &&& block.previous_hash == template.previous_hash
    &&& block.data == template.data
    &&& block.extra_reward == template.extra_reward
    &&& block.hash == block_hash(block)
    &&& forall|nonce: u64|
        nonce < block.nonce ==> !meets_difficulty(#[trigger] hash_with_nonce(template, nonce), difficulty)
    &&& (meets_difficulty(block.hash, difficulty) || block.nonce == u64::MAX)
}

/// The header and payload of a block that is yet to be mined.
pub open spec fn template(
    index: u64,
    timestamp: i64,
    previous_hash: Seq<char>,
    data: Seq<char>,
    extra_reward: u64,
) -> BlockView {
    BlockView { index, timestamp, previous_hash, hash: Seq::empty(), nonce: 0, data, extra_reward }
}

/// The payload of the first block of every chain.
pub open spec fn genesis_message() -> Seq<char> {
    "No princípio era o Verbo, imutável como VitaBit. alea jacta est"@
}

/// The previous hash of the first block of every chain.
pub open spec fn genesis_previous_hash() -> Seq<char> {
    "0"@
}

/// Whether the first `difficulty` characters of `hash` are all `'0'`.
pub fn has_leading_zeros(hash: &str, difficulty: usize) -> (ok: bool)
    ensures
        ok == meets_difficulty(hash@, difficulty as nat),
{
    let length = hash.unicode_len();
    if length < difficulty {
        return false;
    }
    let mut i: usize = 0;
    while i < difficulty
        invariant
            i <= difficulty <= length,
            length == hash@.len(),
            forall|k: int| 0 <= k < i ==> hash@[k] == '0',
        decreases difficulty - i,
    {
        if hash.get_char(i) != '0' {
            return false;
        }
        i += 1;
    }
    true
}

impl Block {
    /// Makes the block with the given header and payload, dated by the clock,
    /// and mines it at [`MINING_DIFFICULTY`].
    pub fn new(index: u64, previous_hash: String, data: String, extra_reward: u64) -> (block: Block)
        ensures
            exists|timestamp: i64|
                mined_from(
                    block@,
                    #[trigger] template(index, timestamp, previous_hash@, data@, extra_reward),
                    MINING_DIFFICULTY as nat,
                ),
    {
        let timestamp = unix_time();
        let block = Block::new_at(index, timestamp, previous_hash, data, extra_reward);
        assert(mined_from(
            block@,
            template(index, timestamp, previous_hash@, data@, extra_reward),
            MINING_DIFFICULTY as nat,
        ));
        block
    }

    /// Makes the block with the given header and payload, dated `timestamp`,
    /// and mines it at [`MINING_DIFFICULTY`].
    pub fn new_at(
        index: u64,
        timestamp: i64,
        previous_hash: String,
        data: String,
        extra_reward: u64,
    ) -> (block: Block)
        ensures
            mined_from(
                block@,
                template(index, timestamp, previous_hash@, data@, extra_reward),
                MINING_DIFFICULTY as nat,
            ),
    {
        let mut block = Block {
            index,
            timestamp,
            previous_hash,
            hash: String::new(),
            nonce: 0,
            data,
            extra_reward,
        };
        block.mine(MINING_DIFFICULTY);
        block
    }

    /// Computes the hash that belongs to the block's header and payload.
    pub fn calculate_hash(&self) -> (hash: String)
        ensures
            hash@ == block_hash(self@),
            hash@.len() == 64,
    {
        let mut input: Vec<u8> = Vec::new();
        push_decimal(&mut input, self.index);
        push_signed_decimal(&mut input, self.timestamp);
        push_bytes(&mut input, self.previous_hash.as_str().as_bytes());
        push_decimal(&mut input, self.nonce);
        push_bytes(&mut input, self.data.as_str().as_bytes());
        push_decimal(&mut input, self.extra_reward);
        sha256_hex(input.as_slice())
    }

    /// Searches, from nonce 0 upwards, for the first nonce whose hash starts
    /// with `difficulty` zeros, and leaves that nonce and its hash in the
    /// block. If no nonce will do, the search ends at the largest nonce.
    pub fn mine(&mut self, difficulty: usize)
        ensures
            mined_from(final(self)@, old(self)@, difficulty as nat),
    {
        let mut nonce: u64 = 0;
        loop
            invariant
                self.index == old(self).index,
                self.timestamp == old(self).timestamp,
                self.previous_hash == old(self).previous_hash,
                self.data == old(self).data,
                self.extra_reward == old(self).extra_reward,
                forall|n: u64|
                    n < nonce ==> !meets_difficulty(
                        #[trigger] hash_with_nonce(old(self)@, n),
                        difficulty as nat,
                    ),
            decreases u64::MAX - nonce,
        {
            self.nonce = nonce;
            self.hash = self.calculate_hash();
            if has_leading_zeros(self.hash.as_str(), difficulty) || nonce == u64::MAX {
                return;
            }
            nonce += 1;
        }
    }

    /// Makes the first block of a chain, dated by the clock.
    pub fn genesis() -> (block: Block)
        ensures
            exists|timestamp: i64|
                mined_from(
                    block@,
                    #[trigger] template(0, timestamp, genesis_previous_hash(), genesis_message(), 0),
                    MINING_DIFFICULTY as nat,
                ),
    {
        let timestamp = unix_time();
        let block = Block::genesis_at(timestamp);
        assert(mined_from(
            block@,
            template(0, timestamp, genesis_previous_hash(), genesis_message(), 0),
            MINING_DIFFICULTY as nat,
        ));
        block
    }

    /// Makes the first block of a chain, dated `timestamp`.
    pub fn genesis_at(timestamp: i64) -> (block: Block)
        ensures
            mined_from(
                block@,
                template(0, timestamp, genesis_previous_hash(), genesis_message(), 0),
                MINING_DIFFICULTY as nat,
            ),
    {
        let message = "No princípio era o Verbo, imutável como VitaBit. alea jacta est";
        Block::new_at(0, timestamp, "0".to_owned(), message.to_owned(), 0)
    }
}

} // verus!
