//! The chain: its blocks, the difficulty that the retarget rule maintains,
//! the amount issued so far, and the rules of validity and issuance.

use vstd::prelude::*;
use crate::block::{
    block_hash, genesis_message, genesis_previous_hash, has_leading_zeros, meets_difficulty,
    mined_from, template, Block, BlockView, MINING_DIFFICULTY,
};
use crate::clock::unix_time;
use crate::codec::{
    decode_blocks, decode_transactions, encode_blocks, encode_transactions, json_of_blocks,
    parse_blocks, parse_transactions, transactions_text,
};
use crate::json::json_pretty_text;
use crate::transaction::{
    coinbase, input_authorized, Transaction, TransactionView, TxInputView,
};
use crate::utxo::{
    dormant, entries_of, lemma_removed_not_found, lemma_total_nonnegative, lemma_total_push,
    lookup, total_value, unspent, without, without_all, UTXOSet, UtxoView,
};

verus! {

/// The number of blocks between two retargets.
pub const RETARGET_INTERVAL: usize = 2016;

/// The number of seconds that a retarget interval is meant to take: two
/// weeks, at ten minutes a block.
pub const EXPECTED_SPAN: i64 = 1_209_600;

/// The base reward of the first blocks: fifty coins of a hundred million
/// base units.
pub const INITIAL_REWARD: u64 = 5_000_000_000;

/// The number of blocks after which the base reward halves.
pub const HALVING_INTERVAL: u64 = 210_000;

/// The most that may circulate when dormant outputs are issued again:
/// twenty-one million coins.
pub const SUPPLY_CAP: u64 = 2_100_000_000_000_000;

/// A chain of blocks with its current difficulty and the amount issued.
#[derive(Debug)]
pub struct Blockchain {
    pub chain: Vec<Block>,
    /// The target that the retarget rule maintains.
    pub difficulty: usize,
    /// The sum of all rewards paid so far.
    pub total_em_circulacao: u64,
}

/// The mathematical content of a [`Blockchain`].
pub struct BlockchainView {
    pub chain: Seq<BlockView>,
    pub difficulty: usize,
    pub total_em_circulacao: u64,
}

impl View for Blockchain {
    type V = BlockchainView;

    open spec fn view(&self) -> BlockchainView {
        BlockchainView {
            chain: self.chain.deep_view(),
            difficulty: self.difficulty,
            total_em_circulacao: self.total_em_circulacao,
        }
    }
}

impl Clone for Blockchain {
    fn clone(&self) -> (copy: Self)
        ensures
            copy@ == self@,
    {
        let chain = self.chain.clone();
        Blockchain {
            chain,
            difficulty: self.difficulty,
            total_em_circulacao: self.total_em_circulacao,
        }
    }
}

/// An amount halved `times` times, each time rounding down.
pub open spec fn halved(amount: nat, times: nat) -> nat
    decreases times,
{
    if times == 0 {
        amount
    } else {
        halved(amount, (times - 1) as nat) / 2
    }
}

/// The base reward of the block at `height`.
pub open spec fn base_reward(height: nat) -> nat {
    halved(INITIAL_REWARD as nat, height / (HALVING_INTERVAL as nat))
}

/// What a block pays beyond the base reward when the outputs that are dormant
/// at `now` are issued again: their total, or nothing if that total would
/// lift the amount in circulation over the cap.
pub open spec fn extra_reward(utxos: Seq<UtxoView>, now: i64, circulating: u64) -> int {
    let reclaimed = total_value(dormant(utxos, now));
    if circulating + reclaimed > SUPPLY_CAP {
        0
    } else {
        reclaimed
    }
}

/// The difficulty after the retarget rule has looked at a chain. Only a
/// chain whose length is a multiple of the interval, and more than one
/// interval, is retargeted: by the time between the first and the last block
/// of its last interval.
pub open spec fn retargeted(chain: Seq<BlockView>, difficulty: usize) -> int {
    let height = chain.len() as int;
    if height % (RETARGET_INTERVAL as int) != 0 || height <= RETARGET_INTERVAL {
        difficulty as int
    } else {
        let span = chain[height - 1].timestamp - chain[height - RETARGET_INTERVAL].timestamp;
        if span < EXPECTED_SPAN / 2 {
            difficulty + 1
        } else if span > EXPECTED_SPAN * 2 {
            if difficulty == 0 {
                0
            } else {
                difficulty - 1
            }
        } else {
            difficulty as int
        }
    }
}

/// Whether an input names an output that is in the index and may spend it.
pub open spec fn input_spendable(input: TxInputView, utxos: Seq<UtxoView>) -> bool {
    match lookup(utxos, input.txid, input.index) {
        Some(output) => input_authorized(input, output),
        None => false,
    }
}

/// Whether every input of a transaction is spendable against the index.
pub open spec fn transaction_valid(tx: TransactionView, utxos: Seq<UtxoView>) -> bool {
    forall|k: int| 0 <= k < tx.inputs.len() ==> input_spendable(#[trigger] tx.inputs[k], utxos)
}

/// Whether a block's hash is the hash of its content and meets the mining
/// difficulty.
pub open spec fn sealed(block: BlockView) -> bool {
    &&& block.hash == block_hash(block)
    &&& meets_difficulty(block.hash, MINING_DIFFICULTY as nat)
}

/// Whether block `i` of a chain follows the block before it and is sealed.
pub open spec fn linked(chain: Seq<BlockView>, i: int) -> bool {
    &&& 0 < i < chain.len()
    &&& chain[i].previous_hash == chain[i - 1].hash
    &&& sealed(chain[i])
}

/// Whether block `i` of a chain is valid against an index: it is linked, its
/// payload is a list of transactions, and every transaction after the first,
/// which is the block's coinbase, is valid against the index.
pub open spec fn block_valid(chain: Seq<BlockView>, i: int, utxos: Seq<UtxoView>) -> bool {
    &&& linked(chain, i)
    &&& parse_transactions(chain[i].data) is Some
    &&& forall|k: int|
        1 <= k < parse_transactions(chain[i].data).unwrap().len() ==> transaction_valid(
            #[trigger] parse_transactions(chain[i].data).unwrap()[k],
            utxos,
        )
}

/// Whether block `i` of a chain is valid against the outputs that the blocks
/// before it leave unspent.
pub open spec fn block_valid_in(chain: Seq<BlockView>, i: int) -> bool {
    block_valid(chain, i, unspent(chain.take(i)))
}

/// Whether every block after the first is linked.
pub open spec fn links_valid(chain: Seq<BlockView>) -> bool {
    forall|i: int| 1 <= i < chain.len() ==> #[trigger] linked(chain, i)
}

/// Whether every block after the first is valid against the state of the
/// ledger at its place in the chain.
pub open spec fn chain_valid(chain: Seq<BlockView>) -> bool {
    forall|i: int| 1 <= i < chain.len() ==> #[trigger] block_valid_in(chain, i)
}

/// The transactions that stand in a new block: the coinbase first, then the
/// pending ones, or none of those if `data` is not a list of transactions.
pub open spec fn assembled(data: Seq<char>, miner: Seq<char>, reward: u64, now: i64) -> Seq<
    TransactionView,
> {
    let pending = match parse_transactions(data) {
        Some(txs) => txs,
        None => Seq::empty(),
    };
    seq![coinbase(miner, reward, now)] + pending
}

/// What adding a block at the time `now` does: the outputs that are dormant
/// leave the index; the block follows the last one, carries the coinbase
/// and the pending transactions, records the extra reward and is mined; the
/// whole reward counts as issued; and the difficulty is retargeted.
pub open spec fn block_added(
    before: BlockchainView,
    utxos_before: Seq<UtxoView>,
    data: Seq<char>,
    miner: Seq<char>,
    now: i64,
    after: BlockchainView,
    utxos_after: Seq<UtxoView>,
    block: BlockView,
) -> bool {
    let last = before.chain.last();
    let extra = extra_reward(utxos_before, now, before.total_em_circulacao);
    let reward = base_reward((last.index + 1) as nat) + extra;
    &&& utxos_after == without_all(utxos_before, dormant(utxos_before, now))
    &&& mined_from(
        block,
        template(
            (last.index + 1) as u64,
            now,
            last.hash,
            transactions_text(assembled(data, miner, reward as u64, now)),
            extra as u64,
        ),
        MINING_DIFFICULTY as nat,
    )
    &&& after.chain == before.chain.push(block)
    &&& after.total_em_circulacao == before.total_em_circulacao + reward
    &&& after.difficulty == retargeted(after.chain, before.difficulty)
}

/// Halving once more halves the amount.
pub proof fn lemma_halved_step(amount: nat, times: nat)
    ensures
        halved(amount, times + 1) == halved(amount, times) / 2,
{
}

/// An amount that is zero after some halvings stays zero.
pub proof fn lemma_halved_stays_zero(amount: nat, times: nat, later: nat)
    requires
        halved(amount, times) == 0,
        times <= later,
    ensures
        halved(amount, later) == 0,
    decreases later,
{
    if times < later {
        lemma_halved_stays_zero(amount, times, (later - 1) as nat);
    }
}

/// Shifting right by less than the width halves that many times.
pub proof fn lemma_shift_halves(amount: u64, times: u64)
    requires
        times < 64,
    ensures
        (amount >> times) == halved(amount as nat, times as nat),
    decreases times,
{
    if times == 0 {
        assert(amount >> 0 == amount) by (bit_vector);
    } else {
        lemma_shift_halves(amount, (times - 1) as u64);
        let less = (times - 1) as u64;
        assert((amount >> times) == (amount >> less) / 2) by (bit_vector)
            requires
                0 < times < 64,
                less == times - 1,
        ;
    }
}

/// The reward is gone after thirty-three halvings.
pub proof fn lemma_reward_runs_out(times: nat)
    requires
        times >= 33,
    ensures
        halved(INITIAL_REWARD as nat, times) == 0,
{
    lemma_shift_halves(INITIAL_REWARD, 33);
    assert(5_000_000_000u64 >> 33 == 0) by (bit_vector);
    lemma_halved_stays_zero(INITIAL_REWARD as nat, 33, times);
}

/// The base reward halves, rounding down, with every halving interval.
pub proof fn lemma_reward_halves(height: nat)
    ensures
        base_reward(height + HALVING_INTERVAL as nat) == base_reward(height) / 2,
{
    let interval = HALVING_INTERVAL as nat;
    assert((height + interval) / interval == height / interval + 1) by (nonlinear_arith)
        requires
            interval == 210_000,
    ;
    lemma_halved_step(INITIAL_REWARD as nat, height / interval);
}

/// The base reward is zero from sixty-four halving intervals on.
pub proof fn lemma_reward_ends(height: nat)
    requires
        height >= 64 * HALVING_INTERVAL,
    ensures
        base_reward(height) == 0,
{
    lemma_reward_runs_out(height / (HALVING_INTERVAL as nat));
}

/// The base reward never exceeds the initial reward.
pub proof fn lemma_reward_bounded(height: nat)
    ensures
        base_reward(height) <= INITIAL_REWARD,
{
    lemma_halved_bounded(INITIAL_REWARD as nat, height / (HALVING_INTERVAL as nat));
}

/// Halving does not enlarge.
pub proof fn lemma_halved_bounded(amount: nat, times: nat)
    ensures
        halved(amount, times) <= amount,
    decreases times,
{
    if times > 0 {
        lemma_halved_bounded(amount, (times - 1) as nat);
    }
}

/// In a valid chain every block after the first carries the hash of its
/// own content, and that hash meets the mining difficulty.
pub proof fn lemma_valid_chain_sealed(chain: Seq<BlockView>, i: int)
    requires
        chain_valid(chain),
        1 <= i < chain.len(),
    ensures
        chain[i].hash == block_hash(chain[i]),
        meets_difficulty(chain[i].hash, MINING_DIFFICULTY as nat),
        chain[i].previous_hash == chain[i - 1].hash,
{
    assert(block_valid_in(chain, i));
}

/// A valid chain is linked throughout.
pub proof fn lemma_valid_chain_linked(chain: Seq<BlockView>)
    requires
        chain_valid(chain),
    ensures
        links_valid(chain),
{
    assert forall|i: int| 1 <= i < chain.len() implies #[trigger] linked(chain, i) by {
        assert(block_valid_in(chain, i));
    }
}

/// Every part of a valid chain, taken from its start, is a valid chain.
pub proof fn lemma_valid_chain_prefix(chain: Seq<BlockView>, n: int)
    requires
        chain_valid(chain),
        0 <= n <= chain.len(),
    ensures
        chain_valid(chain.take(n)),
{
    let part = chain.take(n);
    assert forall|i: int| 1 <= i < part.len() implies #[trigger] block_valid_in(part, i) by {
        assert(block_valid_in(chain, i));
        assert(part.take(i) =~= chain.take(i));
    }
}

/// A block after the first that does not follow the block before it, or
/// whose hash is not the hash of its content, makes the chain invalid from
/// that block on, however far the chain goes on after it.
pub proof fn lemma_broken_block_invalidates(chain: Seq<BlockView>, i: int, n: int)
    requires
        1 <= i < n <= chain.len(),
        chain[i].hash != block_hash(chain[i]) || chain[i].previous_hash != chain[i - 1].hash,
    ensures
        !chain_valid(chain.take(n)),
        !links_valid(chain.take(n)),
{
    let part = chain.take(n);
    if chain_valid(part) {
        assert(block_valid_in(part, i));
    }
    if links_valid(part) {
        assert(linked(part, i));
    }
}

/// Changing a block after the first invalidates the chain from that block
/// on: both where only the recorded hash was changed, and where the content
/// was changed, the recorded hash was left, and the content's hash is no
/// longer the old one.
pub proof fn lemma_tampering_invalidates(chain: Seq<BlockView>, i: int, tampered: BlockView, n: int)
    requires
        1 <= i < n <= chain.len(),
        chain[i].hash == block_hash(chain[i]),
        (tampered.hash != chain[i].hash && block_hash(tampered) == block_hash(chain[i])) || (
        tampered.hash == chain[i].hash && block_hash(tampered) != block_hash(chain[i])),
    ensures
        !chain_valid(chain.update(i, tampered).take(n)),
        !links_valid(chain.update(i, tampered).take(n)),
{
    lemma_broken_block_invalidates(chain.update(i, tampered), i, n);
}

/// A block that was added follows the block that was last before, and
/// carries the hash of its own content. If its hash meets the mining
/// difficulty, a chain that was linked stays linked.
pub proof fn lemma_added_block_linked(
    before: BlockchainView,
    utxos_before: Seq<UtxoView>,
    data: Seq<char>,
    miner: Seq<char>,
    now: i64,
    after: BlockchainView,
    utxos_after: Seq<UtxoView>,
    block: BlockView,
)
    requires
        before.chain.len() > 0,
        block_added(before, utxos_before, data, miner, now, after, utxos_after, block),
    ensures
        after.chain.len() == before.chain.len() + 1,
        after.chain.last() == block,
        block.previous_hash == before.chain.last().hash,
        block.hash == block_hash(block),
        links_valid(before.chain) && meets_difficulty(block.hash, MINING_DIFFICULTY as nat)
            ==> links_valid(after.chain),
{
    if links_valid(before.chain) && meets_difficulty(block.hash, MINING_DIFFICULTY as nat) {
        assert forall|i: int| 1 <= i < after.chain.len() implies #[trigger] linked(after.chain, i) by {
            if i < before.chain.len() {
                assert(linked(before.chain, i));
            }
        }
    }
}

/// A transaction with an input whose output is not in the index is invalid.
pub proof fn lemma_missing_output_rejected(tx: TransactionView, utxos: Seq<UtxoView>, k: int)
    requires
        0 <= k < tx.inputs.len(),
        lookup(utxos, tx.inputs[k].txid, tx.inputs[k].index) is None,
    ensures
        !transaction_valid(tx, utxos),
{
    assert(!input_spendable(tx.inputs[k], utxos));
}

/// A transaction with an input whose output has been spent is invalid.
pub proof fn lemma_spent_output_rejected(tx: TransactionView, utxos: Seq<UtxoView>, k: int)
    requires
        0 <= k < tx.inputs.len(),
    ensures
        !transaction_valid(tx, without(utxos, tx.inputs[k].txid, tx.inputs[k].index)),
{
    lemma_removed_not_found(utxos, tx.inputs[k].txid, tx.inputs[k].index);
    lemma_missing_output_rejected(tx, without(utxos, tx.inputs[k].txid, tx.inputs[k].index), k);
}

/// A transaction is valid if every one of its inputs names an output that
/// is in the index and is entitled to it.
pub proof fn lemma_spendable_inputs_accepted(tx: TransactionView, utxos: Seq<UtxoView>)
    requires
        forall|k: int|
            0 <= k < tx.inputs.len() ==> {
                let found = lookup(utxos, (#[trigger] tx.inputs[k]).txid, tx.inputs[k].index);
                found is Some && input_authorized(tx.inputs[k], found.unwrap())
            },
    ensures
        transaction_valid(tx, utxos),
{
    assert forall|k: int| 0 <= k < tx.inputs.len() implies input_spendable(
        #[trigger] tx.inputs[k],
        utxos,
    ) by {}
}

/// The retarget rule, case by case: off the boundary nothing changes; on it
/// a short interval adds one, a long one takes one away but not below zero,
/// and anything between changes nothing.
pub proof fn lemma_retarget_cases(chain: Seq<BlockView>, difficulty: usize)
    ensures
        ({
            let height = chain.len() as int;
            let span = chain[height - 1].timestamp - chain[height - RETARGET_INTERVAL].timestamp;
            let on_boundary = height % 2016 == 0 && height > 2016;
            &&& !on_boundary ==> retargeted(chain, difficulty) == difficulty
            &&& on_boundary && span < 604_800 ==> retargeted(chain, difficulty) == difficulty + 1
            &&& on_boundary && span > 2_419_200 && difficulty > 0 ==> retargeted(chain, difficulty)
                == difficulty - 1
            &&& on_boundary && span > 2_419_200 && difficulty == 0 ==> retargeted(chain, difficulty)
                == 0
            &&& on_boundary && 604_800 <= span <= 2_419_200 ==> retargeted(chain, difficulty)
                == difficulty
        }),
{
}

impl Blockchain {
    /// Decides whether every input of `tx` names an output that is in the
    /// index and is entitled to it.
    pub fn verify_transaction(&self, tx: &Transaction, utxo_set: &UTXOSet) -> (valid: bool)
        ensures
            valid == transaction_valid(tx@, utxo_set@),
    {
        let mut k: usize = 0;
        while k < tx.inputs.len()
            invariant
                k <= tx.inputs@.len(),
                forall|j: int| 0 <= j < k ==> input_spendable(#[trigger] tx@.inputs[j], utxo_set@),
            decreases tx.inputs@.len() - k,
        {
            let input = &tx.inputs[k];
            assert(tx@.inputs[k as int] == input@);
            let output = match utxo_set.get(input.txid.as_str(), input.index) {
                Some(output) => output,
                None => {
                    return false;
                },
            };
            if !input.is_valid(output) {
                return false;
            }
            k += 1;
        }
        true
    }

    /// Decides whether block `block_index` is valid against `utxo_set`.
    pub fn verify_block(&self, block_index: usize, utxo_set: &UTXOSet) -> (valid: bool)
        ensures
            valid == block_valid(self@.chain, block_index as int, utxo_set@),
    {
        if block_index == 0 || block_index >= self.chain.len() {
            return false;
        }
        let block = &self.chain[block_index];
        let previous = &self.chain[block_index - 1];
        if block.previous_hash != previous.hash {
            return false;
        }
        if block.hash != block.calculate_hash() {
            return false;
        }
        if !has_leading_zeros(block.hash.as_str(), MINING_DIFFICULTY) {
            return false;
        }
        let txs = match decode_transactions(block.data.as_str()) {
            Some(txs) => txs,
            None => {
                return false;
            },
        };
        let mut k: usize = 1;
        while k < txs.len()
            invariant
                1 <= k,
                0 < block_index < self@.chain.len(),
                self@.chain[block_index as int] == block@,
                linked(self@.chain, block_index as int),
                parse_transactions(block@.data) == Some(txs.deep_view()),
                forall|j: int| 1 <= j < k ==> transaction_valid(#[trigger] txs.deep_view()[j], utxo_set@),
            decreases txs@.len() - k,
        {
            if !self.verify_transaction(&txs[k], utxo_set) {
                assert(!transaction_valid(
                    parse_transactions(self@.chain[block_index as int].data).unwrap()[k as int],
                    utxo_set@,
                ));
                return false;
            }
            k += 1;
        }
        true
    }

    /// Decides whether the whole chain is valid: every block after the first
    /// against the outputs that the blocks before it leave unspent.
    pub fn verify_chain(&self) -> (valid: bool)
        ensures
            valid == chain_valid(self@.chain),
    {
        let mut utxo = UTXOSet::new();
        let length = self.chain.len();
        if length == 0 {
            return true;
        }
        let ghost blocks = self@.chain;
        utxo.apply_block(&self.chain[0]);
        proof {
            assert(blocks.take(1).drop_last() =~= Seq::<BlockView>::empty());
            assert(unspent(Seq::<BlockView>::empty()) == Seq::<UtxoView>::empty());
        }
        let mut i: usize = 1;
        while i < length
            invariant
                1 <= i <= length,
                length == self.chain@.len(),
                blocks == self@.chain,
                utxo@ == unspent(blocks.take(i as int)),
                forall|j: int| 1 <= j < i ==> #[trigger] block_valid_in(blocks, j),
            decreases length - i,
        {
            if !self.verify_block(i, &utxo) {
                assert(!block_valid_in(blocks, i as int));
                return false;
            }
            utxo.apply_block(&self.chain[i]);
            proof {
                assert(blocks.take(i + 1).drop_last() =~= blocks.take(i as int));
            }
            i += 1;
        }
        true
    }

    /// A chain that holds a freshly mined first block and nothing else.
    pub fn new() -> (blockchain: Blockchain)
        ensures
            blockchain@.chain.len() == 1,
            exists|timestamp: i64|
                mined_from(
                    blockchain@.chain[0],
                    #[trigger] template(0, timestamp, genesis_previous_hash(), genesis_message(), 0),
                    MINING_DIFFICULTY as nat,
                ),
            blockchain@.difficulty == MINING_DIFFICULTY,
            blockchain@.total_em_circulacao == 0,
    {
        let genesis = Block::genesis();
        let mut chain: Vec<Block> = Vec::new();
        chain.push(genesis);
        Blockchain { chain, difficulty: MINING_DIFFICULTY, total_em_circulacao: 0 }
    }

    /// The hash of the last block.
    pub fn latest_hash(&self) -> (hash: String)
        requires
            self@.chain.len() > 0,
        ensures
            hash@ == self@.chain.last().hash,
    {
        self.chain[self.chain.len() - 1].hash.clone()
    }

    /// The number of blocks.
    pub fn height(&self) -> (height: u64)
        ensures
            height == self@.chain.len(),
    {
        self.chain.len() as u64
    }

    /// The base reward of the block at height `altura_bloco`.
    pub fn calcular_recompensa(altura_bloco: u64) -> (reward: u64)
        ensures
            reward == base_reward(altura_bloco as nat),
    {
        let halvings = altura_bloco / HALVING_INTERVAL;
        if halvings >= 64 {
            proof {
                lemma_reward_runs_out(halvings as nat);
            }
            0
        } else {
            proof {
                lemma_shift_halves(INITIAL_REWARD, halvings);
            }
            INITIAL_REWARD >> halvings
        }
    }

    /// Takes the outputs that are dormant at `tempo_atual` out of the index
    /// and returns what they add to the next block's reward: their total, or
    /// nothing if that total would lift `vbit_em_circulacao` over the cap.
    pub fn calcular_recompensa_extra(
        utxo_set: &mut UTXOSet,
        blockchain: &Blockchain,
        tempo_atual: i64,
        vbit_em_circulacao: u64,
    ) -> (extra: u64)
        ensures
            final(utxo_set)@ == without_all(old(utxo_set)@, dormant(old(utxo_set)@, tempo_atual)),
            extra == extra_reward(old(utxo_set)@, tempo_atual, vbit_em_circulacao),
    {
        let inativos = utxo_set.utxos_inativos(blockchain, tempo_atual);
        let ghost reclaimed = entries_of(inativos@);
        let mut total: u64 = 0;
        let mut over: bool = vbit_em_circulacao > SUPPLY_CAP;
        let mut i: usize = 0;
        while i < inativos.len()
            invariant
                i <= inativos@.len(),
                reclaimed == entries_of(inativos@),
                reclaimed == dormant(old(utxo_set)@, tempo_atual),
                utxo_set@ == without_all(old(utxo_set)@, reclaimed.take(i as int)),
                over ==> vbit_em_circulacao + total_value(reclaimed.take(i as int)) > SUPPLY_CAP,
                !over ==> total == total_value(reclaimed.take(i as int)) && vbit_em_circulacao
                    + total <= SUPPLY_CAP,
            decreases inativos@.len() - i,
        {
            let entry = &inativos[i];
            proof {
                assert(reclaimed.take(i + 1).drop_last() =~= reclaimed.take(i as int));
                lemma_total_push(reclaimed.take(i as int), reclaimed[i as int]);
                lemma_total_nonnegative(reclaimed.take(i as int));
            }
            utxo_set.remove(entry.0.as_str(), entry.1);
            if !over {
                if entry.2.value > SUPPLY_CAP - vbit_em_circulacao - total {
                    over = true;
                } else {
                    total = total + entry.2.value;
                }
            }
            i += 1;
        }
        proof {
            assert(reclaimed.take(i as int) =~= reclaimed);
        }
        if over {
            0
        } else {
            total
        }
    }

    /// Assembles, mines and appends the next block, dated by the clock. See
    /// [`Blockchain::add_block_at`].
    pub fn add_block(&mut self, data: String, miner_address: &str, utxo_set: &mut UTXOSet) -> (block:
        Block)
        requires
            old(self)@.chain.len() > 0,
            old(self)@.chain.last().index < u64::MAX,
            old(self)@.total_em_circulacao + base_reward((old(self)@.chain.last().index + 1) as nat)
                <= u64::MAX,
            old(self)@.difficulty < usize::MAX,
        ensures
            exists|now: i64|
                #[trigger] block_added(
                    old(self)@,
                    old(utxo_set)@,
                    data@,
                    miner_address@,
                    now,
                    final(self)@,
                    final(utxo_set)@,
                    block@,
                ),
    {
        let now = unix_time();
        self.add_block_at(data, miner_address, utxo_set, now)
    }

    /// Assembles, mines and appends the next block at the time `now`.
    ///
    /// The outputs that are dormant at `now` leave `utxo_set` and make the
    /// extra reward. The block pays the base reward of its height and the
    /// extra reward to `miner_address` in a coinbase transaction, which
    /// stands before the transactions that `data` lists; a `data` that is
    /// not a list of transactions stands for none. The index is not told of
    /// the new block.
    pub fn add_block_at(
        &mut self,
        data: String,
        miner_address: &str,
        utxo_set: &mut UTXOSet,
        now: i64,
    ) -> (block: Block)
        requires
            old(self)@.chain.len() > 0,
            old(self)@.chain.last().index < u64::MAX,
            old(self)@.total_em_circulacao + base_reward((old(self)@.chain.last().index + 1) as nat)
                <= u64::MAX,
            old(self)@.difficulty < usize::MAX,
        ensures
            block_added(
                old(self)@,
                old(utxo_set)@,
                data@,
                miner_address@,
                now,
                final(self)@,
                final(utxo_set)@,
                block@,
            ),
    {
        let extra_reward = Blockchain::calcular_recompensa_extra(
            utxo_set,
            self,
            now,
            self.total_em_circulacao,
        );
        let last_block = &self.chain[self.chain.len() - 1];
        let index = last_block.index + 1;
        let previous_hash = last_block.hash.clone();
        let base_reward = Blockchain::calcular_recompensa(index);
        proof {
            lemma_reward_bounded(index as nat);
        }
        let total_reward = base_reward + extra_reward;
        let reward_tx = Transaction::new_coinbase_at(miner_address, total_reward, now);
        let mut txs: Vec<Transaction> = match decode_transactions(data.as_str()) {
            Some(txs) => txs,
            None => Vec::new(),
        };
        let ghost pending = txs.deep_view();
        txs.insert(0, reward_tx);
        proof {
            assert(pending =~= match parse_transactions(data@) {
                Some(listed) => listed,
                None => Seq::empty(),
            });
            assert(txs.deep_view() =~= assembled(data@, miner_address@, total_reward, now));
        }
        let txs_json = encode_transactions(&txs);
        let new_block = Block::new_at(index, now, previous_hash, txs_json, extra_reward);
        let ghost before = self@.chain;
        self.chain.push(new_block.clone());
        assert(self@.chain =~= before.push(new_block@));
        self.total_em_circulacao = self.total_em_circulacao + total_reward;
        self.ajustar_dificuldade();
        new_block
    }

    /// Applies the retarget rule to the chain as it stands.
    pub fn ajustar_dificuldade(&mut self)
        requires
            retargeted(old(self)@.chain, old(self)@.difficulty) <= usize::MAX,
        ensures
            final(self)@.difficulty == retargeted(old(self)@.chain, old(self)@.difficulty),
            final(self)@.chain == old(self)@.chain,
            final(self)@.total_em_circulacao == old(self)@.total_em_circulacao,
    {
        let altura = self.chain.len();
        if altura % RETARGET_INTERVAL != 0 || altura <= RETARGET_INTERVAL {
            return;
        }
        let bloco_atual = &self.chain[altura - 1];
        let bloco_ajuste = &self.chain[altura - RETARGET_INTERVAL];
        let tempo_real: i128 = bloco_atual.timestamp as i128 - bloco_ajuste.timestamp as i128;
        if tempo_real < (EXPECTED_SPAN / 2) as i128 {
            self.difficulty = self.difficulty + 1;
        } else if tempo_real > (EXPECTED_SPAN * 2) as i128 {
            if self.difficulty > 0 {
                self.difficulty = self.difficulty - 1;
            }
        }
    }

    /// Decides whether every block after the first follows the block before
    /// it and is sealed. The transactions are not looked at.
    pub fn is_valid(&self) -> (valid: bool)
        ensures
            valid == links_valid(self@.chain),
    {
        let mut i: usize = 1;
        while i < self.chain.len()
            invariant
                1 <= i,
                forall|j: int| 1 <= j < i ==> #[trigger] linked(self@.chain, j),
            decreases self.chain@.len() - i,
        {
            let current = &self.chain[i];
            let previous = &self.chain[i - 1];
            if current.hash != current.calculate_hash() {
                assert(!linked(self@.chain, i as int));
                return false;
            }
            if current.previous_hash != previous.hash {
                assert(!linked(self@.chain, i as int));
                return false;
            }
            if !has_leading_zeros(current.hash.as_str(), MINING_DIFFICULTY) {
                assert(!linked(self@.chain, i as int));
                return false;
            }
            i += 1;
        }
        true
    }

    /// The chain as it is kept in a file: the indented JSON form of the
    /// list of its blocks.
    pub fn to_json(&self) -> (text: String)
        ensures
            text@ == json_pretty_text(json_of_blocks(self@.chain)),
    {
        encode_blocks(&self.chain)
    }

    /// The chain that a file holds: its blocks, with the difficulty and the
    /// amount issued of a new chain. There is none if the text is not the
    /// JSON form of a list of blocks.
    pub fn from_json(text: &str) -> (blockchain: Option<Blockchain>)
        ensures
            match blockchain {
                Some(blockchain) => parse_blocks(text@) == Some(blockchain@.chain)
                    && blockchain@.difficulty == MINING_DIFFICULTY
                    && blockchain@.total_em_circulacao == 0,
                None => parse_blocks(text@) is None,
            },
    {
        match decode_blocks(text) {
            Some(chain) => Some(
                Blockchain { chain, difficulty: MINING_DIFFICULTY, total_em_circulacao: 0 },
            ),
            None => None,
        }
    }

    /// The blocks of the chain.
    pub fn get_blocks(&self) -> (blocks: &Vec<Block>)
        ensures
            blocks == &self.chain,
    {
        &self.chain
    }
}

} // verus!
