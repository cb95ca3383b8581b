//! The index of unspent outputs, and the rules by which a chain fills and
//! drains it.

use vstd::prelude::*;
use crate::block::{Block, BlockView};
use crate::blockchain::Blockchain;
use crate::codec::{decode_transactions, parse_transactions};
use crate::text::same_text;
use crate::transaction::{Transaction, TransactionView, TxInputView, TxOutput, TxOutputView};

verus! {

/// The number of seconds after which an unspent output counts as dormant:
/// a hundred years of 365 days.
pub const DORMANCY_SECONDS: i64 = 3_153_600_000;

/// One unspent output: where it was made and what it holds.
#[derive(Debug)]
pub struct Utxo {
    /// The id of the transaction that made the output.
    pub txid: String,
    /// The position of the output in that transaction.
    pub index: usize,
    pub output: TxOutput,
}

/// The mathematical content of a [`Utxo`].
pub struct UtxoView {
    pub txid: Seq<char>,
    pub index: usize,
    pub output: TxOutputView,
}

impl View for Utxo {
    type V = UtxoView;

    open spec fn view(&self) -> UtxoView {
        UtxoView { txid: self.txid@, index: self.index, output: self.output@ }
    }
}

impl DeepView for Utxo {
    type V = UtxoView;

    open spec fn deep_view(&self) -> UtxoView {
        self@
    }
}

impl Clone for Utxo {
    fn clone(&self) -> (copy: Self)
        ensures
            copy == *self,
    {
        Utxo { txid: self.txid.clone(), index: self.index, output: self.output.clone() }
    }
}

/// The unspent outputs, in the order in which they were made.
#[derive(Debug)]
pub struct UTXOSet {
    pub utxos: Vec<Utxo>,
}

impl View for UTXOSet {
    type V = Seq<UtxoView>;

    open spec fn view(&self) -> Seq<UtxoView> {
        self.utxos.deep_view()
    }
}

impl Clone for UTXOSet {
    fn clone(&self) -> (copy: Self)
        ensures
            copy@ == self@,
    {
        let utxos = self.utxos.clone();
        UTXOSet { utxos }
    }
}

/// Whether an entry is output `index` of transaction `txid`.
pub open spec fn refers_to(entry: UtxoView, txid: Seq<char>, index: usize) -> bool {
    entry.txid == txid && entry.index == index
}

/// The entries that are not output `index` of transaction `txid`, in their
/// order.
pub open spec fn without(utxos: Seq<UtxoView>, txid: Seq<char>, index: usize) -> Seq<UtxoView> {
    utxos.filter(|entry: UtxoView| !refers_to(entry, txid, index))
}

/// The first entry that is output `index` of transaction `txid`.
pub open spec fn lookup(utxos: Seq<UtxoView>, txid: Seq<char>, index: usize) -> Option<TxOutputView>
    decreases utxos.len(),
{
    if utxos.len() == 0 {
        None
    } else if refers_to(utxos[0], txid, index) {
        Some(utxos[0].output)
    } else {
        lookup(utxos.drop_first(), txid, index)
    }
}

/// The entries that belong to `address`, in their order.
pub open spec fn owned(utxos: Seq<UtxoView>, address: Seq<char>) -> Seq<UtxoView> {
    utxos.filter(|entry: UtxoView| entry.output.address == address)
}

/// The sum of the values of the entries.
pub open spec fn total_value(utxos: Seq<UtxoView>) -> int
    decreases utxos.len(),
{
    if utxos.len() == 0 {
        0
    } else {
        total_value(utxos.drop_last()) + utxos.last().output.value
    }
}

/// Whether an output made at `created_at` is dormant at `now`: a hundred
/// years or more have passed.
pub open spec fn is_dormant(created_at: i64, now: i64) -> bool {
    now - created_at >= DORMANCY_SECONDS
}

/// The entries that are dormant at `now`, in their order.
pub open spec fn dormant(utxos: Seq<UtxoView>, now: i64) -> Seq<UtxoView> {
    utxos.filter(|entry: UtxoView| is_dormant(entry.output.timestamp, now))
}

/// What is left when each listed entry's output is removed in turn.
pub open spec fn without_all(utxos: Seq<UtxoView>, spent: Seq<UtxoView>) -> Seq<UtxoView>
    decreases spent.len(),
{
    if spent.len() == 0 {
        utxos
    } else {
        without(without_all(utxos, spent.drop_last()), spent.last().txid, spent.last().index)
    }
}

/// The entries that a transaction's outputs make.
pub open spec fn created_by(tx: TransactionView) -> Seq<UtxoView> {
    Seq::new(
        tx.outputs.len(),
        |i: int| UtxoView { txid: tx.id, index: i as usize, output: tx.outputs[i] },
    )
}

/// What is left when the output that each input names is removed in turn.
pub open spec fn spend(utxos: Seq<UtxoView>, inputs: Seq<TxInputView>) -> Seq<UtxoView>
    decreases inputs.len(),
{
    if inputs.len() == 0 {
        utxos
    } else {
        without(spend(utxos, inputs.drop_last()), inputs.last().txid, inputs.last().index)
    }
}

/// The index after a transaction: its outputs are added, then the outputs
/// that its inputs name are removed.
pub open spec fn apply_transaction(utxos: Seq<UtxoView>, tx: TransactionView) -> Seq<UtxoView> {
    spend(utxos + created_by(tx), tx.inputs)
}

/// The index after a list of transactions, applied in their order.
pub open spec fn apply_transactions(utxos: Seq<UtxoView>, txs: Seq<TransactionView>) -> Seq<
    UtxoView,
>
    decreases txs.len(),
{
    if txs.len() == 0 {
        utxos
    } else {
        apply_transaction(apply_transactions(utxos, txs.drop_last()), txs.last())
    }
}

/// The index after a block with the given payload. A payload that is not a
/// list of transactions changes nothing.
pub open spec fn apply_payload(utxos: Seq<UtxoView>, data: Seq<char>) -> Seq<UtxoView> {
    match parse_transactions(data) {
        Some(txs) => apply_transactions(utxos, txs),
        None => utxos,
    }
}

/// The unspent outputs of a chain: what replaying its blocks from the first
/// leaves in an index that starts empty.
pub open spec fn unspent(chain: Seq<BlockView>) -> Seq<UtxoView>
    decreases chain.len(),
{
    if chain.len() == 0 {
        Seq::empty()
    } else {
        apply_payload(unspent(chain.drop_last()), chain.last().data)
    }
}

/// One step in the history of the index: an output is made, or the output
/// `index` of transaction `txid` is spent.
pub enum Step {
    Made(UtxoView),
    Spent(Seq<char>, usize),
}

/// The steps that make the given entries, in their order.
pub open spec fn made(entries: Seq<UtxoView>) -> Seq<Step> {
    Seq::new(entries.len(), |i: int| Step::Made(entries[i]))
}

/// The steps that spend what the given inputs name, in their order.
pub open spec fn spent(inputs: Seq<TxInputView>) -> Seq<Step> {
    Seq::new(inputs.len(), |i: int| Step::Spent(inputs[i].txid, inputs[i].index))
}

/// The steps of a transaction: its outputs are made, then its inputs spend.
pub open spec fn transaction_steps(tx: TransactionView) -> Seq<Step> {
    made(created_by(tx)) + spent(tx.inputs)
}

/// The steps of a list of transactions, in their order.
pub open spec fn transactions_steps(txs: Seq<TransactionView>) -> Seq<Step>
    decreases txs.len(),
{
    if txs.len() == 0 {
        Seq::empty()
    } else {
        transactions_steps(txs.drop_last()) + transaction_steps(txs.last())
    }
}

/// The steps of a block with the given payload.
pub open spec fn payload_steps(data: Seq<char>) -> Seq<Step> {
    match parse_transactions(data) {
        Some(txs) => transactions_steps(txs),
        None => Seq::empty(),
    }
}

/// The history of a chain: the steps of its blocks, from the first on.
pub open spec fn history(chain: Seq<BlockView>) -> Seq<Step>
    decreases chain.len(),
{
    if chain.len() == 0 {
        Seq::empty()
    } else {
        history(chain.drop_last()) + payload_steps(chain.last().data)
    }
}

/// The index after the given steps.
pub open spec fn after_steps(utxos: Seq<UtxoView>, steps: Seq<Step>) -> Seq<UtxoView>
    decreases steps.len(),
{
    if steps.len() == 0 {
        utxos
    } else {
        let before = after_steps(utxos, steps.drop_last());
        match steps.last() {
            Step::Made(entry) => before.push(entry),
            Step::Spent(txid, index) => without(before, txid, index),
        }
    }
}

/// Whether a step spends the output of an entry.
pub open spec fn spends(step: Step, entry: UtxoView) -> bool {
    match step {
        Step::Made(_) => false,
        Step::Spent(txid, index) => refers_to(entry, txid, index),
    }
}

/// Whether some step makes the entry and no later step spends its output.
pub open spec fn survives(steps: Seq<Step>, entry: UtxoView) -> bool {
    exists|i: int|
        0 <= i < steps.len() && #[trigger] steps[i] == Step::Made(entry) && forall|j: int|
            i < j < steps.len() ==> !spends(#[trigger] steps[j], entry)
}

/// The entries that a list of found outputs stands for.
pub open spec fn entries_of(found: Seq<(String, usize, TxOutput)>) -> Seq<UtxoView> {
    Seq::new(
        found.len(),
        |i: int| UtxoView { txid: found[i].0@, index: found[i].1, output: found[i].2@ },
    )
}

/// Removing an output from a list that ends in `entry` removes it from the
/// list before, and keeps `entry` unless it is that output.
pub proof fn lemma_without_push(utxos: Seq<UtxoView>, entry: UtxoView, txid: Seq<char>, index: usize)
    ensures
        without(utxos.push(entry), txid, index) == if refers_to(entry, txid, index) {
            without(utxos, txid, index)
        } else {
            without(utxos, txid, index).push(entry)
        },
{
    reveal(Seq::filter);
    assert(utxos.push(entry).drop_last() =~= utxos);
}

/// The entries of an address in a list that ends in `entry`.
pub proof fn lemma_owned_push(utxos: Seq<UtxoView>, entry: UtxoView, address: Seq<char>)
    ensures
        owned(utxos.push(entry), address) == if entry.output.address == address {
            owned(utxos, address).push(entry)
        } else {
            owned(utxos, address)
        },
{
    reveal(Seq::filter);
    assert(utxos.push(entry).drop_last() =~= utxos);
}

/// The dormant entries of a list that ends in `entry`.
pub proof fn lemma_dormant_push(utxos: Seq<UtxoView>, entry: UtxoView, now: i64)
    ensures
        dormant(utxos.push(entry), now) == if is_dormant(entry.output.timestamp, now) {
            dormant(utxos, now).push(entry)
        } else {
            dormant(utxos, now)
        },
{
    reveal(Seq::filter);
    assert(utxos.push(entry).drop_last() =~= utxos);
}

/// The total of a list that ends in `entry`.
pub proof fn lemma_total_push(utxos: Seq<UtxoView>, entry: UtxoView)
    ensures
        total_value(utxos.push(entry)) == total_value(utxos) + entry.output.value,
{
    assert(utxos.push(entry).drop_last() =~= utxos);
}

/// No total is negative.
pub proof fn lemma_total_nonnegative(utxos: Seq<UtxoView>)
    ensures
        total_value(utxos) >= 0,
    decreases utxos.len(),
{
    if utxos.len() > 0 {
        lemma_total_nonnegative(utxos.drop_last());
    }
}

/// The total of a part of a list, taken from its start, is at most the
/// total of the whole.
pub proof fn lemma_total_prefix(utxos: Seq<UtxoView>, n: int)
    requires
        0 <= n <= utxos.len(),
    ensures
        total_value(utxos.take(n)) <= total_value(utxos),
    decreases utxos.len() - n,
{
    if n < utxos.len() {
        lemma_total_prefix(utxos, n + 1);
        assert(utxos.take(n + 1).drop_last() =~= utxos.take(n));
    } else {
        assert(utxos.take(n) =~= utxos);
    }
}

/// What an address owns in a part of a list, taken from its start, is worth
/// at most what it owns in the whole.
pub proof fn lemma_owned_prefix(utxos: Seq<UtxoView>, address: Seq<char>, n: int)
    requires
        0 <= n <= utxos.len(),
    ensures
        total_value(owned(utxos.take(n), address)) <= total_value(owned(utxos, address)),
    decreases utxos.len() - n,
{
    if n < utxos.len() {
        lemma_owned_prefix(utxos, address, n + 1);
        assert(utxos.take(n + 1) =~= utxos.take(n).push(utxos[n]));
        lemma_owned_push(utxos.take(n), utxos[n], address);
        if utxos[n].output.address == address {
            lemma_total_push(owned(utxos.take(n), address), utxos[n]);
        }
    } else {
        assert(utxos.take(n) =~= utxos);
    }
}

/// An entry stays in a list from which an output is removed exactly if it
/// was there and is not that output.
pub proof fn lemma_without_contains(
    utxos: Seq<UtxoView>,
    txid: Seq<char>,
    index: usize,
    entry: UtxoView,
)
    ensures
        without(utxos, txid, index).contains(entry) <==> utxos.contains(entry) && !refers_to(
            entry,
            txid,
            index,
        ),
    decreases utxos.len(),
{
    if utxos.len() == 0 {
        reveal(Seq::filter);
    } else {
        let front = utxos.drop_last();
        let last = utxos.last();
        assert(utxos =~= front.push(last));
        lemma_without_push(front, last, txid, index);
        lemma_without_contains(front, txid, index, entry);
        lemma_push_contains(front, last, entry);
        lemma_push_contains(without(front, txid, index), last, entry);
    }
}

/// An entry is among those of an address exactly if it is in the list and
/// belongs to the address.
pub proof fn lemma_owned_contains(utxos: Seq<UtxoView>, address: Seq<char>, entry: UtxoView)
    ensures
        owned(utxos, address).contains(entry) <==> utxos.contains(entry) && entry.output.address
            == address,
    decreases utxos.len(),
{
    if utxos.len() == 0 {
        reveal(Seq::filter);
    } else {
        let front = utxos.drop_last();
        let last = utxos.last();
        assert(utxos =~= front.push(last));
        lemma_owned_push(front, last, address);
        lemma_owned_contains(front, address, entry);
        lemma_push_contains(front, last, entry);
        lemma_push_contains(owned(front, address), last, entry);
    }
}

/// A list that ends in `last` contains what the list before contains, and
/// `last`.
pub proof fn lemma_push_contains(front: Seq<UtxoView>, last: UtxoView, entry: UtxoView)
    ensures
        front.push(last).contains(entry) <==> front.contains(entry) || entry == last,
{
    let whole = front.push(last);
    if front.contains(entry) {
        let k = choose|k: int| 0 <= k < front.len() && front[k] == entry;
        assert(whole[k] == entry);
    }
    if entry == last {
        assert(whole[front.len() as int] == entry);
    }
    if whole.contains(entry) {
        let k = choose|k: int| 0 <= k < whole.len() && whole[k] == entry;
        if k < front.len() {
            assert(front[k] == entry);
        }
    }
}

/// What is left after every listed output was removed holds only entries
/// that were there before and are none of the listed outputs.
pub proof fn lemma_without_all_contains(utxos: Seq<UtxoView>, spent: Seq<UtxoView>, entry: UtxoView)
    requires
        without_all(utxos, spent).contains(entry),
    ensures
        utxos.contains(entry),
        forall|k: int| 0 <= k < spent.len() ==> !refers_to(entry, spent[k].txid, spent[k].index),
    decreases spent.len(),
{
    if spent.len() > 0 {
        let earlier = spent.drop_last();
        let last = spent.last();
        lemma_without_contains(without_all(utxos, earlier), last.txid, last.index, entry);
        lemma_without_all_contains(utxos, earlier, entry);
        assert forall|k: int| 0 <= k < spent.len() implies !refers_to(
            entry,
            spent[k].txid,
            spent[k].index,
        ) by {
            if k < earlier.len() {
                assert(spent[k] == earlier[k]);
            }
        }
    }
}

/// When every output of an address has been spent, the address owns
/// nothing: its balance is zero.
pub proof fn lemma_spending_all_clears_balance(utxos: Seq<UtxoView>, address: Seq<char>)
    ensures
        owned(without_all(utxos, owned(utxos, address)), address) == Seq::<UtxoView>::empty(),
        total_value(owned(without_all(utxos, owned(utxos, address)), address)) == 0,
{
    let spent = owned(utxos, address);
    let left = owned(without_all(utxos, spent), address);
    if left.len() > 0 {
        let entry = left[0];
        assert(left.contains(entry));
        lemma_owned_contains(without_all(utxos, spent), address, entry);
        lemma_without_all_contains(utxos, spent, entry);
        lemma_owned_contains(utxos, address, entry);
        let k = choose|k: int| 0 <= k < spent.len() && spent[k] == entry;
        assert(refers_to(entry, spent[k].txid, spent[k].index));
    }
    assert(left =~= Seq::<UtxoView>::empty());
}

/// The unspent outputs of a chain grow block by block: those of the first
/// `i + 1` blocks are those of the first `i` blocks after block `i` has been
/// applied to them.
pub proof fn lemma_unspent_step(chain: Seq<BlockView>, i: int)
    requires
        0 <= i < chain.len(),
    ensures
        unspent(chain.take(i + 1)) == apply_payload(unspent(chain.take(i)), chain[i].data),
{
    assert(chain.take(i + 1).drop_last() =~= chain.take(i));
}

/// Taking steps one run after the other is taking them all.
pub proof fn lemma_after_steps_joined(utxos: Seq<UtxoView>, first: Seq<Step>, second: Seq<Step>)
    ensures
        after_steps(utxos, first + second) == after_steps(after_steps(utxos, first), second),
    decreases second.len(),
{
    if second.len() == 0 {
    } else {
        assert((first + second).drop_last() =~= first + second.drop_last());
        lemma_after_steps_joined(utxos, first, second.drop_last());
    }
}

/// Making entries adds them at the end.
pub proof fn lemma_after_made(utxos: Seq<UtxoView>, entries: Seq<UtxoView>)
    ensures
        after_steps(utxos, made(entries)) == utxos + entries,
    decreases entries.len(),
{
    if entries.len() == 0 {
    } else {
        assert(made(entries).drop_last() =~= made(entries.drop_last()));
        lemma_after_made(utxos, entries.drop_last());
    }
}

/// Spending what inputs name removes it.
pub proof fn lemma_after_spent(utxos: Seq<UtxoView>, inputs: Seq<TxInputView>)
    ensures
        after_steps(utxos, spent(inputs)) == spend(utxos, inputs),
    decreases inputs.len(),
{
    if inputs.len() > 0 {
        assert(spent(inputs).drop_last() =~= spent(inputs.drop_last()));
        lemma_after_spent(utxos, inputs.drop_last());
    }
}

/// Applying transactions takes their steps.
pub proof fn lemma_transactions_take_steps(utxos: Seq<UtxoView>, txs: Seq<TransactionView>)
    ensures
        apply_transactions(utxos, txs) == after_steps(utxos, transactions_steps(txs)),
    decreases txs.len(),
{
    if txs.len() > 0 {
        let earlier = txs.drop_last();
        let tx = txs.last();
        lemma_transactions_take_steps(utxos, earlier);
        let before = apply_transactions(utxos, earlier);
        lemma_after_made(before, created_by(tx));
        lemma_after_spent(before + created_by(tx), tx.inputs);
        lemma_after_steps_joined(before, made(created_by(tx)), spent(tx.inputs));
        lemma_after_steps_joined(utxos, transactions_steps(earlier), transaction_steps(tx));
    }
}

/// The unspent outputs of a chain are what its history leaves of an empty
/// index.
pub proof fn lemma_unspent_is_history(chain: Seq<BlockView>)
    ensures
        unspent(chain) == after_steps(Seq::empty(), history(chain)),
    decreases chain.len(),
{
    if chain.len() > 0 {
        let earlier = chain.drop_last();
        lemma_unspent_is_history(earlier);
        let data = chain.last().data;
        match parse_transactions(data) {
            Some(txs) => {
                lemma_transactions_take_steps(unspent(earlier), txs);
            },
            None => {},
        }
        lemma_after_steps_joined(Seq::empty(), history(earlier), payload_steps(data));
    }
}

/// What steps leave of an empty index are the entries that survive them.
pub proof fn lemma_survivors(steps: Seq<Step>, entry: UtxoView)
    ensures
        after_steps(Seq::empty(), steps).contains(entry) <==> survives(steps, entry),
    decreases steps.len(),
{
    let nothing = Seq::<UtxoView>::empty();
    if steps.len() == 0 {
        assert(!nothing.contains(entry));
    } else {
        let earlier = steps.drop_last();
        let last = steps.len() - 1;
        let before = after_steps(nothing, earlier);
        lemma_survivors(earlier, entry);
        match steps.last() {
            Step::Made(added) => {
                lemma_push_contains(before, added, entry);
                if survives(steps, entry) {
                    let i = choose|i: int|
                        0 <= i < steps.len() && #[trigger] steps[i] == Step::Made(entry) && forall|j: int|
                            i < j < steps.len() ==> !spends(#[trigger] steps[j], entry);
                    if i < last {
                        assert(earlier[i] == steps[i]);
                        assert forall|j: int| i < j < earlier.len() implies !spends(
                            #[trigger] earlier[j],
                            entry,
                        ) by {
                            assert(earlier[j] == steps[j]);
                        }
                        assert(survives(earlier, entry));
                    }
                }
                if survives(earlier, entry) {
                    let i = choose|i: int|
                        0 <= i < earlier.len() && #[trigger] earlier[i] == Step::Made(entry)
                            && forall|j: int|
                            i < j < earlier.len() ==> !spends(#[trigger] earlier[j], entry);
                    assert(steps[i] == earlier[i]);
                    assert forall|j: int| i < j < steps.len() implies !spends(
                        #[trigger] steps[j],
                        entry,
                    ) by {
                        if j < last {
                            assert(earlier[j] == steps[j]);
                        }
                    }
                    assert(survives(steps, entry));
                }
                if added == entry {
                    assert(steps[last] == Step::Made(entry));
                    assert(survives(steps, entry));
                }
            },
            Step::Spent(txid, index) => {
                lemma_without_contains(before, txid, index, entry);
                if survives(steps, entry) {
                    let i = choose|i: int|
                        0 <= i < steps.len() && #[trigger] steps[i] == Step::Made(entry) && forall|j: int|
                            i < j < steps.len() ==> !spends(#[trigger] steps[j], entry);
                    assert(i < last);
                    assert(earlier[i] == steps[i]);
                    assert forall|j: int| i < j < earlier.len() implies !spends(
                        #[trigger] earlier[j],
                        entry,
                    ) by {
                        assert(earlier[j] == steps[j]);
                    }
                    assert(survives(earlier, entry));
                    assert(!spends(steps[last], entry));
                }
                if survives(earlier, entry) && !refers_to(entry, txid, index) {
                    let i = choose|i: int|
                        0 <= i < earlier.len() && #[trigger] earlier[i] == Step::Made(entry)
                            && forall|j: int|
                            i < j < earlier.len() ==> !spends(#[trigger] earlier[j], entry);
                    assert(steps[i] == earlier[i]);
                    assert forall|j: int| i < j < steps.len() implies !spends(
                        #[trigger] steps[j],
                        entry,
                    ) by {
                        if j < last {
                            assert(earlier[j] == steps[j]);
                        }
                    }
                    assert(survives(steps, entry));
                }
            },
        }
    }
}

/// An output is unspent in a chain exactly if a transaction of the chain
/// made it and no input after that has spent it.
pub proof fn lemma_unspent_exactly_survivors(chain: Seq<BlockView>, entry: UtxoView)
    ensures
        unspent(chain).contains(entry) <==> survives(history(chain), entry),
{
    lemma_unspent_is_history(chain);
    lemma_survivors(history(chain), entry);
}

/// No output is found where no entry is that output, and the other way
/// round.
pub proof fn lemma_lookup_none(utxos: Seq<UtxoView>, txid: Seq<char>, index: usize)
    ensures
        lookup(utxos, txid, index) is None <==> forall|k: int|
            0 <= k < utxos.len() ==> !refers_to(#[trigger] utxos[k], txid, index),
    decreases utxos.len(),
{
    if utxos.len() > 0 {
        let rest = utxos.drop_first();
        lemma_lookup_none(rest, txid, index);
        if refers_to(utxos[0], txid, index) {
        } else {
            if lookup(rest, txid, index) is None {
                assert forall|k: int| 0 <= k < utxos.len() implies !refers_to(
                    #[trigger] utxos[k],
                    txid,
                    index,
                ) by {
                    if k > 0 {
                        assert(utxos[k] == rest[k - 1]);
                    }
                }
            } else {
                let k = choose|k: int| 0 <= k < rest.len() && refers_to(#[trigger] rest[k], txid, index);
                assert(utxos[k + 1] == rest[k]);
            }
        }
    }
}

/// An output that has been removed is not found.
pub proof fn lemma_removed_not_found(utxos: Seq<UtxoView>, txid: Seq<char>, index: usize)
    ensures
        lookup(without(utxos, txid, index), txid, index) is None,
{
    let left = without(utxos, txid, index);
    lemma_lookup_none(left, txid, index);
    assert forall|k: int| 0 <= k < left.len() implies !refers_to(#[trigger] left[k], txid, index) by {
        assert(left.contains(left[k]));
        lemma_without_contains(utxos, txid, index, left[k]);
    }
}

/// An output is dormant from the hundredth year on, and not before.
pub proof fn lemma_dormancy_boundary(created_at: i64, now: i64)
    ensures
        DORMANCY_SECONDS == 100 * 365 * 24 * 60 * 60,
        now - created_at == DORMANCY_SECONDS ==> is_dormant(created_at, now),
        now - created_at < DORMANCY_SECONDS ==> !is_dormant(created_at, now),
        now - created_at == 99 * 365 * 24 * 60 * 60 ==> !is_dormant(created_at, now),
{
}

impl UTXOSet {
    /// The empty index.
    pub fn new() -> (set: UTXOSet)
        ensures
            set@ == Seq::<UtxoView>::empty(),
    {
        let set = UTXOSet { utxos: Vec::new() };
        set
    }

    /// Removes output `index` of transaction `txid`, wherever it stands.
    pub fn remove(&mut self, txid: &str, index: usize)
        ensures
            final(self)@ == without(old(self)@, txid@, index),
    {
        let ghost before = self@;
        let ghost mut seen: int = 0;
        let mut i: usize = 0;
        proof {
            reveal(Seq::filter);
        }
        while i < self.utxos.len()
            invariant
                0 <= seen <= before.len(),
                i <= self.utxos@.len(),
                self.utxos@.len() - i == before.len() - seen,
                self@.take(i as int) == without(before.take(seen), txid@, index),
                self@.skip(i as int) == before.skip(seen),
            decreases self.utxos@.len() - i,
        {
            let ghost current = self@;
            assert(current[i as int] == current.skip(i as int)[0]);
            proof {
                assert(before.take(seen + 1) =~= before.take(seen).push(before[seen]));
                lemma_without_push(before.take(seen), before[seen], txid@, index);
            }
            let entry = &self.utxos[i];
            if entry.index == index && same_text(entry.txid.as_str(), txid) {
                let _ = self.utxos.remove(i);
                proof {
                    assert(self@.skip(i as int) =~= current.skip(i as int).drop_first());
                }
            } else {
                proof {
                    assert(current.skip(i + 1) =~= current.skip(i as int).drop_first());
                }
                i += 1;
            }
            proof {
                seen = seen + 1;
            }
        }
        proof {
            assert(before.take(seen) =~= before);
        }
    }

    /// The first entry that is output `index` of transaction `txid`.
    pub fn get(&self, txid: &str, index: usize) -> (found: Option<&TxOutput>)
        ensures
            match found {
                Some(output) => lookup(self@, txid@, index) == Some(output@),
                None => lookup(self@, txid@, index) is None,
            },
    {
        let mut i: usize = 0;
        assert(self@.skip(0) =~= self@);
        while i < self.utxos.len()
            invariant
                i <= self.utxos@.len(),
                lookup(self@, txid@, index) == lookup(self@.skip(i as int), txid@, index),
            decreases self.utxos@.len() - i,
        {
            let entry = &self.utxos[i];
            if entry.index == index && same_text(entry.txid.as_str(), txid) {
                return Some(&entry.output);
            }
            assert(self@.skip(i as int).drop_first() =~= self@.skip(i + 1));
            i += 1;
        }
        None
    }

    /// The outputs that belong to `address`, each with the id of its
    /// transaction and its position there, in the order of the index.
    pub fn find_by_address(&self, address: &str) -> (found: Vec<(String, usize, TxOutput)>)
        ensures
            entries_of(found@) == owned(self@, address@),
    {
        let mut results: Vec<(String, usize, TxOutput)> = Vec::new();
        let mut i: usize = 0;
        proof {
            reveal(Seq::filter);
        }
        while i < self.utxos.len()
            invariant
                i <= self.utxos@.len(),
                entries_of(results@) == owned(self@.take(i as int), address@),
            decreases self.utxos@.len() - i,
        {
            let entry = &self.utxos[i];
            proof {
                assert(self@.take(i + 1) =~= self@.take(i as int).push(self@[i as int]));
                lemma_owned_push(self@.take(i as int), self@[i as int], address@);
            }
            if same_text(entry.output.address.as_str(), address) {
                results.push((entry.txid.clone(), entry.index, entry.output.clone()));
                assert(entries_of(results@) =~= owned(self@.take(i as int), address@).push(
                    self@[i as int],
                ));
            }
            i += 1;
        }
        assert(self@.take(i as int) =~= self@);
        results
    }

    /// The sum of the values that belong to `address`.
    pub fn balance(&self, address: &str) -> (sum: u64)
        requires
            total_value(owned(self@, address@)) <= u64::MAX,
        ensures
            sum == total_value(owned(self@, address@)),
    {
        let mut sum: u64 = 0;
        let mut i: usize = 0;
        proof {
            reveal(Seq::filter);
        }
        while i < self.utxos.len()
            invariant
                i <= self.utxos@.len(),
                sum == total_value(owned(self@.take(i as int), address@)),
                total_value(owned(self@, address@)) <= u64::MAX,
            decreases self.utxos@.len() - i,
        {
            let entry = &self.utxos[i];
            proof {
                assert(self@.take(i + 1) =~= self@.take(i as int).push(self@[i as int]));
                lemma_owned_push(self@.take(i as int), self@[i as int], address@);
                lemma_owned_prefix(self@, address@, i + 1);
            }
            if same_text(entry.output.address.as_str(), address) {
                proof {
                    lemma_total_push(owned(self@.take(i as int), address@), self@[i as int]);
                }
                sum = sum + entry.output.value;
            }
            i += 1;
        }
        assert(self@.take(i as int) =~= self@);
        sum
    }

    /// The sum of the values of all unspent outputs.
    pub fn total_em_circulacao(&self) -> (sum: u64)
        requires
            total_value(self@) <= u64::MAX,
        ensures
            sum == total_value(self@),
    {
        let mut sum: u64 = 0;
        let mut i: usize = 0;
        while i < self.utxos.len()
            invariant
                i <= self.utxos@.len(),
                sum == total_value(self@.take(i as int)),
                total_value(self@) <= u64::MAX,
            decreases self.utxos@.len() - i,
        {
            proof {
                assert(self@.take(i + 1) =~= self@.take(i as int).push(self@[i as int]));
                lemma_total_push(self@.take(i as int), self@[i as int]);
                lemma_total_prefix(self@, i + 1);
            }
            sum = sum + self.utxos[i].output.value;
            i += 1;
        }
        assert(self@.take(i as int) =~= self@);
        sum
    }

    /// The outputs that are dormant at `tempo_atual`, each with the id of
    /// its transaction and its position there, in the order of the index.
    pub fn utxos_inativos(&self, _blockchain: &Blockchain, tempo_atual: i64) -> (found: Vec<
        (String, usize, TxOutput),
    >)
        ensures
            entries_of(found@) == dormant(self@, tempo_atual),
    {
        let mut results: Vec<(String, usize, TxOutput)> = Vec::new();
        let mut i: usize = 0;
        proof {
            reveal(Seq::filter);
        }
        while i < self.utxos.len()
            invariant
                i <= self.utxos@.len(),
                entries_of(results@) == dormant(self@.take(i as int), tempo_atual),
            decreases self.utxos@.len() - i,
        {
            let entry = &self.utxos[i];
            proof {
                assert(self@.take(i + 1) =~= self@.take(i as int).push(self@[i as int]));
                lemma_dormant_push(self@.take(i as int), self@[i as int], tempo_atual);
            }
            if dormant_at(entry.output.timestamp, tempo_atual) {
                results.push((entry.txid.clone(), entry.index, entry.output.clone()));
                assert(entries_of(results@) =~= dormant(self@.take(i as int), tempo_atual).push(
                    self@[i as int],
                ));
            }
            i += 1;
        }
        assert(self@.take(i as int) =~= self@);
        results
    }

    /// Adds the outputs of a transaction and removes the outputs that its
    /// inputs name.
    pub fn apply_transaction(&mut self, tx: &Transaction)
        ensures
            final(self)@ == apply_transaction(old(self)@, tx@),
    {
        let mut i: usize = 0;
        while i < tx.outputs.len()
            invariant
                i <= tx.outputs@.len(),
                self@ == old(self)@ + created_by(tx@).take(i as int),
            decreases tx.outputs@.len() - i,
        {
            let ghost before = self@;
            self.utxos.push(Utxo { txid: tx.id.clone(), index: i, output: tx.outputs[i].clone() });
            assert(self@ =~= before.push(created_by(tx@)[i as int]));
            assert(created_by(tx@).take(i + 1) =~= created_by(tx@).take(i as int).push(
                created_by(tx@)[i as int],
            ));
            i += 1;
        }
        let mut j: usize = 0;
        while j < tx.inputs.len()
            invariant
                j <= tx.inputs@.len(),
                self@ == spend(old(self)@ + created_by(tx@), tx@.inputs.take(j as int)),
            decreases tx.inputs@.len() - j,
        {
            let input = &tx.inputs[j];
            self.remove(input.txid.as_str(), input.index);
            assert(tx@.inputs.take(j + 1).drop_last() =~= tx@.inputs.take(j as int));
            j += 1;
        }
        assert(tx@.inputs.take(j as int) =~= tx@.inputs);
    }

    /// Applies the transactions that a block carries, in their order. A
    /// block whose payload is not a list of transactions changes nothing.
    pub fn apply_block(&mut self, block: &Block)
        ensures
            final(self)@ == apply_payload(old(self)@, block@.data),
    {
        let txs = match decode_transactions(block.data.as_str()) {
            Some(txs) => txs,
            None => {
                return;
            },
        };
        let ghost listed = txs.deep_view();
        let mut i: usize = 0;
        while i < txs.len()
            invariant
                i <= txs@.len(),
                listed == txs.deep_view(),
                self@ == apply_transactions(old(self)@, listed.take(i as int)),
            decreases txs@.len() - i,
        {
            self.apply_transaction(&txs[i]);
            assert(listed.take(i + 1).drop_last() =~= listed.take(i as int));
            i += 1;
        }
        assert(listed.take(i as int) =~= listed);
    }

    /// The unspent outputs of a run of blocks, replayed from an empty index.
    pub fn from_chain_segment(chain: &[Block]) -> (set: UTXOSet)
        ensures
            set@ == unspent(chain.deep_view()),
    {
        let mut set = UTXOSet::new();
        let ghost blocks = chain.deep_view();
        let mut i: usize = 0;
        while i < chain.len()
            invariant
                i <= chain@.len(),
                blocks == chain.deep_view(),
                set@ == unspent(blocks.take(i as int)),
            decreases chain@.len() - i,
        {
            set.apply_block(&chain[i]);
            assert(blocks.take(i + 1).drop_last() =~= blocks.take(i as int));
            i += 1;
        }
        assert(blocks.take(i as int) =~= blocks);
        set
    }

    /// The unspent outputs of a chain.
    pub fn from_blockchain(blockchain: &Blockchain) -> (set: UTXOSet)
        ensures
            set@ == unspent(blockchain@.chain),
    {
        let blocks = blockchain.chain.as_slice();
        UTXOSet::from_chain_segment(blocks)
    }
}

/// Whether an output made at `created_at` is dormant at `now`.
pub fn dormant_at(created_at: i64, now: i64) -> (dormant: bool)
    ensures
        dormant == is_dormant(created_at, now),
{
    now as i128 - created_at as i128 >= DORMANCY_SECONDS as i128
}

} // verus!
