use vitabit::block::Block;
use vitabit::blockchain::Blockchain;
use vitabit::codec::encode_transactions;
use vitabit::transaction::{Transaction, TxInput, TxOutput};
use vitabit::utxo::{dormant_at, UTXOSet, Utxo, DORMANCY_SECONDS};

const YEAR: i64 = 365 * 24 * 60 * 60;

fn output(value: u64, address: &str, timestamp: i64) -> TxOutput {
    TxOutput { value, address: address.to_string(), timestamp }
}

fn entry(txid: &str, index: usize, value: u64, address: &str, timestamp: i64) -> Utxo {
    Utxo { txid: txid.to_string(), index, output: output(value, address, timestamp) }
}

fn spend(txid: &str, index: usize) -> TxInput {
    TxInput {
        txid: txid.to_string(),
        index,
        signature: String::new(),
        pubkey: String::new(),
    }
}

fn block_with(index: u64, txs: &Vec<Transaction>) -> Block {
    Block {
        index,
        timestamp: 0,
        previous_hash: String::new(),
        hash: String::new(),
        nonce: 0,
        data: encode_transactions(txs),
        extra_reward: 0,
    }
}

fn block_with_text(index: u64, data: &str) -> Block {
    Block {
        index,
        timestamp: 0,
        previous_hash: String::new(),
        hash: String::new(),
        nonce: 0,
        data: data.to_string(),
        extra_reward: 0,
    }
}

fn listed(set: &UTXOSet) -> Vec<(String, usize, u64, String)> {
    set.utxos
        .iter()
        .map(|e| (e.txid.clone(), e.index, e.output.value, e.output.address.clone()))
        .collect()
}

fn sample() -> UTXOSet {
    UTXOSet {
        utxos: vec![
            entry("a", 0, 10, "alice", 100),
            entry("a", 1, 20, "bob", 100),
            entry("b", 0, 30, "alice", 200),
            entry("a", 0, 40, "carol", 300),
        ],
    }
}

#[test]
fn new_index_is_empty() {
    let set = UTXOSet::new();
    assert!(set.utxos.is_empty());
    assert_eq!(set.balance("alice"), 0);
    assert_eq!(set.total_em_circulacao(), 0);
    assert!(set.find_by_address("alice").is_empty());
    assert!(set.get("a", 0).is_none());
}

#[test]
fn remove_takes_out_every_entry_of_that_output() {
    let mut set = sample();
    set.remove("a", 0);
    assert_eq!(
        listed(&set),
        vec![
            ("a".to_string(), 1, 20, "bob".to_string()),
            ("b".to_string(), 0, 30, "alice".to_string()),
        ]
    );
    set.remove("a", 0);
    assert_eq!(set.utxos.len(), 2);
    set.remove("a", 2);
    set.remove("c", 1);
    assert_eq!(set.utxos.len(), 2);
    set.remove("b", 0);
    set.remove("a", 1);
    assert!(set.utxos.is_empty());
}

#[test]
fn get_finds_the_first_entry_of_an_output() {
    let set = sample();
    assert_eq!(set.get("a", 0).unwrap().value, 10);
    assert_eq!(set.get("a", 1).unwrap().value, 20);
    assert_eq!(set.get("b", 0).unwrap().address, "alice");
    assert!(set.get("b", 1).is_none());
    assert!(set.get("", 0).is_none());
}

#[test]
fn find_by_address_lists_in_order() {
    let set = sample();
    let found = set.find_by_address("alice");
    assert_eq!(found.len(), 2);
    assert_eq!((found[0].0.as_str(), found[0].1, found[0].2.value), ("a", 0, 10));
    assert_eq!((found[1].0.as_str(), found[1].1, found[1].2.value), ("b", 0, 30));
    assert_eq!(found[1].2.timestamp, 200);
    assert!(set.find_by_address("dave").is_empty());
    assert!(set.find_by_address("").is_empty());
}

#[test]
fn balance_sums_what_an_address_owns() {
    let set = sample();
    assert_eq!(set.balance("alice"), 40);
    assert_eq!(set.balance("bob"), 20);
    assert_eq!(set.balance("carol"), 40);
    assert_eq!(set.balance("dave"), 0);
    assert_eq!(set.total_em_circulacao(), 100);
}

#[test]
fn balance_up_to_the_largest_amount() {
    let set = UTXOSet {
        utxos: vec![entry("a", 0, u64::MAX - 5, "alice", 0), entry("a", 1, 5, "alice", 0)],
    };
    assert_eq!(set.balance("alice"), u64::MAX);
    assert_eq!(set.total_em_circulacao(), u64::MAX);
}

#[test]
fn spending_all_outputs_of_an_address_leaves_no_balance() {
    let mut set = sample();
    for (txid, index, _) in set.find_by_address("alice") {
        set.remove(&txid, index);
    }
    assert_eq!(set.balance("alice"), 0);
    assert_eq!(set.balance("bob"), 20);
}

#[test]
fn dormancy_begins_after_a_hundred_years() {
    assert_eq!(DORMANCY_SECONDS, 100 * 365 * 24 * 60 * 60);
    assert!(dormant_at(0, DORMANCY_SECONDS));
    assert!(dormant_at(1_000, 1_000 + DORMANCY_SECONDS));
    assert!(dormant_at(0, DORMANCY_SECONDS + 1));
    assert!(!dormant_at(0, DORMANCY_SECONDS - 1));
    assert!(!dormant_at(0, 99 * YEAR));
    assert!(!dormant_at(500, 500));
    assert!(!dormant_at(500, 0));
    assert!(dormant_at(i64::MIN, i64::MAX));
    assert!(!dormant_at(i64::MAX, i64::MIN));
}

#[test]
fn dormant_outputs_are_listed_in_order() {
    let now = 1_700_000_000 + DORMANCY_SECONDS;
    let set = UTXOSet {
        utxos: vec![
            entry("old", 0, 1, "alice", 1_700_000_000),
            entry("young", 0, 2, "alice", 1_700_000_001),
            entry("older", 3, 4, "bob", 5),
            entry("short", 0, 8, "bob", now - 99 * YEAR),
        ],
    };
    let chain = Blockchain { chain: vec![], difficulty: 4, total_em_circulacao: 0 };
    let found = set.utxos_inativos(&chain, now);
    assert_eq!(found.len(), 2);
    assert_eq!((found[0].0.as_str(), found[0].1, found[0].2.value), ("old", 0, 1));
    assert_eq!((found[1].0.as_str(), found[1].1, found[1].2.value), ("older", 3, 4));
    assert!(set.utxos_inativos(&chain, now - 1_700_000_000).is_empty());
}

#[test]
fn applying_a_transaction_adds_outputs_then_spends_inputs() {
    let funding = Transaction::new(vec![], vec![output(50, "alice", 1), output(7, "bob", 1)]);
    let mut set = UTXOSet::new();
    set.apply_transaction(&funding);
    assert_eq!(
        listed(&set),
        vec![
            (funding.id.clone(), 0, 50, "alice".to_string()),
            (funding.id.clone(), 1, 7, "bob".to_string()),
        ]
    );
    let payment = Transaction::new(
        vec![spend(&funding.id, 0), spend("nowhere", 4)],
        vec![output(30, "carol", 2), output(20, "alice", 2)],
    );
    set.apply_transaction(&payment);
    assert_eq!(
        listed(&set),
        vec![
            (funding.id.clone(), 1, 7, "bob".to_string()),
            (payment.id.clone(), 0, 30, "carol".to_string()),
            (payment.id.clone(), 1, 20, "alice".to_string()),
        ]
    );
}

#[test]
fn a_transaction_may_spend_its_own_output() {
    let outputs = vec![output(5, "alice", 1), output(6, "bob", 1)];
    let mut own = Transaction::new(vec![], outputs);
    own.inputs.push(spend(&own.id.clone(), 0));
    let mut set = UTXOSet::new();
    set.apply_transaction(&own);
    assert_eq!(listed(&set), vec![(own.id.clone(), 1, 6, "bob".to_string())]);
}

#[test]
fn a_block_without_transactions_changes_nothing() {
    let mut set = sample();
    set.apply_block(&block_with_text(1, "not a list of transactions"));
    assert_eq!(set.utxos.len(), 4);
    set.apply_block(&block_with_text(2, "{\"id\":1}"));
    assert_eq!(set.utxos.len(), 4);
    set.apply_block(&block_with_text(3, "[]"));
    assert_eq!(set.utxos.len(), 4);
    set.apply_block(&block_with_text(4, "[{\"id\":\"x\",\"inputs\":[],\"outputs\":[{\"value\":-1,\"address\":\"a\",\"timestamp\":0}]}]"));
    assert_eq!(set.utxos.len(), 4);
}

fn history() -> (Vec<Block>, Transaction, Transaction, Transaction) {
    let first = Transaction::new(vec![], vec![output(50, "alice", 1)]);
    let second = Transaction::new(
        vec![spend(&first.id, 0)],
        vec![output(20, "bob", 2), output(30, "alice", 2)],
    );
    let third = Transaction::new(vec![spend(&second.id, 1)], vec![output(30, "carol", 3)]);
    let blocks = vec![
        block_with_text(0, "the first block carries a message"),
        block_with(1, &vec![first.clone()]),
        block_with(2, &vec![second.clone()]),
        block_with_text(3, "garbage"),
        block_with(4, &vec![third.clone()]),
    ];
    (blocks, first, second, third)
}

#[test]
fn replaying_a_chain_leaves_what_was_never_spent() {
    let (blocks, _, second, third) = history();
    let set = UTXOSet::from_chain_segment(&blocks);
    assert_eq!(
        listed(&set),
        vec![
            (second.id.clone(), 0, 20, "bob".to_string()),
            (third.id.clone(), 0, 30, "carol".to_string()),
        ]
    );
    assert_eq!(set.balance("alice"), 0);
    assert_eq!(set.balance("bob"), 20);
    assert_eq!(set.balance("carol"), 30);
}

#[test]
fn both_ways_of_deriving_the_index_agree_on_every_prefix() {
    let (blocks, _, _, _) = history();
    let mut step_by_step = UTXOSet::new();
    for i in 0..blocks.len() {
        step_by_step.apply_block(&blocks[i]);
        let segment = UTXOSet::from_chain_segment(&blocks[..=i]);
        let chain = Blockchain {
            chain: blocks[..=i].to_vec(),
            difficulty: 4,
            total_em_circulacao: 0,
        };
        let whole = UTXOSet::from_blockchain(&chain);
        assert_eq!(listed(&segment), listed(&whole));
        assert_eq!(listed(&segment), listed(&step_by_step));
    }
    assert_eq!(UTXOSet::from_chain_segment(&[]).utxos.len(), 0);
}

#[test]
fn an_input_spends_only_what_came_before_it() {
    let later = Transaction::new(vec![], vec![output(9, "alice", 5)]);
    let early = Transaction::new(vec![spend(&later.id, 0)], vec![output(1, "bob", 4)]);
    let blocks = vec![block_with(0, &vec![early.clone()]), block_with(1, &vec![later.clone()])];
    let set = UTXOSet::from_chain_segment(&blocks);
    assert_eq!(
        listed(&set),
        vec![
            (early.id.clone(), 0, 1, "bob".to_string()),
            (later.id.clone(), 0, 9, "alice".to_string()),
        ]
    );
}
