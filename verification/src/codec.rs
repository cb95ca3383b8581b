//! The JSON forms of transactions and of blocks.
//!
//! A transaction is an object with the members `id`, `inputs` and `outputs`;
//! an input has `txid`, `index`, `signature` and `pubkey`; an output has
//! `value`, `address` and `timestamp`. The `id` member must be present, but
//! the id of a transaction that was read is always computed from its inputs
//! and outputs. A block is an object with the members `index`, `timestamp`,
//! `previous_hash`, `hash`, `nonce`, `data` and `extra_reward`; a wallet is
//! an object with the members `private_key`, `public_key` and `address`.
//! Members with other keys are ignored.

use vstd::prelude::*;
use crate::block::{Block, BlockView};
use crate::json::{
    as_array, as_i64, as_str, as_u64, from_i64, from_items, from_members,
    from_text, from_u64, get, json_items, json_members, json_of, json_parse, json_pretty_text,
    json_text, member, parse, print, print_pretty, Json,
};
use crate::transaction::{
    identified, transaction_id, Transaction, TransactionView, TxInput, TxInputView, TxOutput,
    TxOutputView,
};
use crate::wallet::{Wallet, WalletView};

verus! {

/// The text of the member `key` of an object, if it has that member and the
/// member is a string.
pub open spec fn text_member(value: Json, key: Seq<char>) -> Option<Seq<char>> {
    match value {
        Json::Object(members) => match member(members, key) {
            Some(Json::Text(text)) => Some(text),
            _ => None,
        },
        _ => None,
    }
}

/// The integer member `key` of an object, if it has that member and the
/// member is an integer.
pub open spec fn int_member(value: Json, key: Seq<char>) -> Option<int> {
    match value {
        Json::Object(members) => match member(members, key) {
            Some(Json::Int(n)) => Some(n),
            _ => None,
        },
        _ => None,
    }
}

/// The items of the member `key` of an object, if it has that member and the
/// member is an array.
pub open spec fn array_member(value: Json, key: Seq<char>) -> Option<Seq<Json>> {
    match value {
        Json::Object(members) => match member(members, key) {
            Some(Json::Array(items)) => Some(items),
            _ => None,
        },
        _ => None,
    }
}

/// The input that a JSON value stands for.
pub open spec fn input_of_json(value: Json) -> Option<TxInputView> {
    match (
        text_member(value, "txid"@),
        int_member(value, "index"@),
        text_member(value, "signature"@),
        text_member(value, "pubkey"@),
    ) {
        (Some(txid), Some(index), Some(signature), Some(pubkey)) => if 0 <= index <= usize::MAX {
            Some(TxInputView { txid, index: index as usize, signature, pubkey })
        } else {
            None
        },
        _ => None,
    }
}

/// The output that a JSON value stands for.
pub open spec fn output_of_json(value: Json) -> Option<TxOutputView> {
    match (
        int_member(value, "value"@),
        text_member(value, "address"@),
        int_member(value, "timestamp"@),
    ) {
        (Some(amount), Some(address), Some(timestamp)) => if 0 <= amount <= u64::MAX && i64::MIN
            <= timestamp <= i64::MAX {
            Some(TxOutputView { value: amount as u64, address, timestamp: timestamp as i64 })
        } else {
            None
        },
        _ => None,
    }
}

/// The inputs that a list of JSON values stands for: every item must stand
/// for one.
pub open spec fn inputs_of_json(items: Seq<Json>) -> Option<Seq<TxInputView>> {
    if forall|i: int| 0 <= i < items.len() ==> (#[trigger] input_of_json(items[i])) is Some {
        Some(Seq::new(items.len(), |i: int| input_of_json(items[i]).unwrap()))
    } else {
        None
    }
}

/// The outputs that a list of JSON values stands for: every item must stand
/// for one.
pub open spec fn outputs_of_json(items: Seq<Json>) -> Option<Seq<TxOutputView>> {
    if forall|i: int| 0 <= i < items.len() ==> (#[trigger] output_of_json(items[i])) is Some {
        Some(Seq::new(items.len(), |i: int| output_of_json(items[i]).unwrap()))
    } else {
        None
    }
}

/// The transaction that a JSON value stands for. Its id is the one that
/// belongs to its inputs and outputs, whatever the `id` member says.
pub open spec fn transaction_of_json(value: Json) -> Option<TransactionView> {
    match (text_member(value, "id"@), array_member(value, "inputs"@), array_member(value, "outputs"@)) {
        (Some(_), Some(inputs), Some(outputs)) => match (
            inputs_of_json(inputs),
            outputs_of_json(outputs),
        ) {
            (Some(inputs), Some(outputs)) => Some(
                TransactionView { id: transaction_id(inputs, outputs), inputs, outputs },
            ),
            _ => None,
        },
        _ => None,
    }
}

/// The transactions that a JSON value stands for: an array in which every
/// item stands for one.
pub open spec fn transactions_of_json(value: Json) -> Option<Seq<TransactionView>> {
    match value {
        Json::Array(items) => if forall|i: int|
            0 <= i < items.len() ==> (#[trigger] transaction_of_json(items[i])) is Some {
            Some(Seq::new(items.len(), |i: int| transaction_of_json(items[i]).unwrap()))
        } else {
            None
        },
        _ => None,
    }
}

/// The transactions that a text stands for, if it is the JSON form of a list
/// of transactions.
pub open spec fn parse_transactions(text: Seq<char>) -> Option<Seq<TransactionView>> {
    match json_parse(text) {
        Some(value) => transactions_of_json(value),
        None => None,
    }
}

/// The single transaction that a text stands for.
pub open spec fn parse_transaction(text: Seq<char>) -> Option<TransactionView> {
    match json_parse(text) {
        Some(value) => transaction_of_json(value),
        None => None,
    }
}

/// The JSON form of an input.
pub open spec fn json_of_input(input: TxInputView) -> Json {
    Json::Object(
        seq![
            ("txid"@, Json::Text(input.txid)),
            ("index"@, Json::Int(input.index as int)),
            ("signature"@, Json::Text(input.signature)),
            ("pubkey"@, Json::Text(input.pubkey)),
        ],
    )
}

/// The JSON form of an output.
pub open spec fn json_of_output(output: TxOutputView) -> Json {
    Json::Object(
        seq![
            ("value"@, Json::Int(output.value as int)),
            ("address"@, Json::Text(output.address)),
            ("timestamp"@, Json::Int(output.timestamp as int)),
        ],
    )
}

/// The JSON form of a transaction.
pub open spec fn json_of_transaction(tx: TransactionView) -> Json {
    Json::Object(
        seq![
            ("id"@, Json::Text(tx.id)),
            ("inputs"@, Json::Array(Seq::new(tx.inputs.len(), |i: int| json_of_input(tx.inputs[i])))),
            (
                "outputs"@,
                Json::Array(Seq::new(tx.outputs.len(), |i: int| json_of_output(tx.outputs[i]))),
            ),
        ],
    )
}

/// The JSON form of a list of transactions.
pub open spec fn json_of_transactions(txs: Seq<TransactionView>) -> Json {
    Json::Array(Seq::new(txs.len(), |i: int| json_of_transaction(txs[i])))
}

/// The text in which a block carries a list of transactions.
pub open spec fn transactions_text(txs: Seq<TransactionView>) -> Seq<char> {
    json_text(json_of_transactions(txs))
}

/// Every transaction that is read from a text carries the id that belongs
/// to its inputs and outputs.
pub proof fn lemma_parsed_transactions_identified(text: Seq<char>, i: int)
    requires
        parse_transactions(text) is Some,
        0 <= i < parse_transactions(text).unwrap().len(),
    ensures
        identified(parse_transactions(text).unwrap()[i]),
{
    let items = json_parse(text).unwrap()->Array_0;
    assert(transaction_of_json(items[i]) is Some);
}

fn text_of(value: &serde_json::Value, key: &str) -> (out: Option<String>)
    ensures
        match out {
            Some(text) => text_member(json_of(*value), key@) == Some(text@),
            None => text_member(json_of(*value), key@) is None,
        },
{
    match get(value, key) {
        Some(found) => match as_str(found) {
            Some(text) => Some(text.to_owned()),
            None => None,
        },
        None => None,
    }
}

fn u64_of(value: &serde_json::Value, key: &str) -> (out: Option<u64>)
    ensures
        match int_member(json_of(*value), key@) {
            Some(n) => if 0 <= n <= u64::MAX {
                out == Some(n as u64)
            } else {
                out is None
            },
            None => out is None,
        },
{
    match get(value, key) {
        Some(found) => as_u64(found),
        None => None,
    }
}

fn i64_of(value: &serde_json::Value, key: &str) -> (out: Option<i64>)
    ensures
        match int_member(json_of(*value), key@) {
            Some(n) => if i64::MIN <= n <= i64::MAX {
                out == Some(n as i64)
            } else {
                out is None
            },
            None => out is None,
        },
{
    match get(value, key) {
        Some(found) => as_i64(found),
        None => None,
    }
}

fn items_of<'a>(value: &'a serde_json::Value, key: &str) -> (out: Option<&'a Vec<serde_json::Value>>)
    ensures
        match out {
            Some(items) => array_member(json_of(*value), key@) == Some(json_items(items@)),
            None => array_member(json_of(*value), key@) is None,
        },
{
    match get(value, key) {
        Some(found) => as_array(found),
        None => None,
    }
}

/// Reads an input from its JSON form.
pub fn input_from_json(value: &serde_json::Value) -> (out: Option<TxInput>)
    ensures
        match out {
            Some(input) => input_of_json(json_of(*value)) == Some(input@),
            None => input_of_json(json_of(*value)) is None,
        },
{
    let txid = match text_of(value, "txid") {
        Some(text) => text,
        None => {
            return None;
        },
    };
    let index = match u64_of(value, "index") {
        Some(n) => n,
        None => {
            return None;
        },
    };
    let signature = match text_of(value, "signature") {
        Some(text) => text,
        None => {
            return None;
        },
    };
    let pubkey = match text_of(value, "pubkey") {
        Some(text) => text,
        None => {
            return None;
        },
    };
    if index > usize::MAX as u64 {
        return None;
    }
    Some(TxInput { txid, index: index as usize, signature, pubkey })
}

/// Reads an output from its JSON form.
pub fn output_from_json(value: &serde_json::Value) -> (out: Option<TxOutput>)
    ensures
        match out {
            Some(output) => output_of_json(json_of(*value)) == Some(output@),
            None => output_of_json(json_of(*value)) is None,
        },
{
    let amount = match u64_of(value, "value") {
        Some(n) => n,
        None => {
            return None;
        },
    };
    let address = match text_of(value, "address") {
        Some(text) => text,
        None => {
            return None;
        },
    };
    let timestamp = match i64_of(value, "timestamp") {
        Some(n) => n,
        None => {
            return None;
        },
    };
    Some(TxOutput { value: amount, address, timestamp })
}

fn inputs_from_json(items: &Vec<serde_json::Value>) -> (out: Option<Vec<TxInput>>)
    ensures
        match out {
            Some(inputs) => inputs_of_json(json_items(items@)) == Some(inputs.deep_view()),
            None => inputs_of_json(json_items(items@)) is None,
        },
{
    let mut inputs: Vec<TxInput> = Vec::new();
    let mut i: usize = 0;
    while i < items.len()
        invariant
            i <= items@.len(),
            inputs@.len() == i,
            forall|k: int|
                0 <= k < i ==> input_of_json(#[trigger] json_items(items@)[k]) == Some(inputs@[k]@),
        decreases items@.len() - i,
    {
        match input_from_json(&items[i]) {
            Some(input) => {
                inputs.push(input);
            },
            None => {
                assert(input_of_json(json_items(items@)[i as int]) is None);
                return None;
            },
        }
        i += 1;
    }
    Some(inputs)
}

fn outputs_from_json(items: &Vec<serde_json::Value>) -> (out: Option<Vec<TxOutput>>)
    ensures
        match out {
            Some(outputs) => outputs_of_json(json_items(items@)) == Some(outputs.deep_view()),
            None => outputs_of_json(json_items(items@)) is None,
        },
{
    let mut outputs: Vec<TxOutput> = Vec::new();
    let mut i: usize = 0;
    while i < items.len()
        invariant
            i <= items@.len(),
            outputs@.len() == i,
            forall|k: int|
                0 <= k < i ==> output_of_json(#[trigger] json_items(items@)[k]) == Some(
                    outputs@[k]@,
                ),
        decreases items@.len() - i,
    {
        match output_from_json(&items[i]) {
            Some(output) => {
                outputs.push(output);
            },
            None => {
                assert(output_of_json(json_items(items@)[i as int]) is None);
                return None;
            },
        }
        i += 1;
    }
    Some(outputs)
}

/// Reads a transaction from its JSON form and gives it the id that belongs
/// to its inputs and outputs.
pub fn transaction_from_json(value: &serde_json::Value) -> (out: Option<Transaction>)
    ensures
        match out {
            Some(tx) => transaction_of_json(json_of(*value)) == Some(tx@),
            None => transaction_of_json(json_of(*value)) is None,
        },
{
    if text_of(value, "id").is_none() {
        return None;
    }
    let input_items = match items_of(value, "inputs") {
        Some(items) => items,
        None => {
            return None;
        },
    };
    let output_items = match items_of(value, "outputs") {
        Some(items) => items,
        None => {
            return None;
        },
    };
    let inputs = match inputs_from_json(input_items) {
        Some(inputs) => inputs,
        None => {
            return None;
        },
    };
    let outputs = match outputs_from_json(output_items) {
        Some(outputs) => outputs,
        None => {
            return None;
        },
    };
    Some(Transaction::new(inputs, outputs))
}

/// Reads a list of transactions from its JSON form.
pub fn transactions_from_json(value: &serde_json::Value) -> (out: Option<Vec<Transaction>>)
    ensures
        match out {
            Some(txs) => transactions_of_json(json_of(*value)) == Some(txs.deep_view()),
            None => transactions_of_json(json_of(*value)) is None,
        },
{
    let items = match as_array(value) {
        Some(items) => items,
        None => {
            return None;
        },
    };
    let mut txs: Vec<Transaction> = Vec::new();
    let mut i: usize = 0;
    while i < items.len()
        invariant
            i <= items@.len(),
            txs@.len() == i,
            json_of(*value) == Json::Array(json_items(items@)),
            forall|k: int|
                0 <= k < i ==> transaction_of_json(#[trigger] json_items(items@)[k]) == Some(
                    txs@[k]@,
                ),
        decreases items@.len() - i,
    {
        match transaction_from_json(&items[i]) {
            Some(tx) => {
                txs.push(tx);
            },
            None => {
                assert(transaction_of_json(json_items(items@)[i as int]) is None);
                return None;
            },
        }
        i += 1;
    }
    Some(txs)
}

/// Reads a list of transactions from a text.
pub fn decode_transactions(text: &str) -> (out: Option<Vec<Transaction>>)
    ensures
        match out {
            Some(txs) => parse_transactions(text@) == Some(txs.deep_view()),
            None => parse_transactions(text@) is None,
        },
{
    match parse(text) {
        Some(value) => transactions_from_json(&value),
        None => None,
    }
}

/// Reads a single transaction from a text.
pub fn decode_transaction(text: &str) -> (out: Option<Transaction>)
    ensures
        match out {
            Some(tx) => parse_transaction(text@) == Some(tx@),
            None => parse_transaction(text@) is None,
        },
{
    match parse(text) {
        Some(value) => transaction_from_json(&value),
        None => None,
    }
}

/// The JSON form of an input.
pub fn input_to_json(input: &TxInput) -> (value: serde_json::Value)
    ensures
        json_of(value) == json_of_input(input@),
{
    let mut members: Vec<(String, serde_json::Value)> = Vec::new();
    members.push(("txid".to_owned(), from_text(input.txid.clone())));
    members.push(("index".to_owned(), from_u64(input.index as u64)));
    members.push(("signature".to_owned(), from_text(input.signature.clone())));
    members.push(("pubkey".to_owned(), from_text(input.pubkey.clone())));
    proof {
        reveal_strlit("txid");
        reveal_strlit("index");
        reveal_strlit("signature");
        reveal_strlit("pubkey");
        let listed = json_members(members@);
        assert(listed =~= json_of_input(input@)->Object_0);
        assert(listed[0].0.len() == 4 && listed[1].0.len() == 5 && listed[2].0.len() == 9
            && listed[3].0.len() == 6);
    }
    from_members(members)
}

/// The JSON form of an output.
pub fn output_to_json(output: &TxOutput) -> (value: serde_json::Value)
    ensures
        json_of(value) == json_of_output(output@),
{
    let mut members: Vec<(String, serde_json::Value)> = Vec::new();
    members.push(("value".to_owned(), from_u64(output.value)));
    members.push(("address".to_owned(), from_text(output.address.clone())));
    members.push(("timestamp".to_owned(), from_i64(output.timestamp)));
    proof {
        reveal_strlit("value");
        reveal_strlit("address");
        reveal_strlit("timestamp");
        let listed = json_members(members@);
        assert(listed =~= json_of_output(output@)->Object_0);
        assert(listed[0].0.len() == 5 && listed[1].0.len() == 7 && listed[2].0.len() == 9);
    }
    from_members(members)
}

/// The JSON form of a transaction.
pub fn transaction_to_json(tx: &Transaction) -> (value: serde_json::Value)
    ensures
        json_of(value) == json_of_transaction(tx@),
{
    let mut inputs: Vec<serde_json::Value> = Vec::new();
    let mut i: usize = 0;
    while i < tx.inputs.len()
        invariant
            i <= tx.inputs@.len(),
            inputs@.len() == i,
            forall|k: int| 0 <= k < i ==> json_of(#[trigger] inputs@[k]) == json_of_input(tx.inputs@[k]@),
        decreases tx.inputs@.len() - i,
    {
        inputs.push(input_to_json(&tx.inputs[i]));
        i += 1;
    }
    let mut outputs: Vec<serde_json::Value> = Vec::new();
    let mut j: usize = 0;
    while j < tx.outputs.len()
        invariant
            j <= tx.outputs@.len(),
            outputs@.len() == j,
            forall|k: int|
                0 <= k < j ==> json_of(#[trigger] outputs@[k]) == json_of_output(tx.outputs@[k]@),
        decreases tx.outputs@.len() - j,
    {
        outputs.push(output_to_json(&tx.outputs[j]));
        j += 1;
    }
    proof {
        assert(json_items(inputs@) =~= Seq::new(
            tx@.inputs.len(),
            |i: int| json_of_input(tx@.inputs[i]),
        ));
        assert(json_items(outputs@) =~= Seq::new(
            tx@.outputs.len(),
            |i: int| json_of_output(tx@.outputs[i]),
        ));
    }
    let mut members: Vec<(String, serde_json::Value)> = Vec::new();
    members.push(("id".to_owned(), from_text(tx.id.clone())));
    members.push(("inputs".to_owned(), from_items(inputs)));
    members.push(("outputs".to_owned(), from_items(outputs)));
    proof {
        reveal_strlit("id");
        reveal_strlit("inputs");
        reveal_strlit("outputs");
        let listed = json_members(members@);
        assert(listed =~= json_of_transaction(tx@)->Object_0);
        assert(listed[0].0.len() == 2 && listed[1].0.len() == 6 && listed[2].0.len() == 7);
    }
    from_members(members)
}

/// The JSON form of a list of transactions.
pub fn transactions_to_json(txs: &Vec<Transaction>) -> (value: serde_json::Value)
    ensures
        json_of(value) == json_of_transactions(txs.deep_view()),
{
    let mut items: Vec<serde_json::Value> = Vec::new();
    let mut i: usize = 0;
    while i < txs.len()
        invariant
            i <= txs@.len(),
            items@.len() == i,
            forall|k: int| 0 <= k < i ==> json_of(#[trigger] items@[k]) == json_of_transaction(txs@[k]@),
        decreases txs@.len() - i,
    {
        items.push(transaction_to_json(&txs[i]));
        i += 1;
    }
    proof {
        assert(json_items(items@) =~= Seq::new(
            txs.deep_view().len(),
            |i: int| json_of_transaction(txs.deep_view()[i]),
        ));
    }
    from_items(items)
}

/// Writes a list of transactions as the text that a block carries.
pub fn encode_transactions(txs: &Vec<Transaction>) -> (text: String)
    ensures
        text@ == transactions_text(txs.deep_view()),
{
    let value = transactions_to_json(txs);
    print(&value)
}

/// Writes a single transaction as text.
pub fn encode_transaction(tx: &Transaction) -> (text: String)
    ensures
        text@ == json_text(json_of_transaction(tx@)),
{
    let value = transaction_to_json(tx);
    print(&value)
}

/// The block that a JSON value stands for.
pub open spec fn block_of_json(value: Json) -> Option<BlockView> {
    match (
        int_member(value, "index"@),
        int_member(value, "timestamp"@),
        text_member(value, "previous_hash"@),
        text_member(value, "hash"@),
        int_member(value, "nonce"@),
        text_member(value, "data"@),
        int_member(value, "extra_reward"@),
    ) {
        (
            Some(index),
            Some(timestamp),
            Some(previous_hash),
            Some(hash),
            Some(nonce),
            Some(data),
            Some(extra_reward),
        ) => if 0 <= index <= u64::MAX && i64::MIN <= timestamp <= i64::MAX && 0 <= nonce
            <= u64::MAX && 0 <= extra_reward <= u64::MAX {
            Some(
                BlockView {
                    index: index as u64,
                    timestamp: timestamp as i64,
                    previous_hash,
                    hash,
                    nonce: nonce as u64,
                    data,
                    extra_reward: extra_reward as u64,
                },
            )
        } else {
            None
        },
        _ => None,
    }
}

/// The blocks that a JSON value stands for: an array in which every item
/// stands for one.
pub open spec fn blocks_of_json(value: Json) -> Option<Seq<BlockView>> {
    match value {
        Json::Array(items) => if forall|i: int|
            0 <= i < items.len() ==> (#[trigger] block_of_json(items[i])) is Some {
            Some(Seq::new(items.len(), |i: int| block_of_json(items[i]).unwrap()))
        } else {
            None
        },
        _ => None,
    }
}

/// The single block that a text stands for.
pub open spec fn parse_block(text: Seq<char>) -> Option<BlockView> {
    match json_parse(text) {
        Some(value) => block_of_json(value),
        None => None,
    }
}

/// The blocks that a text stands for, if it is the JSON form of a list of
/// blocks.
pub open spec fn parse_blocks(text: Seq<char>) -> Option<Seq<BlockView>> {
    match json_parse(text) {
        Some(value) => blocks_of_json(value),
        None => None,
    }
}

/// The JSON form of a block.
pub open spec fn json_of_block(block: BlockView) -> Json {
    Json::Object(
        seq![
            ("index"@, Json::Int(block.index as int)),
            ("timestamp"@, Json::Int(block.timestamp as int)),
            ("previous_hash"@, Json::Text(block.previous_hash)),
            ("hash"@, Json::Text(block.hash)),
            ("nonce"@, Json::Int(block.nonce as int)),
            ("data"@, Json::Text(block.data)),
            ("extra_reward"@, Json::Int(block.extra_reward as int)),
        ],
    )
}

/// The JSON form of a list of blocks.
pub open spec fn json_of_blocks(blocks: Seq<BlockView>) -> Json {
    Json::Array(Seq::new(blocks.len(), |i: int| json_of_block(blocks[i])))
}

/// Reads a block from its JSON form.
pub fn block_from_json(value: &serde_json::Value) -> (out: Option<Block>)
    ensures
        match out {
            Some(block) => block_of_json(json_of(*value)) == Some(block@),
            None => block_of_json(json_of(*value)) is None,
        },
{
    let index = match u64_of(value, "index") {
        Some(n) => n,
        None => {
            return None;
        },
    };
    let timestamp = match i64_of(value, "timestamp") {
        Some(n) => n,
        None => {
            return None;
        },
    };
    let previous_hash = match text_of(value, "previous_hash") {
        Some(text) => text,
        None => {
            return None;
        },
    };
    let hash = match text_of(value, "hash") {
        Some(text) => text,
        None => {
            return None;
        },
    };
    let nonce = match u64_of(value, "nonce") {
        Some(n) => n,
        None => {
            return None;
        },
    };
    let data = match text_of(value, "data") {
        Some(text) => text,
        None => {
            return None;
        },
    };
    let extra_reward = match u64_of(value, "extra_reward") {
        Some(n) => n,
        None => {
            return None;
        },
    };
    Some(Block { index, timestamp, previous_hash, hash, nonce, data, extra_reward })
}

/// Reads a list of blocks from its JSON form.
pub fn blocks_from_json(value: &serde_json::Value) -> (out: Option<Vec<Block>>)
    ensures
        match out {
            Some(blocks) => blocks_of_json(json_of(*value)) == Some(blocks.deep_view()),
            None => blocks_of_json(json_of(*value)) is None,
        },
{
    let items = match as_array(value) {
        Some(items) => items,
        None => {
            return None;
        },
    };
    let mut blocks: Vec<Block> = Vec::new();
    let mut i: usize = 0;
    while i < items.len()
        invariant
            i <= items@.len(),
            blocks@.len() == i,
            json_of(*value) == Json::Array(json_items(items@)),
            forall|k: int|
                0 <= k < i ==> block_of_json(#[trigger] json_items(items@)[k]) == Some(blocks@[k]@),
        decreases items@.len() - i,
    {
        match block_from_json(&items[i]) {
            Some(block) => {
                blocks.push(block);
            },
            None => {
                assert(block_of_json(json_items(items@)[i as int]) is None);
                return None;
            },
        }
        i += 1;
    }
    Some(blocks)
}

/// Reads a single block from a text.
pub fn decode_block(text: &str) -> (out: Option<Block>)
    ensures
        match out {
            Some(block) => parse_block(text@) == Some(block@),
            None => parse_block(text@) is None,
        },
{
    match parse(text) {
        Some(value) => block_from_json(&value),
        None => None,
    }
}

/// Reads a list of blocks from a text.
pub fn decode_blocks(text: &str) -> (out: Option<Vec<Block>>)
    ensures
        match out {
            Some(blocks) => parse_blocks(text@) == Some(blocks.deep_view()),
            None => parse_blocks(text@) is None,
        },
{
    match parse(text) {
        Some(value) => blocks_from_json(&value),
        None => None,
    }
}

/// The JSON form of a block.
pub fn block_to_json(block: &Block) -> (value: serde_json::Value)
    ensures
        json_of(value) == json_of_block(block@),
{
    let mut members: Vec<(String, serde_json::Value)> = Vec::new();
    members.push(("index".to_owned(), from_u64(block.index)));
    members.push(("timestamp".to_owned(), from_i64(block.timestamp)));
    members.push(("previous_hash".to_owned(), from_text(block.previous_hash.clone())));
    members.push(("hash".to_owned(), from_text(block.hash.clone())));
    members.push(("nonce".to_owned(), from_u64(block.nonce)));
    members.push(("data".to_owned(), from_text(block.data.clone())));
    members.push(("extra_reward".to_owned(), from_u64(block.extra_reward)));
    proof {
        reveal_strlit("index");
        reveal_strlit("timestamp");
        reveal_strlit("previous_hash");
        reveal_strlit("hash");
        reveal_strlit("nonce");
        reveal_strlit("data");
        reveal_strlit("extra_reward");
        let listed = json_members(members@);
        assert(listed =~= json_of_block(block@)->Object_0);
        assert(listed[0].0.len() == 5 && listed[0].0[0] == 'i');
        assert(listed[1].0.len() == 9);
        assert(listed[2].0.len() == 13);
        assert(listed[3].0.len() == 4 && listed[3].0[0] == 'h');
        assert(listed[4].0.len() == 5 && listed[4].0[0] == 'n');
        assert(listed[5].0.len() == 4 && listed[5].0[0] == 'd');
        assert(listed[6].0.len() == 12);
    }
    from_members(members)
}

/// The JSON form of a list of blocks.
pub fn blocks_to_json(blocks: &Vec<Block>) -> (value: serde_json::Value)
    ensures
        json_of(value) == json_of_blocks(blocks.deep_view()),
{
    let mut items: Vec<serde_json::Value> = Vec::new();
    let mut i: usize = 0;
    while i < blocks.len()
        invariant
            i <= blocks@.len(),
            items@.len() == i,
            forall|k: int| 0 <= k < i ==> json_of(#[trigger] items@[k]) == json_of_block(blocks@[k]@),
        decreases blocks@.len() - i,
    {
        items.push(block_to_json(&blocks[i]));
        i += 1;
    }
    proof {
        assert(json_items(items@) =~= Seq::new(
            blocks.deep_view().len(),
            |i: int| json_of_block(blocks.deep_view()[i]),
        ));
    }
    from_items(items)
}

/// Writes a single block as text.
pub fn encode_block(block: &Block) -> (text: String)
    ensures
        text@ == json_text(json_of_block(block@)),
{
    let value = block_to_json(block);
    print(&value)
}

/// Writes a list of blocks as indented text.
pub fn encode_blocks(blocks: &Vec<Block>) -> (text: String)
    ensures
        text@ == json_pretty_text(json_of_blocks(blocks.deep_view())),
{
    let value = blocks_to_json(blocks);
    print_pretty(&value)
}

/// The wallet that a JSON value stands for.
pub open spec fn wallet_of_json(value: Json) -> Option<WalletView> {
    match (
        text_member(value, "private_key"@),
        text_member(value, "public_key"@),
        text_member(value, "address"@),
    ) {
        (Some(private_key), Some(public_key), Some(address)) => Some(
            WalletView { private_key, public_key, address },
        ),
        _ => None,
    }
}

/// The wallet that a text stands for.
pub open spec fn parse_wallet(text: Seq<char>) -> Option<WalletView> {
    match json_parse(text) {
        Some(value) => wallet_of_json(value),
        None => None,
    }
}

/// The JSON form of a wallet.
pub open spec fn json_of_wallet(wallet: WalletView) -> Json {
    Json::Object(
        seq![
            ("private_key"@, Json::Text(wallet.private_key)),
            ("public_key"@, Json::Text(wallet.public_key)),
            ("address"@, Json::Text(wallet.address)),
        ],
    )
}

/// Reads a wallet from its JSON form.
pub fn wallet_from_json(value: &serde_json::Value) -> (out: Option<Wallet>)
    ensures
        match out {
            Some(wallet) => wallet_of_json(json_of(*value)) == Some(wallet@),
            None => wallet_of_json(json_of(*value)) is None,
        },
{
    let private_key = match text_of(value, "private_key") {
        Some(text) => text,
        None => {
            return None;
        },
    };
    let public_key = match text_of(value, "public_key") {
        Some(text) => text,
        None => {
            return None;
        },
    };
    let address = match text_of(value, "address") {
        Some(text) => text,
        None => {
            return None;
        },
    };
    Some(Wallet { private_key, public_key, address })
}

/// Reads a wallet from a text.
pub fn decode_wallet(text: &str) -> (out: Option<Wallet>)
    ensures
        match out {
            Some(wallet) => parse_wallet(text@) == Some(wallet@),
            None => parse_wallet(text@) is None,
        },
{
    match parse(text) {
        Some(value) => wallet_from_json(&value),
        None => None,
    }
}

/// The JSON form of a wallet.
pub fn wallet_to_json(wallet: &Wallet) -> (value: serde_json::Value)
    ensures
        json_of(value) == json_of_wallet(wallet@),
{
    let mut members: Vec<(String, serde_json::Value)> = Vec::new();
    members.push(("private_key".to_owned(), from_text(wallet.private_key.clone())));
    members.push(("public_key".to_owned(), from_text(wallet.public_key.clone())));
    members.push(("address".to_owned(), from_text(wallet.address.clone())));
    proof {
        reveal_strlit("private_key");
        reveal_strlit("public_key");
        reveal_strlit("address");
        let listed = json_members(members@);
        assert(listed =~= json_of_wallet(wallet@)->Object_0);
        assert(listed[0].0.len() == 11 && listed[1].0.len() == 10 && listed[2].0.len() == 7);
    }
    from_members(members)
}

/// Writes a wallet as text.
pub fn encode_wallet(wallet: &Wallet) -> (text: String)
    ensures
        text@ == json_text(json_of_wallet(wallet@)),
{
    let value = wallet_to_json(wallet);
    print(&value)
}

} // verus!
