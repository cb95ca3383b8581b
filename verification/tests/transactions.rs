use vitabit::address::derive_address;
use vitabit::transaction::{signing_digest, Transaction, TxInput, TxOutput};
use vitabit::utxo::{UTXOSet, Utxo};
use vitabit::wallet::Wallet;

const KEY_ONE: &str = "0000000000000000000000000000000000000000000000000000000000000001";
const KEY_TWO: &str = "0000000000000000000000000000000000000000000000000000000000000002";
const ADDRESS_ONE: &str = "1BgGZ9tcN4rm9KBzDn7KprQz87SZ26SAMH";
const ADDRESS_TWO: &str = "1cMh228HTCiwS8ZsaakH8A8wze1JR5ZsP";

fn output(value: u64, address: &str, timestamp: i64) -> TxOutput {
    TxOutput { value, address: address.to_string(), timestamp }
}

fn index_with(txid: &str, index: usize, value: u64, address: &str) -> UTXOSet {
    UTXOSet {
        utxos: vec![Utxo { txid: txid.to_string(), index, output: output(value, address, 1700000000) }],
    }
}

fn hex_to_bytes(text: &str) -> Vec<u8> {
    (0..text.len() / 2).map(|i| u8::from_str_radix(&text[2 * i..2 * i + 2], 16).unwrap()).collect()
}

#[test]
fn transaction_id_is_the_digest_of_the_debug_text() {
    let inputs = vec![TxInput {
        txid: "ab\"c".to_string(),
        index: 3,
        signature: "s\\".to_string(),
        pubkey: "é\n".to_string(),
    }];
    let outputs = vec![output(1, "a", -7), output(u64::MAX, "", i64::MAX)];
    let tx = Transaction::new(inputs, outputs);
    assert_eq!(tx.id, "10d38b172c76626f74fb872469cefefd106790e11caa43c341230907d403196f");
    assert_eq!(tx.inputs.len(), 1);
    assert_eq!(tx.inputs[0].index, 3);
    assert_eq!(tx.outputs.len(), 2);
    assert_eq!(tx.outputs[1].value, u64::MAX);
    assert_eq!(tx.id, Transaction::calculate_hash(&tx.inputs, &tx.outputs));
}

#[test]
fn transaction_without_inputs_and_outputs() {
    let tx = Transaction::new(vec![], vec![]);
    assert_eq!(tx.id, "821bf06b4dcb406ea508a4a992eadc22f29850cd208ba24aea7c29148de8ccf1");
}

#[test]
fn coinbase_has_one_marked_input_and_one_output() {
    let tx = Transaction::new_coinbase_at(ADDRESS_ONE, 5_000_000_000, 1700000000);
    assert_eq!(tx.id, "18399594872fd8b5f2630f105a5d7b800dc03850061c3af1fdb21b058a64697d");
    assert_eq!(tx.inputs.len(), 1);
    assert_eq!(tx.inputs[0].txid, "0");
    assert_eq!(tx.inputs[0].index, 0);
    assert_eq!(tx.inputs[0].signature, "coinbase");
    assert_eq!(tx.inputs[0].pubkey, "coinbase");
    assert_eq!(tx.outputs.len(), 1);
    assert_eq!(tx.outputs[0].value, 5_000_000_000);
    assert_eq!(tx.outputs[0].address, ADDRESS_ONE);
    assert_eq!(tx.outputs[0].timestamp, 1700000000);
}

#[test]
fn coinbase_from_the_clock() {
    let tx = Transaction::new_coinbase(ADDRESS_TWO, 7);
    assert_eq!(tx.inputs.len(), 1);
    assert_eq!(tx.inputs[0].signature, "coinbase");
    assert_eq!(tx.outputs.len(), 1);
    assert_eq!(tx.outputs[0].value, 7);
    assert_eq!(tx.outputs[0].address, ADDRESS_TWO);
    assert!(tx.outputs[0].timestamp > 1_600_000_000);
    assert_eq!(tx.id, Transaction::calculate_hash(&tx.inputs, &tx.outputs));
}

#[test]
fn signing_digest_is_the_digest_of_txid_and_index() {
    assert_eq!(
        signing_digest("tx1", 0),
        hex_to_bytes("3ebc2bd1d73e4f2f1f2af086ad724c98c8030f74c0c2be6c2d6fd538c711f35c")
    );
}

#[test]
fn address_of_a_known_key() {
    let key = hex_to_bytes("0279be667ef9dcbbac55a06295ce870b07029bfcdb2dce28d959f2815b16f81798");
    assert_eq!(derive_address(&key), ADDRESS_ONE);
    let other = hex_to_bytes("02c6047f9441ed7d6d3045406e95c07cd85c778e4b8cef3ca7abac09b95c709ee5");
    assert_eq!(derive_address(&other), ADDRESS_TWO);
}

#[test]
fn correctly_signed_input_is_valid() {
    let wallet = Wallet::from_private_key(KEY_ONE).unwrap();
    let index = index_with("funding", 2, 100, ADDRESS_ONE);
    let tx = wallet.create_transaction_at(ADDRESS_TWO, 100, &index, 1700000500).unwrap();
    assert_eq!(tx.inputs.len(), 1);
    assert!(tx.inputs[0].is_valid(&index.utxos[0].output));
}

#[test]
fn upper_case_key_text_is_accepted() {
    let wallet = Wallet::from_private_key(KEY_ONE).unwrap();
    let index = index_with("funding", 2, 100, ADDRESS_ONE);
    let tx = wallet.create_transaction_at(ADDRESS_TWO, 100, &index, 1700000500).unwrap();
    let mut input = tx.inputs[0].clone();
    input.pubkey = input.pubkey.to_uppercase();
    input.signature = input.signature.to_uppercase();
    assert!(input.is_valid(&index.utxos[0].output));
}

#[test]
fn input_for_another_owner_is_invalid() {
    let wallet = Wallet::from_private_key(KEY_ONE).unwrap();
    let index = index_with("funding", 2, 100, ADDRESS_ONE);
    let tx = wallet.create_transaction_at(ADDRESS_TWO, 100, &index, 1700000500).unwrap();
    assert!(!tx.inputs[0].is_valid(&output(100, ADDRESS_TWO, 1700000000)));
}

#[test]
fn signature_by_a_different_key_is_invalid() {
    let one = Wallet::from_private_key(KEY_ONE).unwrap();
    let two = Wallet::from_private_key(KEY_TWO).unwrap();
    let index = index_with("funding", 0, 100, ADDRESS_TWO);
    let forger = Wallet {
        private_key: one.private_key.clone(),
        public_key: two.public_key.clone(),
        address: two.address.clone(),
    };
    let forged = forger.create_transaction_at(ADDRESS_ONE, 100, &index, 1700000500).unwrap();
    assert_eq!(forged.inputs[0].pubkey, two.public_key);
    assert!(!forged.inputs[0].is_valid(&index.utxos[0].output));
    let honest = two.create_transaction_at(ADDRESS_ONE, 100, &index, 1700000500).unwrap();
    assert!(honest.inputs[0].is_valid(&index.utxos[0].output));
}

#[test]
fn signature_for_another_output_is_invalid() {
    let wallet = Wallet::from_private_key(KEY_ONE).unwrap();
    let index = index_with("funding", 2, 100, ADDRESS_ONE);
    let tx = wallet.create_transaction_at(ADDRESS_TWO, 100, &index, 1700000500).unwrap();
    let mut moved = tx.inputs[0].clone();
    moved.index = 3;
    assert!(!moved.is_valid(&index.utxos[0].output));
    let mut renamed = tx.inputs[0].clone();
    renamed.txid = "other".to_string();
    assert!(!renamed.is_valid(&index.utxos[0].output));
}

#[test]
fn malformed_inputs_are_invalid() {
    let wallet = Wallet::from_private_key(KEY_ONE).unwrap();
    let index = index_with("funding", 2, 100, ADDRESS_ONE);
    let tx = wallet.create_transaction_at(ADDRESS_TWO, 100, &index, 1700000500).unwrap();
    let good = tx.inputs[0].clone();
    let held = &index.utxos[0].output;

    let mut not_hex_key = good.clone();
    not_hex_key.pubkey = "zz".to_string();
    assert!(!not_hex_key.is_valid(held));

    let mut odd_key = good.clone();
    odd_key.pubkey.pop();
    assert!(!odd_key.is_valid(held));

    let mut no_key = good.clone();
    no_key.pubkey = "00".to_string();
    assert!(!no_key.is_valid(held));

    let mut empty_key = good.clone();
    empty_key.pubkey = String::new();
    assert!(!empty_key.is_valid(held));

    let mut not_hex_signature = good.clone();
    not_hex_signature.signature = "coinbase".to_string();
    assert!(!not_hex_signature.is_valid(held));

    let mut no_signature = good.clone();
    no_signature.signature = String::new();
    assert!(!no_signature.is_valid(held));

    let mut not_der = good.clone();
    not_der.signature = "00112233".to_string();
    assert!(!not_der.is_valid(held));
}

#[test]
fn coinbase_input_is_no_valid_spend() {
    let tx = Transaction::new_coinbase_at(ADDRESS_ONE, 50, 1700000000);
    assert!(!tx.inputs[0].is_valid(&tx.outputs[0]));
}
