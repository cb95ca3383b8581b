use vitabit::transaction::TxOutput;
use vitabit::utxo::{UTXOSet, Utxo};
use vitabit::vault::{join_halves, split_halves};
use vitabit::wallet::Wallet;

const KEY_ONE: &str = "0000000000000000000000000000000000000000000000000000000000000001";
const ADDRESS_ONE: &str = "1BgGZ9tcN4rm9KBzDn7KprQz87SZ26SAMH";
const ADDRESS_TWO: &str = "1cMh228HTCiwS8ZsaakH8A8wze1JR5ZsP";

fn entry(txid: &str, index: usize, value: u64, address: &str) -> Utxo {
    Utxo {
        txid: txid.to_string(),
        index,
        output: TxOutput { value, address: address.to_string(), timestamp: 1700000000 },
    }
}

fn funds() -> UTXOSet {
    UTXOSet {
        utxos: vec![
            entry("a", 0, 10, ADDRESS_ONE),
            entry("a", 1, 99, ADDRESS_TWO),
            entry("b", 0, 20, ADDRESS_ONE),
            entry("c", 2, 30, ADDRESS_ONE),
        ],
    }
}

#[test]
fn wallet_of_a_known_key() {
    let wallet = Wallet::from_private_key(KEY_ONE).unwrap();
    assert_eq!(wallet.private_key, KEY_ONE);
    assert_eq!(
        wallet.public_key,
        "0279be667ef9dcbbac55a06295ce870b07029bfcdb2dce28d959f2815b16f81798"
    );
    assert_eq!(wallet.address, ADDRESS_ONE);
    let other = Wallet::from_private_key(
        "0000000000000000000000000000000000000000000000000000000000000002",
    )
    .unwrap();
    assert_eq!(
        other.public_key,
        "02c6047f9441ed7d6d3045406e95c07cd85c778e4b8cef3ca7abac09b95c709ee5"
    );
    assert_eq!(other.address, ADDRESS_TWO);
}

#[test]
fn private_key_text_is_kept_as_given() {
    let upper = "00000000000000000000000000000000000000000000000000000000000000AB";
    let wallet = Wallet::from_private_key(upper).unwrap();
    assert_eq!(wallet.private_key, upper);
    let lower = Wallet::from_private_key(&upper.to_lowercase()).unwrap();
    assert_eq!(wallet.public_key, lower.public_key);
    assert_eq!(wallet.address, lower.address);
}

#[test]
fn private_keys_that_are_none() {
    assert_eq!(
        Wallet::from_private_key("xyz").unwrap_err(),
        "Chave privada inválida (não é hex)"
    );
    assert_eq!(
        Wallet::from_private_key("abc").unwrap_err(),
        "Chave privada inválida (não é hex)"
    );
    assert_eq!(
        Wallet::from_private_key("é0").unwrap_err(),
        "Chave privada inválida (não é hex)"
    );
    assert_eq!(
        Wallet::from_private_key("").unwrap_err(),
        "Chave privada inválida (tamanho incorreto)"
    );
    assert_eq!(
        Wallet::from_private_key("0001").unwrap_err(),
        "Chave privada inválida (tamanho incorreto)"
    );
    assert_eq!(
        Wallet::from_private_key("0000000000000000000000000000000000000000000000000000000000000000")
            .unwrap_err(),
        "Chave privada inválida (tamanho incorreto)"
    );
    assert_eq!(
        Wallet::from_private_key("ffffffffffffffffffffffffffffffffffffffffffffffffffffffffffffffff")
            .unwrap_err(),
        "Chave privada inválida (tamanho incorreto)"
    );
}

#[test]
fn a_new_wallet_has_a_key_of_its_own() {
    let first = Wallet::new().unwrap();
    let second = Wallet::new().unwrap();
    assert_eq!(first.private_key.len(), 64);
    assert_eq!(first.public_key.len(), 66);
    assert_ne!(first.private_key, second.private_key);
    assert_ne!(first.address, second.address);
    let again = Wallet::from_private_key(&first.private_key).unwrap();
    assert_eq!(again.public_key, first.public_key);
    assert_eq!(again.address, first.address);
    assert!(first.address.starts_with('1'));
}

#[test]
fn a_payment_takes_outputs_in_order_until_they_cover_it() {
    let wallet = Wallet::from_private_key(KEY_ONE).unwrap();
    let set = funds();

    let exact = wallet.create_transaction_at(ADDRESS_TWO, 10, &set, 1700000500).unwrap();
    assert_eq!(exact.inputs.len(), 1);
    assert_eq!((exact.inputs[0].txid.as_str(), exact.inputs[0].index), ("a", 0));
    assert_eq!(exact.inputs[0].pubkey, wallet.public_key);
    assert_eq!(exact.outputs.len(), 1);
    assert_eq!(exact.outputs[0].value, 10);
    assert_eq!(exact.outputs[0].address, ADDRESS_TWO);
    assert_eq!(exact.outputs[0].timestamp, 1700000500);

    let two = wallet.create_transaction_at(ADDRESS_TWO, 11, &set, 1700000500).unwrap();
    assert_eq!(two.inputs.len(), 2);
    assert_eq!((two.inputs[1].txid.as_str(), two.inputs[1].index), ("b", 0));
    assert_eq!(two.outputs.len(), 2);
    assert_eq!(two.outputs[0].value, 11);
    assert_eq!(two.outputs[1].value, 19);
    assert_eq!(two.outputs[1].address, ADDRESS_ONE);
    assert_eq!(two.outputs[1].timestamp, 1700000500);

    let all = wallet.create_transaction_at(ADDRESS_TWO, 60, &set, 1700000500).unwrap();
    assert_eq!(all.inputs.len(), 3);
    assert_eq!((all.inputs[2].txid.as_str(), all.inputs[2].index), ("c", 2));
    assert_eq!(all.outputs.len(), 1);

    let small = wallet.create_transaction_at(ADDRESS_TWO, 1, &set, 1700000500).unwrap();
    assert_eq!(small.inputs.len(), 1);
    assert_eq!(small.outputs[1].value, 9);

    for tx in [&exact, &two, &all, &small] {
        for input in &tx.inputs {
            let held = set.get(&input.txid, input.index).unwrap();
            assert!(input.is_valid(held));
        }
    }
}

#[test]
fn a_payment_of_nothing_still_takes_one_output() {
    let wallet = Wallet::from_private_key(KEY_ONE).unwrap();
    let tx = wallet.create_transaction_at(ADDRESS_TWO, 0, &funds(), 5).unwrap();
    assert_eq!(tx.inputs.len(), 1);
    assert_eq!(tx.outputs.len(), 2);
    assert_eq!(tx.outputs[0].value, 0);
    assert_eq!(tx.outputs[1].value, 10);
    let empty = wallet.create_transaction_at(ADDRESS_TWO, 0, &UTXOSet::new(), 5).unwrap();
    assert!(empty.inputs.is_empty());
    assert_eq!(empty.outputs.len(), 1);
    assert_eq!(empty.outputs[0].value, 0);
}

#[test]
fn a_payment_that_the_funds_do_not_cover_is_refused() {
    let wallet = Wallet::from_private_key(KEY_ONE).unwrap();
    assert!(wallet.create_transaction_at(ADDRESS_TWO, 61, &funds(), 5).is_none());
    assert!(wallet.create_transaction_at(ADDRESS_TWO, u64::MAX, &funds(), 5).is_none());
    assert!(wallet.create_transaction_at(ADDRESS_TWO, 1, &UTXOSet::new(), 5).is_none());
    assert!(wallet.create_transaction(ADDRESS_TWO, 61, &funds()).is_none());
}

#[test]
fn large_funds_are_added_up_without_loss() {
    let wallet = Wallet::from_private_key(KEY_ONE).unwrap();
    let set = UTXOSet {
        utxos: vec![entry("a", 0, u64::MAX - 1, ADDRESS_ONE), entry("b", 0, u64::MAX, ADDRESS_ONE)],
    };
    let tx = wallet.create_transaction_at(ADDRESS_TWO, u64::MAX, &set, 5).unwrap();
    assert_eq!(tx.inputs.len(), 2);
    assert_eq!(tx.outputs[0].value, u64::MAX);
    assert_eq!(tx.outputs[1].value, u64::MAX - 1);
}

#[test]
fn a_wallet_without_a_key_makes_no_payment() {
    let mut wallet = Wallet::from_private_key(KEY_ONE).unwrap();
    wallet.private_key = "not hex".to_string();
    assert!(wallet.create_transaction_at(ADDRESS_TWO, 0, &UTXOSet::new(), 5).is_none());
    assert!(wallet.create_transaction_at(ADDRESS_TWO, 5, &funds(), 5).is_none());
    wallet.private_key = "00".to_string();
    assert!(wallet.create_transaction_at(ADDRESS_TWO, 0, &UTXOSet::new(), 5).is_none());
    assert!(wallet.create_transaction_at(ADDRESS_TWO, 5, &funds(), 5).is_none());
    assert!(wallet.assinar(b"message").is_none());
    wallet.private_key = "zz".to_string();
    assert!(wallet.assinar(b"message").is_none());
}

#[test]
fn a_payment_dated_by_the_clock() {
    let wallet = Wallet::from_private_key(KEY_ONE).unwrap();
    let tx = wallet.create_transaction(ADDRESS_TWO, 25, &funds()).unwrap();
    assert_eq!(tx.inputs.len(), 2);
    assert_eq!(tx.outputs[0].value, 25);
    assert_eq!(tx.outputs[1].value, 5);
    assert!(tx.outputs[0].timestamp > 1_600_000_000);
    assert_eq!(tx.outputs[0].timestamp, tx.outputs[1].timestamp);
}

#[test]
fn signing_a_message() {
    let wallet = Wallet::from_private_key(KEY_ONE).unwrap();
    let signature = wallet.assinar(b"message").unwrap();
    assert_eq!(signature.len(), 64);
    assert_eq!(wallet.assinar(b"message").unwrap(), signature);
    assert_ne!(wallet.assinar(b"another").unwrap(), signature);
    assert_ne!(signature, b"message".to_vec());
    let key = k256::ecdsa::SigningKey::from_slice(&[
        0, 0, 0, 0, 0, 0, 0, 0, 0, 0, 0, 0, 0, 0, 0, 0, 0, 0, 0, 0, 0, 0, 0, 0, 0, 0, 0, 0, 0, 0, 0, 1,
    ])
    .unwrap();
    let parsed = k256::ecdsa::Signature::from_slice(&signature).unwrap();
    assert!(k256::ecdsa::signature::Verifier::verify(key.verifying_key(), b"message", &parsed).is_ok());
}

#[test]
fn a_wallet_is_written_member_by_member() {
    let wallet = Wallet::from_private_key(KEY_ONE).unwrap();
    assert_eq!(
        wallet.to_json(),
        "{\"private_key\":\"0000000000000000000000000000000000000000000000000000000000000001\",\"public_key\":\"0279be667ef9dcbbac55a06295ce870b07029bfcdb2dce28d959f2815b16f81798\",\"address\":\"1BgGZ9tcN4rm9KBzDn7KprQz87SZ26SAMH\"}"
    );
    let read = Wallet::from_json(&wallet.to_json()).unwrap();
    assert_eq!(read.private_key, wallet.private_key);
    assert_eq!(read.public_key, wallet.public_key);
    assert_eq!(read.address, wallet.address);
}

#[test]
fn a_wallet_is_read_as_it_stands() {
    let read = Wallet::from_json("{\"address\":\"a\",\"note\":1,\"public_key\":\"p\",\"private_key\":\"s\"}").unwrap();
    assert_eq!(read.private_key, "s");
    assert_eq!(read.public_key, "p");
    assert_eq!(read.address, "a");
    assert!(Wallet::from_json("{\"address\":\"a\",\"public_key\":\"p\"}").is_none());
    assert!(Wallet::from_json("{\"address\":\"a\",\"public_key\":\"p\",\"private_key\":5}").is_none());
    assert!(Wallet::from_json("[]").is_none());
    assert!(Wallet::from_json("").is_none());
}

#[test]
fn the_halves_of_a_wallet_file() {
    assert_eq!(join_halves("nonce", "sealed"), "nonce:sealed");
    assert_eq!(join_halves("", ""), ":");
    assert_eq!(split_halves(b"nonce:sealed"), Some((b"nonce".to_vec(), b"sealed".to_vec())));
    assert_eq!(split_halves(b":"), Some((vec![], vec![])));
    assert_eq!(split_halves(b":b"), Some((vec![], b"b".to_vec())));
    assert_eq!(split_halves(b"a:"), Some((b"a".to_vec(), vec![])));
    assert_eq!(split_halves(b""), None);
    assert_eq!(split_halves(b"no separator"), None);
    assert_eq!(split_halves(b"a:b:c"), None);
    assert_eq!(split_halves(b"::"), None);
    assert_eq!(split_halves(join_halves("YWJj", "ZGVm").as_bytes()), Some((b"YWJj".to_vec(), b"ZGVm".to_vec())));
}

#[test]
fn wallet_of_the_bytes_of_a_secret_key() {
    let mut secret = [0u8; 32];
    secret[31] = 1;
    let wallet = Wallet::from_secret(&secret).unwrap();
    assert_eq!(wallet.private_key, KEY_ONE);
    assert_eq!(
        wallet.public_key,
        "0279be667ef9dcbbac55a06295ce870b07029bfcdb2dce28d959f2815b16f81798"
    );
    assert_eq!(wallet.address, ADDRESS_ONE);
    assert!(Wallet::from_secret(&[0u8; 32]).is_none());
    assert!(Wallet::from_secret(&[0xffu8; 32]).is_none());
    assert!(Wallet::from_secret(&secret[..31]).is_none());
    assert!(Wallet::from_secret(&[]).is_none());
}
