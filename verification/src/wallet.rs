//! Wallets: a key pair with its address, and the making of transactions
//! that spend what the address owns.

use vstd::prelude::*;
use vstd::utf8::encode_utf8;
use crate::address::{address_of, derive_address};
use crate::clock::unix_time;
use crate::codec::{decode_wallet, encode_wallet, json_of_wallet, parse_wallet};
use crate::digest::{
    hex_bytes, hex_decode, hex_encode, hex_text, is_hex, lemma_hex_round_trip, sha256,
};
use crate::json::json_text;
use crate::keys::{
    compact_signature, derive_public_key, ecdsa_signature, ecdsa_verifies, public_key,
    random_bytes, secret_public_key, sign_digest, sign_message,
};
use crate::transaction::{
    input_authorized, signing_digest, signing_message, transaction_id, Transaction,
    TransactionView, TxInput, TxInputView, TxOutput, TxOutputView,
};
use crate::utxo::{
    entries_of, lemma_total_prefix, lemma_total_push, owned, total_value, UTXOSet, UtxoView,
};

verus! {

/// A key pair and its address. Both keys are held in hexadecimal.
#[derive(Debug)]
pub struct Wallet {
    pub private_key: String,
    pub public_key: String,
    pub address: String,
}

/// The mathematical content of a [`Wallet`].
pub struct WalletView {
    pub private_key: Seq<char>,
    pub public_key: Seq<char>,
    pub address: Seq<char>,
}

impl View for Wallet {
    type V = WalletView;

    open spec fn view(&self) -> WalletView {
        WalletView {
            private_key: self.private_key@,
            public_key: self.public_key@,
            address: self.address@,
        }
    }
}

impl Clone for Wallet {
    fn clone(&self) -> (copy: Self)
        ensures
            copy == *self,
    {
        Wallet {
            private_key: self.private_key.clone(),
            public_key: self.public_key.clone(),
            address: self.address.clone(),
        }
    }
}

/// What is said of a private key that is not hexadecimal text.
pub open spec fn not_hex_message() -> Seq<char> {
    "Chave privada inválida (não é hex)"@
}

/// What is said of a private key that is hexadecimal text but no key.
pub open spec fn bad_key_message() -> Seq<char> {
    "Chave privada inválida (tamanho incorreto)"@
}

/// The wallet of a private key given in hexadecimal, or what is wrong with
/// the key.
pub open spec fn wallet_of(hex_priv: Seq<char>) -> Result<WalletView, Seq<char>> {
    let text = encode_utf8(hex_priv);
    if !is_hex(text) {
        Err(not_hex_message())
    } else {
        match secret_public_key(hex_bytes(text)) {
            Some(key) => Ok(
                WalletView {
                    private_key: hex_priv,
                    public_key: hex_text(key),
                    address: address_of(key),
                },
            ),
            None => Err(bad_key_message()),
        }
    }
}

/// Whether a wallet is the wallet of the 32 bytes of a secret key: it holds
/// the secret and its public key in hexadecimal, and the address of the
/// public key.
pub open spec fn drawn(wallet: WalletView, secret: Seq<u8>) -> bool {
    &&& secret.len() == 32
    &&& secret_public_key(secret) is Some
    &&& wallet.private_key == hex_text(secret)
    &&& wallet.public_key == hex_text(secret_public_key(secret).unwrap())
    &&& wallet.address == address_of(secret_public_key(secret).unwrap())
}

/// Whether paying `amount` consumes the first `count` of the available
/// outputs: they are taken in order until their total covers the amount, at
/// least one if there is any, and all if the total never covers it.
pub open spec fn is_selection(available: Seq<UtxoView>, amount: u64, count: int) -> bool {
    &&& 0 <= count <= available.len()
    &&& count == 0 ==> available.len() == 0
    &&& count > 1 ==> total_value(available.take(count - 1)) < amount
    &&& count < available.len() ==> total_value(available.take(count)) >= amount
}

/// The number of available outputs that paying `amount` consumes.
pub open spec fn selected_count(available: Seq<UtxoView>, amount: u64) -> int {
    choose|count: int| is_selection(available, amount, count)
}

/// The signature, in hexadecimal, by which the holder of `secret` spends an
/// output.
pub open spec fn spending_signature(secret: Seq<u8>, entry: UtxoView) -> Option<Seq<char>> {
    match ecdsa_signature(sha256(signing_message(entry.txid, entry.index)), secret) {
        Some(signature) => Some(hex_text(signature)),
        None => None,
    }
}

/// The input by which a wallet spends an output.
pub open spec fn spending_input(wallet: WalletView, secret: Seq<u8>, entry: UtxoView) -> TxInputView {
    TxInputView {
        txid: entry.txid,
        index: entry.index,
        signature: spending_signature(secret, entry).unwrap(),
        pubkey: wallet.public_key,
    }
}

/// The outputs of a payment: the amount to the receiver and, if the inputs
/// hold more, the rest back to the sender.
pub open spec fn payment_outputs(
    sender: Seq<char>,
    to: Seq<char>,
    amount: u64,
    total: int,
    now: i64,
) -> Seq<TxOutputView> {
    let paid = seq![TxOutputView { value: amount, address: to, timestamp: now }];
    if total > amount {
        paid.push(TxOutputView { value: (total - amount) as u64, address: sender, timestamp: now })
    } else {
        paid
    }
}

/// The transaction by which a wallet pays `amount` to `to` at the time
/// `now` out of the index, if it can: the private key must be a key, every
/// selected output must get its signature, and the selected outputs must
/// cover the amount.
pub open spec fn payment(
    wallet: WalletView,
    to: Seq<char>,
    amount: u64,
    utxos: Seq<UtxoView>,
    now: i64,
) -> Option<TransactionView> {
    let key_text = encode_utf8(wallet.private_key);
    let secret = hex_bytes(key_text);
    let available = owned(utxos, wallet.address);
    let count = selected_count(available, amount);
    let total = total_value(available.take(count));
    if !is_hex(key_text) || secret_public_key(secret) is None {
        None
    } else if exists|i: int| 0 <= i < count && (#[trigger] spending_signature(secret, available[i])) is None {
        None
    } else if total < amount {
        None
    } else {
        let inputs = Seq::new(count as nat, |i: int| spending_input(wallet, secret, available[i]));
        let outputs = payment_outputs(wallet.address, to, amount, total, now);
        Some(TransactionView { id: transaction_id(inputs, outputs), inputs, outputs })
    }
}

/// An input that a wallet made for an output is entitled to the output
/// exactly if the wallet's public key is a key whose address owns the
/// output, and the signature that was made verifies under it: writing keys
/// and signatures in hexadecimal loses nothing.
pub proof fn lemma_spending_input_authorized(
    wallet: WalletView,
    secret: Seq<u8>,
    key: Seq<u8>,
    entry: UtxoView,
)
    requires
        wallet.public_key == hex_text(key),
        ecdsa_signature(sha256(signing_message(entry.txid, entry.index)), secret) is Some,
    ensures
        input_authorized(spending_input(wallet, secret, entry), entry.output) <==> {
            &&& public_key(key) is Some
            &&& address_of(public_key(key).unwrap()) == entry.output.address
            &&& ecdsa_verifies(
                sha256(signing_message(entry.txid, entry.index)),
                ecdsa_signature(sha256(signing_message(entry.txid, entry.index)), secret).unwrap(),
                key,
            )
        },
{
    lemma_hex_round_trip(key);
    lemma_hex_round_trip(
        ecdsa_signature(sha256(signing_message(entry.txid, entry.index)), secret).unwrap(),
    );
}

/// Of two parts of a list, both taken from its start, the shorter is worth
/// no more than the longer.
pub proof fn lemma_total_grows(utxos: Seq<UtxoView>, shorter: int, longer: int)
    requires
        0 <= shorter <= longer <= utxos.len(),
    ensures
        total_value(utxos.take(shorter)) <= total_value(utxos.take(longer)),
{
    lemma_total_prefix(utxos.take(longer), shorter);
    assert(utxos.take(longer).take(shorter) =~= utxos.take(shorter));
}

/// A payment consumes one definite number of outputs.
pub proof fn lemma_selection_unique(available: Seq<UtxoView>, amount: u64, count: int)
    requires
        is_selection(available, amount, count),
    ensures
        selected_count(available, amount) == count,
{
    let chosen = selected_count(available, amount);
    assert(is_selection(available, amount, chosen));
    if chosen < count {
        lemma_total_grows(available, chosen, count - 1);
    } else if count < chosen {
        lemma_total_grows(available, count, chosen - 1);
    }
}

impl Wallet {
    /// Makes a wallet with a key drawn from the operating system. There is
    /// no wallet if the draw fails or is not a key.
    pub fn new() -> (wallet: Option<Wallet>)
        ensures
            wallet is Some ==> exists|secret: Seq<u8>| #[trigger]
                drawn(wallet.unwrap()@, secret),
    {
        match random_bytes(32) {
            Some(secret) => {
                let made = Wallet::from_secret(secret.as_slice());
                assert(made is Some ==> drawn(made.unwrap()@, secret@));
                made
            },
            None => None,
        }
    }

    /// Makes the wallet of a secret key given by its bytes. There is no
    /// wallet exactly if the bytes are not a secret key.
    pub fn from_secret(secret: &[u8]) -> (wallet: Option<Wallet>)
        ensures
            match wallet {
                Some(wallet) => {
                    &&& secret_public_key(secret@) is Some
                    &&& wallet@.private_key == hex_text(secret@)
                    &&& wallet@.public_key == hex_text(secret_public_key(secret@).unwrap())
                    &&& wallet@.address == address_of(secret_public_key(secret@).unwrap())
                },
                None => secret_public_key(secret@) is None,
            },
    {
        let hex_priv = hex_encode(secret);
        proof {
            lemma_hex_round_trip(secret@);
        }
        match Wallet::from_private_key(hex_priv.as_str()) {
            Ok(wallet) => Some(wallet),
            Err(_) => None,
        }
    }

    /// Makes the wallet of a private key given in hexadecimal.
    pub fn from_private_key(hex_priv: &str) -> (wallet: Result<Wallet, String>)
        ensures
            match wallet {
                Ok(wallet) => wallet_of(hex_priv@) == Ok::<WalletView, Seq<char>>(wallet@),
                Err(message) => wallet_of(hex_priv@) == Err::<WalletView, Seq<char>>(message@),
            },
    {
        let priv_bytes = match hex_decode(hex_priv) {
            Some(bytes) => bytes,
            None => {
                return Err("Chave privada inválida (não é hex)".to_owned());
            },
        };
        let pub_key_bytes = match derive_public_key(priv_bytes.as_slice()) {
            Some(key) => key,
            None => {
                return Err("Chave privada inválida (tamanho incorreto)".to_owned());
            },
        };
        let address = derive_address(pub_key_bytes.as_slice());
        Ok(
            Wallet {
                private_key: hex_priv.to_owned(),
                public_key: hex_encode(pub_key_bytes.as_slice()),
                address,
            },
        )
    }

    /// Makes the transaction that pays `amount` to `to` out of what the
    /// wallet's address owns in the index, dated by the clock.
    pub fn create_transaction(&self, to: &str, amount: u64, utxo_set: &UTXOSet) -> (tx: Option<
        Transaction,
    >)
        ensures
            exists|now: i64|
                match tx {
                    Some(tx) => #[trigger] payment(self@, to@, amount, utxo_set@, now) == Some(tx@),
                    None => payment(self@, to@, amount, utxo_set@, now) is None,
                },
    {
        let now = unix_time();
        let tx = self.create_transaction_at(to, amount, utxo_set, now);
        assert(match tx {
            Some(tx) => payment(self@, to@, amount, utxo_set@, now) == Some(tx@),
            None => payment(self@, to@, amount, utxo_set@, now) is None,
        });
        tx
    }

    /// Makes the transaction that pays `amount` to `to` out of what the
    /// wallet's address owns in the index, dated `now`.
    ///
    /// The outputs are taken in the order of the index until they cover the
    /// amount, and each is signed. What they hold beyond the amount goes
    /// back to the wallet's address.
    pub fn create_transaction_at(&self, to: &str, amount: u64, utxo_set: &UTXOSet, now: i64) -> (tx:
        Option<Transaction>)
        ensures
            match tx {
                Some(tx) => payment(self@, to@, amount, utxo_set@, now) == Some(tx@),
                None => payment(self@, to@, amount, utxo_set@, now) is None,
            },
    {
        let available = utxo_set.find_by_address(self.address.as_str());
        let ghost entries = entries_of(available@);
        let sk_bytes = match hex_decode(self.private_key.as_str()) {
            Some(bytes) => bytes,
            None => {
                return None;
            },
        };
        if derive_public_key(sk_bytes.as_slice()).is_none() {
            return None;
        }
        let mut total: u128 = 0;
        let mut inputs: Vec<TxInput> = Vec::new();
        let mut i: usize = 0;
        let mut covered: bool = false;
        while i < available.len() && !covered
            invariant
                i <= available@.len(),
                entries == entries_of(available@),
                entries == owned(utxo_set@, self@.address),
                inputs@.len() == i,
                total == total_value(entries.take(i as int)),
                i > 0 && !covered ==> total < amount,
                i > 1 ==> total_value(entries.take(i - 1)) < amount,
                covered ==> i > 0 && total >= amount,
                sk_bytes@ == hex_bytes(encode_utf8(self@.private_key)),
                forall|k: int|
                    0 <= k < i ==> (#[trigger] spending_signature(sk_bytes@, entries[k])) is Some,
                forall|k: int|
                    0 <= k < i ==> (#[trigger] inputs@[k])@ == spending_input(
                        self@,
                        sk_bytes@,
                        entries[k],
                    ),
            decreases available@.len() - i, if covered { 0int } else { 1int },
        {
            let entry = &available[i];
            let digest = signing_digest(entry.0.as_str(), entry.1);
            let signature = match sign_digest(digest.as_slice(), sk_bytes.as_slice()) {
                Some(signature) => signature,
                None => {
                    proof {
                        assert(spending_signature(sk_bytes@, entries[i as int]) is None);
                        lemma_rest_covers(entries, amount, i as int, total as int);
                    }
                    return None;
                },
            };
            proof {
                assert(entries.take(i + 1) =~= entries.take(i as int).push(entries[i as int]));
                lemma_total_push(entries.take(i as int), entries[i as int]);
            }
            total = total + entry.2.value as u128;
            inputs.push(
                TxInput {
                    txid: entry.0.clone(),
                    index: entry.1,
                    signature: hex_encode(signature.as_slice()),
                    pubkey: self.public_key.clone(),
                },
            );
            i += 1;
            if total >= amount as u128 {
                covered = true;
            }
        }
        proof {
            lemma_selection_unique(entries, amount, i as int);
        }
        if total < amount as u128 {
            return None;
        }
        let mut outputs: Vec<TxOutput> = Vec::new();
        outputs.push(TxOutput { value: amount, address: to.to_owned(), timestamp: now });
        if total > amount as u128 {
            proof {
                if i > 1 {
                    lemma_total_push(entries.take(i - 1), entries[i - 1]);
                } else {
                    lemma_total_push(Seq::<UtxoView>::empty(), entries[0]);
                }
            }
            outputs.push(
                TxOutput {
                    value: (total - amount as u128) as u64,
                    address: self.address.clone(),
                    timestamp: now,
                },
            );
        }
        let tx = Transaction::new(inputs, outputs);
        proof {
            let expected = payment(self@, to@, amount, utxo_set@, now).unwrap();
            assert(tx@.inputs =~= expected.inputs);
            assert(tx@.outputs =~= expected.outputs);
        }
        Some(tx)
    }

    /// The wallet as it is kept in a file before it is sealed.
    pub fn to_json(&self) -> (text: String)
        ensures
            text@ == json_text(json_of_wallet(self@)),
    {
        encode_wallet(self)
    }

    /// The wallet that an unsealed file holds.
    pub fn from_json(text: &str) -> (wallet: Option<Wallet>)
        ensures
            match wallet {
                Some(wallet) => parse_wallet(text@) == Some(wallet@),
                None => parse_wallet(text@) is None,
            },
    {
        decode_wallet(text)
    }

    /// Signs a message with the wallet's private key. There is no signature
    /// if the private key is not a key.
    pub fn assinar(&self, msg_hash: &[u8]) -> (signature: Option<Vec<u8>>)
        ensures
            match signature {
                Some(signature) => is_hex(encode_utf8(self@.private_key)) && compact_signature(
                    hex_bytes(encode_utf8(self@.private_key)),
                    msg_hash@,
                ) == Some(signature@),
                None => !is_hex(encode_utf8(self@.private_key)) || compact_signature(
                    hex_bytes(encode_utf8(self@.private_key)),
                    msg_hash@,
                ) is None,
            },
    {
        match hex_decode(self.private_key.as_str()) {
            Some(secret) => sign_message(secret.as_slice(), msg_hash),
            None => None,
        }
    }
}

/// When an output within the selection gets no signature, it is within the
/// selection whatever follows it.
proof fn lemma_rest_covers(entries: Seq<UtxoView>, amount: u64, i: int, total: int)
    requires
        0 <= i < entries.len(),
        total == total_value(entries.take(i)),
        i > 0 ==> total < amount,
    ensures
        i < selected_count(entries, amount),
{
    let count = selected_count(entries, amount);
    lemma_selection_exists(entries, amount);
    if count <= i {
        if count == 0 {
        } else {
            lemma_total_grows(entries, count, i);
        }
    }
}

/// Every payment consumes some number of outputs.
pub proof fn lemma_selection_exists(available: Seq<UtxoView>, amount: u64)
    ensures
        is_selection(available, amount, selected_count(available, amount)),
{
    lemma_selection_exists_from(available, amount, if available.len() == 0 { 0 } else { 1 });
}

/// The search for the number of outputs that a payment consumes, begun at
/// `start`, finds it.
proof fn lemma_selection_exists_from(available: Seq<UtxoView>, amount: u64, start: int)
    requires
        0 <= start <= available.len(),
        start == 0 ==> available.len() == 0,
        start > 1 ==> total_value(available.take(start - 1)) < amount,
    ensures
        exists|count: int| is_selection(available, amount, count),
    decreases available.len() - start,
{
    if start < available.len() && total_value(available.take(start)) < amount {
        lemma_selection_exists_from(available, amount, start + 1);
    } else {
        assert(is_selection(available, amount, start));
    }
}

} // verus!
