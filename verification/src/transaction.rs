//! Transactions: value moved from earlier outputs to new ones, and the check
//! that an input is entitled to the output it spends.

use vstd::prelude::*;
use vstd::utf8::encode_utf8;
use crate::address::{address_of, derive_address};
use crate::clock::unix_time;
use crate::digest::{hex_bytes, hex_decode, hex_text, is_hex, sha256, sha256_digest, sha256_hex};
use crate::keys::{ecdsa_verifies, parse_public_key, public_key, verify_signature};
use crate::text::{decimal, push_bytes, push_decimal};

verus! {

/// A claim on one earlier output: which output, and the owner's proof.
#[derive(Debug)]
pub struct TxInput {
    /// The id of the transaction that made the output.
    pub txid: String,
    /// The position of the output in that transaction.
    pub index: usize,
    /// The DER signature, in hexadecimal.
    pub signature: String,
    /// The signer's public key, in hexadecimal.
    pub pubkey: String,
}

/// An amount assigned to an address at a point in time.
#[derive(Debug)]
pub struct TxOutput {
    /// The amount in base units.
    pub value: u64,
    /// The base58-check address of the owner.
    pub address: String,
    /// The Unix time at which the output was created.
    pub timestamp: i64,
}

/// A transfer: the outputs it spends and the outputs it creates, under the
/// hash of both.
#[derive(Debug)]
pub struct Transaction {
    pub id: String,
    pub inputs: Vec<TxInput>,
    pub outputs: Vec<TxOutput>,
}

/// The mathematical content of a [`TxInput`].
pub struct TxInputView {
    pub txid: Seq<char>,
    pub index: usize,
    pub signature: Seq<char>,
    pub pubkey: Seq<char>,
}

/// The mathematical content of a [`TxOutput`].
pub struct TxOutputView {
    pub value: u64,
    pub address: Seq<char>,
    pub timestamp: i64,
}

/// The mathematical content of a [`Transaction`].
pub struct TransactionView {
    pub id: Seq<char>,
    pub inputs: Seq<TxInputView>,
    pub outputs: Seq<TxOutputView>,
}

impl View for TxInput {
    type V = TxInputView;

    open spec fn view(&self) -> TxInputView {
        TxInputView {
            txid: self.txid@,
            index: self.index,
            signature: self.signature@,
            pubkey: self.pubkey@,
        }
    }
}

impl DeepView for TxInput {
    type V = TxInputView;

    open spec fn deep_view(&self) -> TxInputView {
        self@
    }
}

impl View for TxOutput {
    type V = TxOutputView;

    open spec fn view(&self) -> TxOutputView {
        TxOutputView { value: self.value, address: self.address@, timestamp: self.timestamp }
    }
}

impl DeepView for TxOutput {
    type V = TxOutputView;

    open spec fn deep_view(&self) -> TxOutputView {
        self@
    }
}

impl View for Transaction {
    type V = TransactionView;

    open spec fn view(&self) -> TransactionView {
        TransactionView {
            id: self.id@,
            inputs: self.inputs.deep_view(),
            outputs: self.outputs.deep_view(),
        }
    }
}

impl DeepView for Transaction {
    type V = TransactionView;

    open spec fn deep_view(&self) -> TransactionView {
        self@
    }
}

impl Clone for TxInput {
    fn clone(&self) -> (copy: Self)
        ensures
            copy == *self,
    {
        TxInput {
            txid: self.txid.clone(),
            index: self.index,
            signature: self.signature.clone(),
            pubkey: self.pubkey.clone(),
        }
    }
}

impl Clone for TxOutput {
    fn clone(&self) -> (copy: Self)
        ensures
            copy == *self,
    {
        TxOutput { value: self.value, address: self.address.clone(), timestamp: self.timestamp }
    }
}

impl Clone for Transaction {
    fn clone(&self) -> (copy: Self)
        ensures
            copy@ == self@,
    {
        let inputs = self.inputs.clone();
        let outputs = self.outputs.clone();
        Transaction { id: self.id.clone(), inputs, outputs }
    }
}

/// The text that `{:?}` prints for a list of inputs followed by a list of
/// outputs.
pub uninterp spec fn debug_text(inputs: Seq<TxInputView>, outputs: Seq<TxOutputView>) -> Seq<char>;

/// The id of a transaction: the hexadecimal SHA-256 digest of the debug text
/// of its inputs and outputs.
pub open spec fn transaction_id(inputs: Seq<TxInputView>, outputs: Seq<TxOutputView>) -> Seq<char> {
    hex_text(sha256(encode_utf8(debug_text(inputs, outputs))))
}

/// Whether a transaction carries the id that belongs to its inputs and
/// outputs.
pub open spec fn identified(tx: TransactionView) -> bool {
    tx.id == transaction_id(tx.inputs, tx.outputs)
}

/// The txid of the single input of a coinbase transaction.
pub open spec fn coinbase_txid() -> Seq<char> {
    "0"@
}

/// What stands in a coinbase input in place of a signature and of a key.
pub open spec fn coinbase_marker() -> Seq<char> {
    "coinbase"@
}

/// The transaction that pays `reward` to `address` at `timestamp` out of
/// nothing: one input that spends no real output, one output.
pub open spec fn coinbase(address: Seq<char>, reward: u64, timestamp: i64) -> TransactionView {
    let inputs = seq![
        TxInputView {
            txid: coinbase_txid(),
            index: 0,
            signature: coinbase_marker(),
            pubkey: coinbase_marker(),
        },
    ];
    let outputs = seq![TxOutputView { value: reward, address, timestamp }];
    TransactionView { id: transaction_id(inputs, outputs), inputs, outputs }
}

/// The bytes that the owner of an output signs to spend it: the txid followed
/// by the decimal numeral of the output's index.
pub open spec fn signing_message(txid: Seq<char>, index: usize) -> Seq<u8> {
    encode_utf8(txid) + decimal(index as nat)
}

/// Whether `input` may spend `output`: its public key decodes, the address of
/// that key is the address of the output, and its signature is a valid
/// signature, under that key, of the digest of the signing message.
pub open spec fn input_authorized(input: TxInputView, output: TxOutputView) -> bool {
    let key_text = encode_utf8(input.pubkey);
    let signature_text = encode_utf8(input.signature);
    &&& is_hex(key_text)
    &&& public_key(hex_bytes(key_text)) is Some
    &&& address_of(public_key(hex_bytes(key_text)).unwrap()) == output.address
    &&& is_hex(signature_text)
    &&& ecdsa_verifies(
        sha256(signing_message(input.txid, input.index)),
        hex_bytes(signature_text),
        hex_bytes(key_text),
    )
}

/// Formats the inputs and the outputs with their derived `Debug` impls, as
/// `format!("{:?}{:?}", inputs, outputs)` does.
///
/// Trusted: the text depends on the contents of the two lists alone.
#[verifier::external_body]
fn format_debug(inputs: &Vec<TxInput>, outputs: &Vec<TxOutput>) -> (text: String)
    ensures
        text@ == debug_text(inputs.deep_view(), outputs.deep_view()),
{
    format!("{:?}{:?}", inputs, outputs)
}

/// The digest of the message that spends output `index` of `txid`.
pub fn signing_digest(txid: &str, index: usize) -> (digest: Vec<u8>)
    ensures
        digest@ == sha256(signing_message(txid@, index)),
        digest@.len() == 32,
{
    let mut message: Vec<u8> = Vec::new();
    push_bytes(&mut message, txid.as_bytes());
    push_decimal(&mut message, index as u64);
    sha256_digest(message.as_slice())
}

impl TxInput {
    /// Decides whether this input may spend `original_output`.
    pub fn is_valid(&self, original_output: &TxOutput) -> (valid: bool)
        ensures
            valid == input_authorized(self@, original_output@),
    {
        let key_bytes = match hex_decode(self.pubkey.as_str()) {
            Some(bytes) => bytes,
            None => {
                return false;
            },
        };
        let key = match parse_public_key(key_bytes.as_slice()) {
            Some(key) => key,
            None => {
                return false;
            },
        };
        let derived_address = derive_address(key.as_slice());
        if derived_address != original_output.address {
            return false;
        }
        let digest = signing_digest(self.txid.as_str(), self.index);
        let signature = match hex_decode(self.signature.as_str()) {
            Some(bytes) => bytes,
            None => {
                return false;
            },
        };
        verify_signature(digest.as_slice(), signature.as_slice(), key_bytes.as_slice())
    }
}

impl Transaction {
    /// Builds a transaction from its inputs and outputs and gives it its id.
    pub fn new(inputs: Vec<TxInput>, outputs: Vec<TxOutput>) -> (tx: Transaction)
        ensures
            tx@.inputs == inputs.deep_view(),
            tx@.outputs == outputs.deep_view(),
            identified(tx@),
    {
        let id = Transaction::calculate_hash(&inputs, &outputs);
        Transaction { id, inputs, outputs }
    }

    /// Builds the coinbase transaction that pays `reward` to `to_address`,
    /// dated by the clock.
    pub fn new_coinbase(to_address: &str, reward: u64) -> (tx: Transaction)
        ensures
            exists|timestamp: i64| tx@ == coinbase(to_address@, reward, timestamp),
    {
        Transaction::new_coinbase_at(to_address, reward, unix_time())
    }

    /// Builds the coinbase transaction that pays `reward` to `to_address`,
    /// dated `timestamp`.
    pub fn new_coinbase_at(to_address: &str, reward: u64, timestamp: i64) -> (tx: Transaction)
        ensures
            tx@ == coinbase(to_address@, reward, timestamp),
    {
        let input = TxInput {
            txid: "0".to_owned(),
            index: 0,
            signature: "coinbase".to_owned(),
            pubkey: "coinbase".to_owned(),
        };
        let output = TxOutput { value: reward, address: to_address.to_owned(), timestamp };
        let mut inputs: Vec<TxInput> = Vec::new();
        inputs.push(input);
        let mut outputs: Vec<TxOutput> = Vec::new();
        outputs.push(output);
        let tx = Transaction::new(inputs, outputs);
        assert(tx@.inputs =~= coinbase(to_address@, reward, timestamp).inputs);
        assert(tx@.outputs =~= coinbase(to_address@, reward, timestamp).outputs);
        tx
    }

    /// The id that belongs to the given inputs and outputs.
    pub fn calculate_hash(inputs: &Vec<TxInput>, outputs: &Vec<TxOutput>) -> (id: String)
        ensures
            id@ == transaction_id(inputs.deep_view(), outputs.deep_view()),
    {
        let raw = format_debug(inputs, outputs);
        sha256_hex(raw.as_str().as_bytes())
    }
}

} // verus!
