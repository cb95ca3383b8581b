//! Wallets at rest: a wallet, or its private key alone, sealed under a
//! password into the text of a file.
//!
//! The file holds the nonce and what was sealed under it, both in base64,
//! with a colon between them. The key derivation, the cipher and base64
//! belong to the `pbkdf2`, `aes-gcm` and `base64` crates and are known to the
//! proofs only by name.

use vstd::prelude::*;
use vstd::string::StringExecFns;
use vstd::utf8::{encode_utf8, valid_utf8};
use crate::codec::{json_of_wallet, parse_wallet};
use crate::digest::{sha256, sha256_digest};
use crate::json::json_text;
use crate::keys::random_bytes;
use crate::wallet::{wallet_of, Wallet, WalletView};

verus! {

/// The number of rounds by which the key of a wallet file is derived.
pub const KEY_ROUNDS: u32 = 100_000;

/// The number of bytes of a key.
pub const KEY_LENGTH: usize = 32;

/// The number of bytes of a nonce.
pub const NONCE_LENGTH: usize = 12;

/// The byte that parts the two halves of a wallet file.
pub const SEPARATOR: u8 = 0x3a;

/// The number of separators among the bytes.
pub open spec fn separators(content: Seq<u8>) -> nat
    decreases content.len(),
{
    if content.len() == 0 {
        0
    } else {
        separators(content.drop_last()) + if content.last() == SEPARATOR {
            1nat
        } else {
            0nat
        }
    }
}

/// The two halves of a wallet file: what stands before and what stands after
/// its separator, if it has exactly one.
pub open spec fn halves(content: Seq<u8>) -> Option<(Seq<u8>, Seq<u8>)> {
    if separators(content) == 1 {
        let at = content.index_of(SEPARATOR);
        Some((content.take(at), content.skip(at + 1)))
    } else {
        None
    }
}

/// The PBKDF2-HMAC-SHA256 key of the given length that is derived from a
/// password and a salt in the given number of rounds.
pub uninterp spec fn pbkdf2_key(password: Seq<u8>, salt: Seq<u8>, rounds: u32, length: usize) -> Seq<
    u8,
>;

/// What AES-256-GCM makes of a plain text under a key and a nonce: the
/// cipher text followed by its tag.
pub uninterp spec fn aes_gcm_sealed(key: Seq<u8>, nonce: Seq<u8>, plain: Seq<u8>) -> Option<Seq<u8>>;

/// The plain text that AES-256-GCM recovers under a key and a nonce, if the
/// tag is the one that belongs to the cipher text.
pub uninterp spec fn aes_gcm_opened(key: Seq<u8>, nonce: Seq<u8>, sealed: Seq<u8>) -> Option<Seq<u8>>;

/// The base64 text of bytes, in the standard alphabet and padded.
pub uninterp spec fn base64_text(data: Seq<u8>) -> Seq<char>;

/// The bytes that base64 text stands for, if it is base64 text.
pub uninterp spec fn base64_bytes(text: Seq<u8>) -> Option<Seq<u8>>;

/// A text without the white space at its start and at its end.
pub uninterp spec fn trimmed(text: Seq<char>) -> Seq<char>;

/// The key under which the wallet file of `name` is sealed with `password`.
pub open spec fn file_key(name: Seq<char>, password: Seq<char>) -> Seq<u8> {
    pbkdf2_key(encode_utf8(password), encode_utf8(name), KEY_ROUNDS, KEY_LENGTH)
}

/// The key under which a private key is sealed with `senha`.
pub open spec fn backup_key(senha: Seq<char>) -> Seq<u8> {
    sha256(encode_utf8(senha))
}

/// The text of a file that holds `plain`, sealed under `key` and `nonce`.
pub open spec fn sealed_file(key: Seq<u8>, nonce: Seq<u8>, plain: Seq<u8>) -> Option<Seq<char>> {
    if nonce.len() != NONCE_LENGTH || key.len() != KEY_LENGTH {
        None
    } else {
        match aes_gcm_sealed(key, nonce, plain) {
            Some(sealed) => Some(base64_text(nonce) + ":"@ + base64_text(sealed)),
            None => None,
        }
    }
}

/// The mathematical content of a [`Reading`].
pub enum ReadingView {
    NoHalves,
    NoNonce,
    NoCipherText,
    Refused,
    Plain(Seq<u8>),
}

/// What reading the content of a sealed file with `key` comes to.
pub open spec fn opened_file(key: Seq<u8>, content: Seq<u8>) -> ReadingView {
    match halves(content) {
        None => ReadingView::NoHalves,
        Some((first, second)) => match base64_bytes(first) {
            None => ReadingView::NoNonce,
            Some(nonce) => match base64_bytes(second) {
                None => ReadingView::NoCipherText,
                Some(sealed) => if nonce.len() != NONCE_LENGTH {
                    ReadingView::NoNonce
                } else if key.len() != KEY_LENGTH {
                    ReadingView::Refused
                } else {
                    match aes_gcm_opened(key, nonce, sealed) {
                        Some(plain) => ReadingView::Plain(plain),
                        None => ReadingView::Refused,
                    }
                },
            },
        },
    }
}

/// The wallet that the content of a wallet file holds for who knows the
/// password.
pub open spec fn decrypted(content: Seq<char>, name: Seq<char>, password: Seq<char>) -> Option<
    WalletView,
> {
    match opened_file(file_key(name, password), encode_utf8(content)) {
        ReadingView::Plain(plain) => if valid_utf8(plain) {
            parse_wallet(vstd::utf8::decode_utf8(plain))
        } else {
            None
        },
        _ => None,
    }
}

/// Why a private key could not be restored from a file.
#[derive(Debug)]
pub enum ImportError {
    /// The content does not have two halves.
    Format,
    /// The first half is not the base64 text of a nonce.
    Nonce,
    /// The second half is not base64 text.
    CipherText,
    /// The password does not open what was sealed.
    Refused,
    /// What was sealed is not text.
    Text,
    /// What was sealed is no private key; the message says why.
    Key(String),
}

/// The mathematical content of an [`ImportError`].
pub enum ImportErrorView {
    Format,
    Nonce,
    CipherText,
    Refused,
    Text,
    Key(Seq<char>),
}

impl View for ImportError {
    type V = ImportErrorView;

    open spec fn view(&self) -> ImportErrorView {
        match self {
            ImportError::Format => ImportErrorView::Format,
            ImportError::Nonce => ImportErrorView::Nonce,
            ImportError::CipherText => ImportErrorView::CipherText,
            ImportError::Refused => ImportErrorView::Refused,
            ImportError::Text => ImportErrorView::Text,
            ImportError::Key(message) => ImportErrorView::Key(message@),
        }
    }
}

/// The wallet of the private key that the content of a backup file holds for
/// who knows the password, or why there is none.
pub open spec fn imported(senha: Seq<char>, conteudo: Seq<char>) -> Result<
    WalletView,
    ImportErrorView,
> {
    match opened_file(backup_key(senha), encode_utf8(trimmed(conteudo))) {
        ReadingView::NoHalves => Err(ImportErrorView::Format),
        ReadingView::NoNonce => Err(ImportErrorView::Nonce),
        ReadingView::NoCipherText => Err(ImportErrorView::CipherText),
        ReadingView::Refused => Err(ImportErrorView::Refused),
        ReadingView::Plain(plain) => if valid_utf8(plain) {
            match wallet_of(vstd::utf8::decode_utf8(plain)) {
                Ok(wallet) => Ok(wallet),
                Err(message) => Err(ImportErrorView::Key(message)),
            }
        } else {
            Err(ImportErrorView::Text)
        },
    }
}

/// Derives a key with `pbkdf2::pbkdf2_hmac` over SHA-256.
///
/// Trusted: the result is the key named [`pbkdf2_key`], of the length asked
/// for.
#[verifier::external_body]
fn stretch_key(password: &[u8], salt: &[u8], rounds: u32, length: usize) -> (key: Vec<u8>)
    ensures
        key@ == pbkdf2_key(password@, salt@, rounds, length),
        key@.len() == length,
{
    let mut key = vec![0u8; length];
    pbkdf2::pbkdf2_hmac::<sha2::Sha256>(password, salt, rounds, &mut key);
    key
}

/// Seals a plain text with `aes_gcm::Aes256Gcm::encrypt`, under a key of 32
/// bytes and a nonce of 12 bytes.
///
/// Trusted: the result is what is named [`aes_gcm_sealed`].
#[verifier::external_body]
fn seal(key: &[u8], nonce: &[u8], plain: &[u8]) -> (out: Option<Vec<u8>>)
    requires
        key@.len() == 32,
        nonce@.len() == 12,
    ensures
        match out {
            Some(sealed) => aes_gcm_sealed(key@, nonce@, plain@) == Some(sealed@),
            None => aes_gcm_sealed(key@, nonce@, plain@) is None,
        },
{
    let cipher = <aes_gcm::Aes256Gcm as aes_gcm::KeyInit>::new(aes_gcm::Key::<aes_gcm::Aes256Gcm>::from_slice(key));
    aes_gcm::aead::Aead::encrypt(&cipher, aes_gcm::Nonce::from_slice(nonce), plain).ok()
}

/// Opens what was sealed with `aes_gcm::Aes256Gcm::decrypt`, under a key of
/// 32 bytes and a nonce of 12 bytes.
///
/// Trusted: the result is what is named [`aes_gcm_opened`].
#[verifier::external_body]
fn open(key: &[u8], nonce: &[u8], sealed: &[u8]) -> (out: Option<Vec<u8>>)
    requires
        key@.len() == 32,
        nonce@.len() == 12,
    ensures
        match out {
            Some(plain) => aes_gcm_opened(key@, nonce@, sealed@) == Some(plain@),
            None => aes_gcm_opened(key@, nonce@, sealed@) is None,
        },
{
    let cipher = <aes_gcm::Aes256Gcm as aes_gcm::KeyInit>::new(aes_gcm::Key::<aes_gcm::Aes256Gcm>::from_slice(key));
    aes_gcm::aead::Aead::decrypt(&cipher, aes_gcm::Nonce::from_slice(nonce), sealed).ok()
}

/// Encodes bytes with the standard engine of `base64`, `Engine::encode`.
///
/// Trusted: the result is the text named [`base64_text`].
#[verifier::external_body]
fn base64_encode(data: &[u8]) -> (text: String)
    ensures
        text@ == base64_text(data@),
{
    base64::Engine::encode(&base64::engine::general_purpose::STANDARD, data)
}

/// Decodes text with the standard engine of `base64`, `Engine::decode`.
///
/// Trusted: the result is what is named [`base64_bytes`].
#[verifier::external_body]
fn base64_decode(text: &[u8]) -> (out: Option<Vec<u8>>)
    ensures
        match out {
            Some(data) => base64_bytes(text@) == Some(data@),
            None => base64_bytes(text@) is None,
        },
{
    base64::Engine::decode(&base64::engine::general_purpose::STANDARD, text).ok()
}

/// Overwrites a buffer with zeros and empties it, with
/// `zeroize::Zeroize::zeroize`.
///
/// Trusted: the buffer is empty afterwards.
#[verifier::external_body]
fn wipe(buffer: &mut Vec<u8>)
    ensures
        final(buffer)@ == Seq::<u8>::empty(),
{
    zeroize::Zeroize::zeroize(buffer)
}

/// Reads bytes as text with `String::from_utf8`.
///
/// Trusted: the bytes are text exactly if they are UTF-8, and the text is
/// then the one that they encode.
#[verifier::external_body]
fn text_from_utf8(bytes: Vec<u8>) -> (out: Option<String>)
    ensures
        match out {
            Some(text) => valid_utf8(bytes@) && text@ == vstd::utf8::decode_utf8(bytes@),
            None => !valid_utf8(bytes@),
        },
{
    String::from_utf8(bytes).ok()
}

/// Trims a text with `str::trim`.
///
/// Trusted: the result is the text named [`trimmed`].
#[verifier::external_body]
fn trim<'a>(text: &'a str) -> (out: &'a str)
    ensures
        out@ == trimmed(text@),
{
    text.trim()
}

/// The content of a wallet file: the nonce, a colon, and what was sealed
/// under the nonce, both as they were encoded.
pub fn join_halves(nonce: &str, sealed: &str) -> (content: String)
    ensures
        content@ == nonce@ + ":"@ + sealed@,
{
    let mut content = nonce.to_owned();
    content.append(":");
    content.append(sealed);
    content
}

/// Parts the content of a wallet file at its colon. There are no halves if
/// the content holds no colon, or more than one.
pub fn split_halves(content: &[u8]) -> (parts: Option<(Vec<u8>, Vec<u8>)>)
    ensures
        match parts {
            Some((nonce, sealed)) => halves(content@) == Some((nonce@, sealed@)),
            None => halves(content@) is None,
        },
{
    let mut found: Option<usize> = None;
    let mut i: usize = 0;
    while i < content.len()
        invariant
            i <= content@.len(),
            match found {
                Some(at) => at < i && content@[at as int] == SEPARATOR && separators(
                    content@.take(i as int),
                ) == 1 && forall|k: int| 0 <= k < i && k != at ==> content@[k] != SEPARATOR,
                None => separators(content@.take(i as int)) == 0 && forall|k: int|
                    0 <= k < i ==> content@[k] != SEPARATOR,
            },
        decreases content@.len() - i,
    {
        assert(content@.take(i + 1).drop_last() =~= content@.take(i as int));
        if content[i] == SEPARATOR {
            if found.is_some() {
                proof {
                    lemma_separators_grow(content@, i + 1);
                }
                return None;
            }
            found = Some(i);
        }
        i += 1;
    }
    assert(content@.take(i as int) =~= content@);
    let at = match found {
        Some(at) => at,
        None => {
            return None;
        },
    };
    let mut nonce: Vec<u8> = Vec::new();
    let mut sealed: Vec<u8> = Vec::new();
    let mut j: usize = 0;
    while j < at
        invariant
            j <= at < content@.len(),
            nonce@ == content@.take(j as int),
        decreases at - j,
    {
        nonce.push(content[j]);
        j += 1;
    }
    let mut k: usize = at + 1;
    while k < content.len()
        invariant
            at < k <= content@.len(),
            sealed@ == content@.subrange(at + 1, k as int),
        decreases content@.len() - k,
    {
        sealed.push(content[k]);
        k += 1;
    }
    Some((nonce, sealed))
}

/// A longer part of the content holds no fewer separators.
proof fn lemma_separators_grow(content: Seq<u8>, n: int)
    requires
        0 <= n <= content.len(),
    ensures
        separators(content.take(n)) <= separators(content),
    decreases content.len() - n,
{
    if n < content.len() {
        lemma_separators_grow(content, n + 1);
        assert(content.take(n + 1).drop_last() =~= content.take(n));
    } else {
        assert(content.take(n) =~= content);
    }
}

/// Seals `plain` under `key` and `nonce` into the text of a file.
pub fn seal_file(key: &[u8], nonce: &[u8], plain: &[u8]) -> (content: Option<String>)
    ensures
        match content {
            Some(content) => sealed_file(key@, nonce@, plain@) == Some(content@),
            None => sealed_file(key@, nonce@, plain@) is None,
        },
{
    if nonce.len() != NONCE_LENGTH || key.len() != KEY_LENGTH {
        return None;
    }
    let sealed = match seal(key, nonce, plain) {
        Some(sealed) => sealed,
        None => {
            return None;
        },
    };
    let first = base64_encode(nonce);
    let second = base64_encode(sealed.as_slice());
    Some(join_halves(first.as_str(), second.as_str()))
}

/// What reading a sealed file comes to: the plain text, or the step at which
/// the reading ended.
#[derive(Debug)]
pub enum Reading {
    /// The content does not have two halves.
    NoHalves,
    /// The first half is not the base64 text of a nonce.
    NoNonce,
    /// The second half is not base64 text.
    NoCipherText,
    /// The key does not open what was sealed.
    Refused,
    /// The plain text.
    Plain(Vec<u8>),
}

impl View for Reading {
    type V = ReadingView;

    open spec fn view(&self) -> ReadingView {
        match self {
            Reading::NoHalves => ReadingView::NoHalves,
            Reading::NoNonce => ReadingView::NoNonce,
            Reading::NoCipherText => ReadingView::NoCipherText,
            Reading::Refused => ReadingView::Refused,
            Reading::Plain(plain) => ReadingView::Plain(plain@),
        }
    }
}

/// Reads the content of a sealed file with `key`.
pub fn open_file(key: &[u8], content: &[u8]) -> (reading: Reading)
    ensures
        reading@ == opened_file(key@, content@),
{
    let (first, second) = match split_halves(content) {
        Some(parts) => parts,
        None => {
            return Reading::NoHalves;
        },
    };
    let nonce = match base64_decode(first.as_slice()) {
        Some(nonce) => nonce,
        None => {
            return Reading::NoNonce;
        },
    };
    let sealed = match base64_decode(second.as_slice()) {
        Some(sealed) => sealed,
        None => {
            return Reading::NoCipherText;
        },
    };
    if nonce.len() != NONCE_LENGTH {
        return Reading::NoNonce;
    }
    if key.len() != KEY_LENGTH {
        return Reading::Refused;
    }
    match open(key, nonce.as_slice(), sealed.as_slice()) {
        Some(plain) => Reading::Plain(plain),
        None => Reading::Refused,
    }
}

impl Wallet {
    /// The content of the wallet file of `name`: the wallet, sealed with
    /// `password` under a nonce drawn from the operating system. There is no
    /// content if the draw or the sealing fails.
    pub fn encrypt(&self, name: &str, password: &str) -> (content: Option<String>)
        ensures
            content is Some ==> exists|nonce: Seq<u8>|
                #[trigger] sealed_file(
                    file_key(name@, password@),
                    nonce,
                    encode_utf8(json_text(json_of_wallet(self@))),
                ) == Some(content.unwrap()@),
    {
        let nonce = match random_bytes(NONCE_LENGTH) {
            Some(nonce) => nonce,
            None => {
                return None;
            },
        };
        let content = self.encrypt_with(name, password, nonce.as_slice());
        assert(content is Some ==> sealed_file(
            file_key(name@, password@),
            nonce@,
            encode_utf8(json_text(json_of_wallet(self@))),
        ) == Some(content.unwrap()@));
        content
    }

    /// The content of the wallet file of `name`: the wallet, sealed with
    /// `password` under `nonce`.
    pub fn encrypt_with(&self, name: &str, password: &str, nonce: &[u8]) -> (content: Option<String>)
        ensures
            match content {
                Some(content) => sealed_file(
                    file_key(name@, password@),
                    nonce@,
                    encode_utf8(json_text(json_of_wallet(self@))),
                ) == Some(content@),
                None => sealed_file(
                    file_key(name@, password@),
                    nonce@,
                    encode_utf8(json_text(json_of_wallet(self@))),
                ) is None,
            },
    {
        let json = self.to_json();
        let mut key = stretch_key(password.as_bytes(), name.as_bytes(), KEY_ROUNDS, KEY_LENGTH);
        let content = seal_file(key.as_slice(), nonce, json.as_str().as_bytes());
        wipe(&mut key);
        content
    }

    /// The wallet that the content of the wallet file of `name` holds for
    /// who knows `password`.
    pub fn decrypt(content: &str, name: &str, password: &str) -> (wallet: Option<Wallet>)
        ensures
            match wallet {
                Some(wallet) => decrypted(content@, name@, password@) == Some(wallet@),
                None => decrypted(content@, name@, password@) is None,
            },
    {
        let mut key = stretch_key(password.as_bytes(), name.as_bytes(), KEY_ROUNDS, KEY_LENGTH);
        let reading = open_file(key.as_slice(), content.as_bytes());
        wipe(&mut key);
        let plain = match reading {
            Reading::Plain(plain) => plain,
            _ => {
                return None;
            },
        };
        match text_from_utf8(plain) {
            Some(text) => Wallet::from_json(text.as_str()),
            None => None,
        }
    }

    /// The content of a backup file: the private key, sealed with `senha`
    /// under a nonce drawn from the operating system. There is no content if
    /// the draw or the sealing fails.
    pub fn export_private_key(&self, senha: &str) -> (content: Option<String>)
        ensures
            content is Some ==> exists|nonce: Seq<u8>|
                #[trigger] sealed_file(backup_key(senha@), nonce, encode_utf8(self@.private_key))
                    == Some(content.unwrap()@),
    {
        let nonce = match random_bytes(NONCE_LENGTH) {
            Some(nonce) => nonce,
            None => {
                return None;
            },
        };
        let content = self.export_private_key_with(senha, nonce.as_slice());
        assert(content is Some ==> sealed_file(
            backup_key(senha@),
            nonce@,
            encode_utf8(self@.private_key),
        ) == Some(content.unwrap()@));
        content
    }

    /// The content of a backup file: the private key, sealed with `senha`
    /// under `nonce`.
    pub fn export_private_key_with(&self, senha: &str, nonce: &[u8]) -> (content: Option<String>)
        ensures
            match content {
                Some(content) => sealed_file(
                    backup_key(senha@),
                    nonce@,
                    encode_utf8(self@.private_key),
                ) == Some(content@),
                None => sealed_file(backup_key(senha@), nonce@, encode_utf8(self@.private_key))
                    is None,
            },
    {
        let key = sha256_digest(senha.as_bytes());
        seal_file(key.as_slice(), nonce, self.private_key.as_str().as_bytes())
    }

    /// The wallet of the private key that the content of a backup file holds
    /// for who knows `senha`.
    pub fn import_private_key(senha: &str, conteudo: &str) -> (wallet: Result<Wallet, ImportError>)
        ensures
            match wallet {
                Ok(wallet) => imported(senha@, conteudo@) == Ok::<WalletView, ImportErrorView>(
                    wallet@,
                ),
                Err(error) => imported(senha@, conteudo@) == Err::<WalletView, ImportErrorView>(
                    error@,
                ),
            },
    {
        let key = sha256_digest(senha.as_bytes());
        let plain = match open_file(key.as_slice(), trim(conteudo).as_bytes()) {
            Reading::NoHalves => {
                return Err(ImportError::Format);
            },
            Reading::NoNonce => {
                return Err(ImportError::Nonce);
            },
            Reading::NoCipherText => {
                return Err(ImportError::CipherText);
            },
            Reading::Refused => {
                return Err(ImportError::Refused);
            },
            Reading::Plain(plain) => plain,
        };
        let chave_privada = match text_from_utf8(plain) {
            Some(text) => text,
            None => {
                return Err(ImportError::Text);
            },
        };
        match Wallet::from_private_key(chave_privada.as_str()) {
            Ok(wallet) => Ok(wallet),
            Err(message) => Err(ImportError::Key(message)),
        }
    }
}

} // verus!
