//! A minimal proof-of-work ledger: blocks, transactions, the unspent-output
//! index and the rules that tie them together, with machine-checked contracts.
//!
//! - [`transaction`]: inputs, outputs, transaction ids, and the check that an
//!   input is entitled to the output it spends.
//! - [`utxo`]: the index of unspent outputs and how a chain fills and drains
//!   it.
//! - [`block`]: blocks, their hash and the search for a proof of work.
//! - [`blockchain`]: the chain, its validity, the reward schedule, the
//!   reclaiming of dormant outputs and the retargeting of the difficulty.
//! - [`wallet`] and [`vault`]: key pairs, payments, and wallets at rest.
//! - [`codec`] and [`p2p`]: the JSON forms of what is stored and sent, and
//!   the messages exchanged with peers.
//! - [`address`], [`digest`], [`keys`], [`json`], [`text`] and [`clock`]:
//!   what the above are built from. The digests, the curve arithmetic, the
//!   ciphers and the JSON reader belong to other crates; each call into them
//!   is a function of its own here, with a contract that is trusted and not
//!   proved.

pub mod address;
pub mod block;
pub mod blockchain;
pub mod clock;
pub mod codec;
pub mod digest;
pub mod json;
pub mod keys;
pub mod p2p;
pub mod text;
pub mod transaction;
pub mod utxo;
pub mod vault;
pub mod wallet;
