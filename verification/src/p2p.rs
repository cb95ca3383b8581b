//! Peers, and the messages that are exchanged with them.
//!
//! A message is the text `BLOCK:` followed by the JSON form of a block, or
//! the text `TRANSACTION:` followed by the JSON form of a transaction.

use vstd::prelude::*;
use vstd::string::{StrSliceExecFns, StringExecFns};
use crate::block::{Block, BlockView};
use crate::codec::{
    decode_block, decode_transaction, encode_transaction, json_of_transaction, parse_block,
    parse_transaction,
};
use crate::json::json_text;
use crate::text::same_text;
use crate::transaction::{Transaction, TransactionView};

verus! {

/// The peers that a node knows, in the order in which it came to know them.
/// No peer is listed twice.
pub struct P2PServer {
    peers: Vec<String>,
}

/// What a node makes of a text that a peer sent.
pub enum Message {
    /// A transaction.
    Transaction(Transaction),
    /// A block.
    Block(Block),
    /// A text that announces a transaction or a block but holds neither.
    Rejected,
    /// A text that announces nothing that the node knows of.
    Unknown,
}

/// The mathematical content of a [`Message`].
pub enum MessageView {
    Transaction(TransactionView),
    Block(BlockView),
    Rejected,
    Unknown,
}

impl View for Message {
    type V = MessageView;

    open spec fn view(&self) -> MessageView {
        match self {
            Message::Transaction(tx) => MessageView::Transaction(tx@),
            Message::Block(block) => MessageView::Block(block@),
            Message::Rejected => MessageView::Rejected,
            Message::Unknown => MessageView::Unknown,
        }
    }
}

/// What stands before the JSON form of a block.
pub open spec fn block_prefix() -> Seq<char> {
    "BLOCK:"@
}

/// What stands before the JSON form of a transaction.
pub open spec fn transaction_prefix() -> Seq<char> {
    "TRANSACTION:"@
}

/// Whether a text begins with `prefix`.
pub open spec fn begins_with(text: Seq<char>, prefix: Seq<char>) -> bool {
    prefix.len() <= text.len() && text.take(prefix.len() as int) == prefix
}

/// What a node makes of a text: a transaction or a block where the text
/// announces one and holds its JSON form, a rejection where it announces one
/// and does not hold it.
pub open spec fn received(text: Seq<char>) -> MessageView {
    if begins_with(text, transaction_prefix()) {
        match parse_transaction(text.skip(transaction_prefix().len() as int)) {
            Some(tx) => MessageView::Transaction(tx),
            None => MessageView::Rejected,
        }
    } else if begins_with(text, block_prefix()) {
        match parse_block(text.skip(block_prefix().len() as int)) {
            Some(block) => MessageView::Block(block),
            None => MessageView::Rejected,
        }
    } else {
        MessageView::Unknown
    }
}

/// Whether no text occurs twice in a list.
pub open spec fn distinct(peers: Seq<Seq<char>>) -> bool {
    forall|i: int, j: int| 0 <= i < j < peers.len() ==> peers[i] != peers[j]
}

/// The message that carries a block, given the block's JSON form.
pub fn block_message(bloco_json: &str) -> (message: String)
    ensures
        message@ == block_prefix() + bloco_json@,
{
    let mut message = "BLOCK:".to_owned();
    message.append(bloco_json);
    message
}

/// The message that carries a transaction.
pub fn transaction_message(tx: &Transaction) -> (message: String)
    ensures
        message@ == transaction_prefix() + json_text(json_of_transaction(tx@)),
{
    let json = encode_transaction(tx);
    let mut message = "TRANSACTION:".to_owned();
    message.append(json.as_str());
    message
}

/// What follows `prefix` in `text`, if `text` begins with it.
pub fn after_prefix<'a>(text: &'a str, prefix: &str) -> (rest: Option<&'a str>)
    ensures
        match rest {
            Some(rest) => begins_with(text@, prefix@) && rest@ == text@.skip(prefix@.len() as int),
            None => !begins_with(text@, prefix@),
        },
{
    let prefix_length = prefix.unicode_len();
    let length = text.unicode_len();
    if length < prefix_length {
        return None;
    }
    let mut i: usize = 0;
    while i < prefix_length
        invariant
            i <= prefix_length <= length,
            prefix_length == prefix@.len(),
            length == text@.len(),
            forall|k: int| 0 <= k < i ==> text@[k] == prefix@[k],
        decreases prefix_length - i,
    {
        if text.get_char(i) != prefix.get_char(i) {
            return None;
        }
        i += 1;
    }
    assert(text@.take(prefix@.len() as int) =~= prefix@);
    let rest = text.substring_char(prefix_length, length);
    Some(rest)
}

/// Reads a message that a peer sent.
pub fn read_message(text: &str) -> (message: Message)
    ensures
        message@ == received(text@),
{
    match after_prefix(text, "TRANSACTION:") {
        Some(json) => {
            return match decode_transaction(json) {
                Some(tx) => Message::Transaction(tx),
                None => Message::Rejected,
            };
        },
        None => {},
    }
    match after_prefix(text, "BLOCK:") {
        Some(json) => match decode_block(json) {
            Some(block) => Message::Block(block),
            None => Message::Rejected,
        },
        None => Message::Unknown,
    }
}

impl View for P2PServer {
    type V = Seq<Seq<char>>;

    closed spec fn view(&self) -> Seq<Seq<char>> {
        self.peers.deep_view()
    }
}

impl P2PServer {
    #[verifier::type_invariant]
    spec fn well_formed(self) -> bool {
        distinct(self.peers.deep_view())
    }

    /// A node that knows no peer.
    pub fn new() -> (server: P2PServer)
        ensures
            server@ == Seq::<Seq<char>>::empty(),
    {
        let server = P2PServer { peers: Vec::new() };
        server
    }

    /// The peers, in the order in which the node came to know them. No peer
    /// is listed twice.
    pub fn get_peers(&self) -> (peers: Vec<String>)
        ensures
            peers.deep_view() == self@,
            distinct(self@),
    {
        proof {
            use_type_invariant(self);
        }
        let peers = self.peers.clone();
        peers
    }

    /// Whether the node knows the peer at `endereco`.
    pub fn knows(&self, endereco: &str) -> (known: bool)
        ensures
            known == self@.contains(endereco@),
    {
        let mut i: usize = 0;
        while i < self.peers.len()
            invariant
                i <= self.peers@.len(),
                forall|k: int| 0 <= k < i ==> self@[k] != endereco@,
            decreases self.peers@.len() - i,
        {
            if same_text(self.peers[i].as_str(), endereco) {
                assert(self@[i as int] == endereco@);
                return true;
            }
            i += 1;
        }
        false
    }

    /// Takes note of the peer at `endereco` and says whether it is new.
    pub fn conectar_a_peer(&mut self, endereco: &str) -> (added: bool)
        ensures
            added == !old(self)@.contains(endereco@),
            final(self)@ == if added {
                old(self)@.push(endereco@)
            } else {
                old(self)@
            },
    {
        proof {
            use_type_invariant(&*self);
        }
        if self.knows(endereco) {
            return false;
        }
        let ghost before = self.peers.deep_view();
        let mut peers = self.peers.clone();
        peers.push(endereco.to_owned());
        proof {
            assert(peers.deep_view() =~= before.push(endereco@));
            assert forall|i: int, j: int| 0 <= i < j < peers.deep_view().len() implies peers.deep_view()[i]
                != peers.deep_view()[j] by {
                if j == before.len() {
                    assert(before[i] == peers.deep_view()[i]);
                    assert(before.contains(before[i]));
                }
            }
        }
        *self = P2PServer { peers };
        true
    }

    /// Calls `f` on each peer, in the order in which the node came to know
    /// them: what `f` ensures of a call then holds of every peer.
    pub fn iter_peers<F>(&self, f: F) where F: Fn(&String)
        requires
            forall|peer: &String| #[trigger] f.requires((peer,)),
        ensures
            forall|i: int| 0 <= i < self@.len() ==> visited(f, #[trigger] self@[i]),
    {
        let mut i: usize = 0;
        while i < self.peers.len()
            invariant
                i <= self.peers@.len(),
                forall|peer: &String| #[trigger] f.requires((peer,)),
                forall|k: int| 0 <= k < i ==> visited(f, #[trigger] self@[k]),
            decreases self.peers@.len() - i,
        {
            f(&self.peers[i]);
            i += 1;
        }
    }
}

/// Whether what `f` ensures of a call holds of a peer.
pub open spec fn visited<F: Fn(&String)>(f: F, peer: Seq<char>) -> bool {
    exists|called: &String| called@ == peer && #[trigger] f.ensures((called,), ())
}

} // verus!
