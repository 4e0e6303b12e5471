//! Nodes of the network and the messages they exchange.

use crate::block::Block;
use crate::block::BlockView;
use crate::blockchain::blocks_view;
use crate::blockchain::Blockchain;
use crate::crypto::PublicKey;
use vstd::prelude::*;

verus! {

/// A node that may sign blocks: an entry of the authority registry.
#[derive(Debug)]
pub struct Node {
    /// The identifier by which blocks name their signer.
    pub id: String,
    /// Whether the node may produce blocks.
    pub is_authority: bool,
    /// The key that the node's signatures are verified with.
    pub public_key: PublicKey,
}

/// A node as a mathematical value; the key is its compressed serialisation.
pub struct NodeView {
    pub id: Seq<char>,
    pub is_authority: bool,
    pub public_key: Seq<u8>,
}

impl View for Node {
    type V = NodeView;

    open spec fn view(&self) -> NodeView {
        NodeView { id: self.id@, is_authority: self.is_authority, public_key: self.public_key@ }
    }
}

impl Clone for Node {
    fn clone(&self) -> (copy: Self)
        ensures
            copy@ == self@,
    {
        Node {
            id: self.id.clone(),
            is_authority: self.is_authority,
            public_key: self.public_key.clone(),
        }
    }
}

impl PartialEq for Node {
    fn eq(&self, other: &Self) -> (same: bool) {
        self.id == other.id && self.is_authority == other.is_authority && self.public_key
            == other.public_key
    }
}

impl vstd::std_specs::cmp::PartialEqSpecImpl for Node {
    open spec fn obeys_eq_spec() -> bool {
        true
    }

    open spec fn eq_spec(&self, other: &Self) -> bool {
        self@ == other@
    }
}

/// What one node sends another over a peer connection.
#[derive(Debug)]
pub enum Message {
    /// Asks the peer for its blocks.
    RequestBlockchain,
    /// Carries the sender's blocks.
    BlockchainBlocks(Vec<Block>),
}

/// The blocks that a message carries; none for a request.
pub open spec fn carried_blocks(message: Message) -> Seq<BlockView> {
    match message {
        Message::RequestBlockchain => Seq::empty(),
        Message::BlockchainBlocks(blocks) => blocks_view(blocks@),
    }
}

/// Whether a message carries more blocks than `blocks` are.
pub open spec fn is_longer(message: Message, blocks: Seq<BlockView>) -> bool {
    message is BlockchainBlocks && carried_blocks(message).len() > blocks.len()
}

impl Message {
    /// The reply that a node with the ledger `chain` owes to this message:
    /// its blocks to a request, nothing to anything else.
    pub fn reply(&self, chain: &Blockchain) -> (answer: Option<Message>)
        ensures
            *self is RequestBlockchain <==> answer is Some,
            answer matches Some(m) ==> m is BlockchainBlocks && carried_blocks(m)
                == chain@.blocks,
    {
        match self {
            Message::RequestBlockchain => Some(Message::BlockchainBlocks(chain.copy_blocks())),
            Message::BlockchainBlocks(_) => None,
        }
    }

    /// Takes a peer's answer into `chain`: where the message carries more
    /// blocks than the chain holds, they replace the chain's blocks. Returns
    /// whether they did.
    pub fn apply(self, chain: &mut Blockchain) -> (replaced: bool)
        ensures
            replaced == is_longer(self, old(chain)@.blocks),
            final(chain)@.blocks == (if replaced {
                carried_blocks(self)
            } else {
                old(chain)@.blocks
            }),
            final(chain)@.authorities == old(chain)@.authorities,
    {
        match self {
            Message::RequestBlockchain => false,
            Message::BlockchainBlocks(blocks) => {
                if blocks.len() > chain.blocks.len() {
                    chain.blocks = blocks;
                    true
                } else {
                    false
                }
            },
        }
    }
}

} // verus!
