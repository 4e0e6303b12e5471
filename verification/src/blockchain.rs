//! The ledger: the chain of blocks and the registry of authorities, with the
//! rules by which blocks are appended, validated and merged.

use crate::block::current_time_millis;
use crate::block::hash_of;
use crate::block::signature_of;
use crate::block::unsigned_block;
use crate::block::Block;
use crate::block::BlockView;
use crate::crypto::ecdsa_verifies;
use crate::crypto::public_key_of;
use crate::crypto::PublicKey;
use crate::crypto::SecretKey;
use crate::encoding::hex_bytes;
use crate::encoding::hex_decode;
use crate::encoding::lemma_hex_round_trip;
use crate::encoding::str_equal;
use crate::node::Node;
use crate::node::NodeView;
use vstd::prelude::*;
use vstd::utf8::encode_utf8;

verus! {

/// The blocks of a vector as mathematical values.
pub open spec fn blocks_view(blocks: Seq<Block>) -> Seq<BlockView> {
    blocks.map_values(|block: Block| block@)
}

/// The nodes of a vector as mathematical values.
pub open spec fn nodes_view(nodes: Seq<Node>) -> Seq<NodeView> {
    nodes.map_values(|node: Node| node@)
}

/// Whether some entry of the registry has the identifier `id` and is marked
/// as an authority.
pub open spec fn is_authority_in(authorities: Seq<NodeView>, id: Seq<char>) -> bool {
    exists|i: int|
        0 <= i < authorities.len() && (#[trigger] authorities[i]).id == id
            && authorities[i].is_authority
}

/// Whether entry `i` is the first of the registry with the identifier `id`.
pub open spec fn first_with_id(authorities: Seq<NodeView>, id: Seq<char>, i: int) -> bool {
    &&& 0 <= i < authorities.len()
    &&& authorities[i].id == id
    &&& forall|j: int| 0 <= j < i ==> (#[trigger] authorities[j]).id != id
}

/// The entry that signatures of `id` are checked against: the first of the
/// registry with that identifier, whether or not it is marked as an
/// authority.
pub open spec fn authority_named(authorities: Seq<NodeView>, id: Seq<char>) -> Option<NodeView> {
    if exists|i: int| first_with_id(authorities, id, i) {
        Some(authorities[choose|i: int| first_with_id(authorities, id, i)])
    } else {
        None
    }
}

/// Whether a block's signature is accepted: the registry has an entry for
/// the signer, the stored signature and the stored hash are hexadecimal
/// text, and the signature is valid for the hash's bytes under the entry's
/// key.
pub open spec fn signature_accepted(authorities: Seq<NodeView>, block: BlockView) -> bool {
    match authority_named(authorities, block.node_id) {
        None => false,
        Some(authority) => match (
            hex_bytes(encode_utf8(block.signature)),
            hex_bytes(encode_utf8(block.hash)),
        ) {
            (Some(signature), Some(digest)) => ecdsa_verifies(
                digest,
                signature,
                authority.public_key,
            ),
            _ => false,
        },
    }
}

/// Whether block `i` of a chain passes validation, for `i >= 1`: its stored
/// hash belongs to its contents, it names the hash of the block before it,
/// and its signature is accepted.
pub open spec fn block_accepted(
    blocks: Seq<BlockView>,
    authorities: Seq<NodeView>,
    i: int,
) -> bool {
    &&& blocks[i].hash == hash_of(blocks[i])
    &&& blocks[i].previous_hash == blocks[i - 1].hash
    &&& signature_accepted(authorities, blocks[i])
}

/// Whether a chain is valid: every block but the first passes validation.
/// The first block, the genesis block, is not checked.
pub open spec fn chain_valid(blocks: Seq<BlockView>, authorities: Seq<NodeView>) -> bool {
    forall|i: int| 1 <= i < blocks.len() ==> #[trigger] block_accepted(blocks, authorities, i)
}

/// Whether the secret key `secret` belongs to the key that signatures of
/// `id` are checked against.
pub open spec fn signs_for(authorities: Seq<NodeView>, id: Seq<char>, secret: Seq<u8>) -> bool {
    authority_named(authorities, id) matches Some(authority) && authority.public_key
        == public_key_of(secret)
}

/// The block that is appended to a chain that ends with `tail`.
pub open spec fn next_block(
    tail: BlockView,
    timestamp: nat,
    data: Seq<char>,
    node_id: Seq<char>,
    secret: Seq<u8>,
) -> BlockView {
    let unsigned = unsigned_block(tail.index + 1, timestamp, tail.hash, data, node_id);
    BlockView { signature: signature_of(unsigned, secret), ..unsigned }
}

/// Whether `node_id` may append to the ledger: it is a current authority.
pub open spec fn can_append(ledger: LedgerView, node_id: Seq<char>) -> bool {
    is_authority_in(ledger.authorities, node_id)
}

/// Whether the chain has a tail to append to, and the tail's index is not
/// the largest that there is.
pub open spec fn has_room(chain: Blockchain) -> bool {
    chain.blocks.len() > 0 && chain.blocks[chain.blocks.len() - 1].index < u64::MAX
}

/// What an attempt to append does, for a block stamped with `timestamp`.
/// A current authority succeeds: the block that follows the tail is
/// appended and returned. Anyone else fails with `NotAuthority`, and the
/// ledger stays as it is. The registry does not change.
pub open spec fn append_outcome(
    before: LedgerView,
    after: LedgerView,
    result: Result<Block, LedgerError>,
    data: Seq<char>,
    node_id: Seq<char>,
    secret: Seq<u8>,
    timestamp: nat,
) -> bool {
    &&& after.authorities == before.authorities
    &&& match result {
        Ok(block) => {
            &&& can_append(before, node_id)
            &&& block@ == next_block(before.blocks.last(), timestamp, data, node_id, secret)
            &&& after.blocks == before.blocks.push(block@)
        },
        Err(error) => {
            &&& !can_append(before, node_id)
            &&& error == LedgerError::NotAuthority
            &&& after.blocks == before.blocks
        },
    }
}

/// The registry in which `node_id` is an authority: the registry as it is
/// where it is one, else with a new entry for it with `public_key`.
pub open spec fn with_authority(
    authorities: Seq<NodeView>,
    node_id: Seq<char>,
    public_key: Seq<u8>,
) -> Seq<NodeView> {
    if is_authority_in(authorities, node_id) {
        authorities
    } else {
        authorities.push(NodeView { id: node_id, is_authority: true, public_key })
    }
}

/// The genesis block made at `timestamp`.
pub open spec fn genesis_block(timestamp: nat) -> BlockView {
    unsigned_block(0, timestamp, "0"@, "Genesis Block"@, "genesis"@)
}

/// `local` followed by the items of `peer` that it lacks, each once, in the
/// order in which `peer` holds them.
pub open spec fn union_in_order<T>(local: Seq<T>, peer: Seq<T>) -> Seq<T>
    decreases peer.len(),
{
    if peer.len() == 0 {
        local
    } else {
        let merged = union_in_order(local, peer.drop_last());
        if merged.contains(peer.last()) {
            merged
        } else {
            merged.push(peer.last())
        }
    }
}

/// At most one entry is the first with a given identifier.
pub proof fn lemma_first_with_id_unique(
    authorities: Seq<NodeView>,
    id: Seq<char>,
    i: int,
    j: int,
)
    requires
        first_with_id(authorities, id, i),
        first_with_id(authorities, id, j),
    ensures
        i == j,
{
    if i < j {
        assert(authorities[i].id != id);
    } else if j < i {
        assert(authorities[j].id != id);
    }
}

/// The entry that signatures of `id` are checked against is the first with
/// that identifier.
pub proof fn lemma_authority_named(authorities: Seq<NodeView>, id: Seq<char>, i: int)
    requires
        first_with_id(authorities, id, i),
    ensures
        authority_named(authorities, id) == Some(authorities[i]),
{
    let chosen = choose|k: int| first_with_id(authorities, id, k);
    lemma_first_with_id_unique(authorities, id, i, chosen);
}

/// A new entry at the end of the registry changes no entry that signatures
/// were checked against before.
pub proof fn lemma_registration_keeps_named(
    authorities: Seq<NodeView>,
    node: NodeView,
    id: Seq<char>,
)
    requires
        authority_named(authorities, id) is Some,
    ensures
        authority_named(authorities.push(node), id) == authority_named(authorities, id),
{
    let i = choose|k: int| first_with_id(authorities, id, k);
    let extended = authorities.push(node);
    assert forall|j: int| 0 <= j < i implies (#[trigger] extended[j]).id != id by {
        assert(authorities[j].id != id);
    }
    assert(first_with_id(extended, id, i));
    lemma_authority_named(extended, id, i);
}

/// Registering a node keeps a valid chain valid.
pub proof fn lemma_registration_keeps_valid(
    blocks: Seq<BlockView>,
    authorities: Seq<NodeView>,
    node: NodeView,
)
    requires
        chain_valid(blocks, authorities),
    ensures
        chain_valid(blocks, authorities.push(node)),
{
    assert forall|i: int| 1 <= i < blocks.len() implies #[trigger] block_accepted(
        blocks,
        authorities.push(node),
        i,
    ) by {
        assert(block_accepted(blocks, authorities, i));
        lemma_registration_keeps_named(authorities, node, blocks[i].node_id);
    }
}

/// Making a node an authority makes it one, and a second time changes
/// nothing.
pub proof fn lemma_with_authority_once(
    authorities: Seq<NodeView>,
    node_id: Seq<char>,
    public_key: Seq<u8>,
    other_key: Seq<u8>,
)
    ensures
        is_authority_in(with_authority(authorities, node_id, public_key), node_id),
        with_authority(with_authority(authorities, node_id, public_key), node_id, other_key)
            == with_authority(authorities, node_id, public_key),
{
    let registered = with_authority(authorities, node_id, public_key);
    if !is_authority_in(authorities, node_id) {
        assert(registered[authorities.len() as int].id == node_id);
    }
}

/// A block that passes validation behind the tail of a valid chain gives a
/// valid chain.
pub proof fn lemma_accepted_block_extends(
    blocks: Seq<BlockView>,
    authorities: Seq<NodeView>,
    block: BlockView,
)
    requires
        blocks.len() >= 1,
        chain_valid(blocks, authorities),
        block.hash == hash_of(block),
        block.previous_hash == blocks.last().hash,
        signature_accepted(authorities, block),
    ensures
        chain_valid(blocks.push(block), authorities),
{
    let longer = blocks.push(block);
    assert forall|i: int| 1 <= i < longer.len() implies #[trigger] block_accepted(
        longer,
        authorities,
        i,
    ) by {
        if i < blocks.len() {
            assert(block_accepted(blocks, authorities, i));
        }
    }
}

/// The genesis block is never checked: a chain stays as valid as it was
/// when its first block is replaced by any block with the same stored hash,
/// and a chain of one block is valid whatever that block holds.
pub proof fn lemma_genesis_is_not_checked(
    blocks: Seq<BlockView>,
    authorities: Seq<NodeView>,
    other: BlockView,
)
    requires
        blocks.len() >= 1,
        other.hash == blocks[0].hash,
    ensures
        chain_valid(blocks.update(0, other), authorities) == chain_valid(blocks, authorities),
        chain_valid(seq![other], authorities),
{
    let replaced = blocks.update(0, other);
    if chain_valid(blocks, authorities) {
        assert forall|i: int| 1 <= i < replaced.len() implies #[trigger] block_accepted(
            replaced,
            authorities,
            i,
        ) by {
            assert(block_accepted(blocks, authorities, i));
        }
    }
    if chain_valid(replaced, authorities) {
        assert forall|i: int| 1 <= i < blocks.len() implies #[trigger] block_accepted(
            blocks,
            authorities,
            i,
        ) by {
            assert(block_accepted(replaced, authorities, i));
        }
    }
}

/// A block whose stored hash does not belong to its contents makes the
/// chain invalid, wherever it stands after the genesis block. So a change
/// of a block's payload that changes the digest of its contents, with the
/// stored hash left as it was, is found out.
pub proof fn lemma_tampering_is_found(
    blocks: Seq<BlockView>,
    authorities: Seq<NodeView>,
    i: int,
    data: Seq<char>,
)
    requires
        1 <= i < blocks.len(),
        blocks[i].hash == hash_of(blocks[i]),
        crate::block::digest_of(BlockView { data, ..blocks[i] }) != crate::block::digest_of(
            blocks[i],
        ),
    ensures
        !chain_valid(blocks.update(i, BlockView { data, ..blocks[i] }), authorities),
{
    let changed = BlockView { data, ..blocks[i] };
    let tampered = blocks.update(i, changed);
    if hash_of(changed) == hash_of(blocks[i]) {
        crate::encoding::lemma_hex_text_injective(
            crate::block::digest_of(changed),
            crate::block::digest_of(blocks[i]),
        );
    }
    assert(tampered[i].hash != hash_of(tampered[i]));
    assert(!block_accepted(tampered, authorities, i));
}

/// The merged sequence starts with the local one, and holds every item of
/// both.
pub proof fn lemma_union_holds_both<T>(local: Seq<T>, peer: Seq<T>)
    ensures
        local.len() <= union_in_order(local, peer).len(),
        union_in_order(local, peer).take(local.len() as int) == local,
        forall|x: T| local.contains(x) ==> union_in_order(local, peer).contains(x),
        forall|x: T| peer.contains(x) ==> union_in_order(local, peer).contains(x),
        forall|x: T|
            union_in_order(local, peer).contains(x) ==> local.contains(x) || peer.contains(x),
    decreases peer.len(),
{
    let merged = union_in_order(local, peer);
    if peer.len() == 0 {
        assert(merged.take(local.len() as int) =~= local);
    } else {
        let before = union_in_order(local, peer.drop_last());
        lemma_union_holds_both(local, peer.drop_last());
        assert(merged.take(local.len() as int) =~= before.take(local.len() as int));
        assert forall|x: T| before.contains(x) implies merged.contains(x) by {
            let k = choose|k: int| 0 <= k < before.len() && before[k] == x;
            assert(merged[k] == x);
        }
        assert(merged.contains(peer.last())) by {
            if !before.contains(peer.last()) {
                assert(merged[merged.len() - 1] == peer.last());
            }
        }
        assert forall|x: T| peer.contains(x) implies merged.contains(x) by {
            let k = choose|k: int| 0 <= k < peer.len() && peer[k] == x;
            if k < peer.len() - 1 {
                assert(peer.drop_last()[k] == x);
                assert(peer.drop_last().contains(x));
                assert(before.contains(x));
            } else {
                assert(x == peer.last());
            }
        }
        assert forall|x: T| merged.contains(x) implies local.contains(x) || peer.contains(x) by {
            let k = choose|k: int| 0 <= k < merged.len() && merged[k] == x;
            if k < before.len() {
                assert(before[k] == x);
                if peer.drop_last().contains(x) {
                    let m = choose|m: int| 0 <= m < peer.drop_last().len() && peer.drop_last()[m]
                        == x;
                    assert(peer[m] == x);
                }
            } else {
                assert(peer[peer.len() - 1] == x);
            }
        }
    }
}

/// Merging a peer whose items the local sequence already holds changes
/// nothing.
pub proof fn lemma_union_of_known<T>(local: Seq<T>, peer: Seq<T>)
    requires
        forall|x: T| peer.contains(x) ==> local.contains(x),
    ensures
        union_in_order(local, peer) == local,
    decreases peer.len(),
{
    if peer.len() > 0 {
        assert forall|x: T| peer.drop_last().contains(x) implies local.contains(x) by {
            let k = choose|k: int| 0 <= k < peer.drop_last().len() && peer.drop_last()[k] == x;
            assert(peer[k] == x);
        }
        lemma_union_of_known(local, peer.drop_last());
        assert(peer[peer.len() - 1] == peer.last());
        assert(peer.contains(peer.last()));
    }
}

/// Merging is idempotent: merging the same peer a second time changes
/// nothing.
pub proof fn lemma_merge_idempotent<T>(local: Seq<T>, peer: Seq<T>)
    ensures
        union_in_order(union_in_order(local, peer), peer) == union_in_order(local, peer),
{
    lemma_union_holds_both(local, peer);
    lemma_union_of_known(union_in_order(local, peer), peer);
}

/// Why the ledger refused an operation.
#[derive(Clone, Copy, Debug, PartialEq, Eq, Structural)]
pub enum LedgerError {
    /// The signer is not a current authority.
    NotAuthority,
}

impl LedgerError {
    /// A description of the error.
    pub fn message(&self) -> (text: String)
        ensures
            text@ == "Node is not an authority"@,
    {
        "Node is not an authority".to_owned()
    }
}

/// What a lookup in the durable store gave.
#[derive(Debug)]
pub enum Stored<T> {
    /// The store holds the value.
    Found(T),
    /// The store holds nothing under the key.
    Missing,
    /// The store could not be read.
    Unreadable,
}

/// The ledger.
#[derive(Debug)]
pub struct Blockchain {
    /// The chain; its first block is the genesis block.
    pub blocks: Vec<Block>,
    /// The registry of authorities, in the order of registration.
    pub authorities: Vec<Node>,
}

/// A ledger as a mathematical value.
pub struct LedgerView {
    pub blocks: Seq<BlockView>,
    pub authorities: Seq<NodeView>,
}

impl View for Blockchain {
    type V = LedgerView;

    open spec fn view(&self) -> LedgerView {
        LedgerView {
            blocks: blocks_view(self.blocks@),
            authorities: nodes_view(self.authorities@),
        }
    }
}

impl Clone for Blockchain {
    fn clone(&self) -> (copy: Self)
        ensures
            copy@ == self@,
    {
        let blocks = self.copy_blocks();
        let mut authorities: Vec<Node> = Vec::new();
        let mut i: usize = 0;
        while i < self.authorities.len()
            invariant
                i <= self.authorities.len(),
                nodes_view(authorities@) == self@.authorities.take(i as int),
            decreases self.authorities.len() - i,
        {
            let ghost copied = nodes_view(authorities@);
            let node = self.authorities[i].clone();
            authorities.push(node);
            i = i + 1;
            assert(nodes_view(authorities@) =~= copied.push(self@.authorities[i - 1]));
            assert(self@.authorities.take(i as int) =~= self@.authorities.take(i - 1).push(
                self@.authorities[i - 1],
            ));
        }
        assert(self@.authorities.take(i as int) =~= self@.authorities);
        Blockchain { blocks, authorities }
    }
}

/// The key under which the registry of authorities is stored.
pub fn authorities_key() -> (key: String)
    ensures
        key@ == "authorities"@,
{
    "authorities".to_owned()
}

/// Whether `blocks` hold a block that is equal to `block` in every field.
fn contains_block(blocks: &Vec<Block>, block: &Block) -> (found: bool)
    ensures
        found == blocks_view(blocks@).contains(block@),
{
    let mut i: usize = 0;
    while i < blocks.len()
        invariant
            i <= blocks.len(),
            forall|k: int| 0 <= k < i ==> blocks_view(blocks@)[k] != block@,
        decreases blocks.len() - i,
    {
        if blocks[i] == *block {
            assert(blocks_view(blocks@)[i as int] == block@);
            return true;
        }
        i = i + 1;
    }
    false
}

/// Whether `nodes` hold a node that is equal to `node` in every field.
fn contains_node(nodes: &Vec<Node>, node: &Node) -> (found: bool)
    ensures
        found == nodes_view(nodes@).contains(node@),
{
    let mut i: usize = 0;
    while i < nodes.len()
        invariant
            i <= nodes.len(),
            forall|k: int| 0 <= k < i ==> nodes_view(nodes@)[k] != node@,
        decreases nodes.len() - i,
    {
        if nodes[i] == *node {
            assert(nodes_view(nodes@)[i as int] == node@);
            return true;
        }
        i = i + 1;
    }
    false
}

/// Whether some entry of `authorities` has the identifier `node_id` and is
/// marked as an authority.
pub(crate) fn registry_has_authority(authorities: &Vec<Node>, node_id: &str) -> (found: bool)
    ensures
        found == is_authority_in(nodes_view(authorities@), node_id@),
{
    let mut i: usize = 0;
    while i < authorities.len()
        invariant
            i <= authorities.len(),
            forall|k: int|
                0 <= k < i ==> !((#[trigger] nodes_view(authorities@)[k]).id == node_id@
                    && nodes_view(authorities@)[k].is_authority),
        decreases authorities.len() - i,
    {
        if authorities[i].is_authority && str_equal(authorities[i].id.as_str(), node_id) {
            assert(nodes_view(authorities@)[i as int].id == node_id@);
            return true;
        }
        i = i + 1;
    }
    false
}

impl Blockchain {
    /// A ledger with no blocks and no authorities.
    pub fn new_empty() -> (chain: Blockchain)
        ensures
            chain@.blocks.len() == 0,
            chain@.authorities.len() == 0,
            chain_valid(chain@.blocks, chain@.authorities),
    {
        Blockchain { blocks: Vec::new(), authorities: Vec::new() }
    }

    /// The ledger that a node starts with, from what its durable store gave
    /// for the genesis block and for the registry. A stored genesis block
    /// is taken as it is; where the store holds none, a new one is made,
    /// and the second result says that it has to be stored. Where the store
    /// could not be read, the chain or the registry stays empty.
    pub fn new(genesis: Stored<Block>, authorities: Stored<Vec<Node>>) -> (started: (
        Blockchain,
        bool,
    ))
        ensures
            started.1 == (genesis is Missing),
            (match genesis {
                Stored::Found(block) => started.0@.blocks == seq![block@],
                Stored::Missing => started.0.blocks.len() == 1 && started.0@.blocks == seq![
                    genesis_block(started.0.blocks[0].timestamp as nat),
                ],
                Stored::Unreadable => started.0@.blocks.len() == 0,
            }),
            (match authorities {
                Stored::Found(nodes) => started.0@.authorities == nodes_view(nodes@),
                _ => started.0@.authorities.len() == 0,
            }),
    {
        let mut chain = Blockchain::new_empty();
        let created = match genesis {
            Stored::Found(block) => {
                chain.blocks.push(block);
                false
            },
            Stored::Missing => {
                chain.blocks.push(Blockchain::make_genesis(current_time_millis()));
                true
            },
            Stored::Unreadable => false,
        };
        match authorities {
            Stored::Found(nodes) => {
                chain.authorities = nodes;
            },
            _ => {},
        }
        assert(chain@.blocks =~= blocks_view(chain.blocks@));
        assert(chain.blocks.len() == 1 ==> chain@.blocks =~= seq![chain.blocks[0]@]);
        (chain, created)
    }

    /// The genesis block made at `timestamp`.
    fn make_genesis(timestamp: u128) -> (block: Block)
        ensures
            block@ == genesis_block(timestamp as nat),
            block.timestamp == timestamp,
    {
        Block::with_timestamp(
            0,
            timestamp,
            "0".to_owned(),
            "Genesis Block".to_owned(),
            "genesis".to_owned(),
        )
    }

    /// A copy of the chain's blocks.
    pub fn copy_blocks(&self) -> (blocks: Vec<Block>)
        ensures
            blocks_view(blocks@) == self@.blocks,
    {
        let mut blocks: Vec<Block> = Vec::new();
        let mut i: usize = 0;
        while i < self.blocks.len()
            invariant
                i <= self.blocks.len(),
                blocks_view(blocks@) == self@.blocks.take(i as int),
            decreases self.blocks.len() - i,
        {
            let ghost copied = blocks_view(blocks@);
            let block = self.blocks[i].clone();
            blocks.push(block);
            i = i + 1;
            assert(blocks_view(blocks@) =~= copied.push(self@.blocks[i - 1]));
            assert(self@.blocks.take(i as int) =~= self@.blocks.take(i - 1).push(
                self@.blocks[i - 1],
            ));
        }
        assert(self@.blocks.take(i as int) =~= self@.blocks);
        blocks
    }

    /// The index of the first entry of the registry with the identifier
    /// `node_id`.
    fn find_authority(&self, node_id: &str) -> (found: Option<usize>)
        ensures
            (match found {
                Some(i) => first_with_id(self@.authorities, node_id@, i as int),
                None => authority_named(self@.authorities, node_id@) is None,
            }),
    {
        let mut i: usize = 0;
        while i < self.authorities.len()
            invariant
                i <= self.authorities.len(),
                forall|k: int| 0 <= k < i ==> (#[trigger] self@.authorities[k]).id != node_id@,
            decreases self.authorities.len() - i,
        {
            if str_equal(self.authorities[i].id.as_str(), node_id) {
                return Some(i);
            }
            i = i + 1;
        }
        assert forall|k: int| !first_with_id(self@.authorities, node_id@, k) by {
            if 0 <= k < self@.authorities.len() {
                assert(self@.authorities[k].id != node_id@);
            }
        }
        None
    }

    /// Appends a block with the payload `data`, signed by `node_id` with
    /// `secret_key` and stamped with the current time. Only a current
    /// authority may append; the chain must hold its genesis block.
    ///
    /// A valid chain stays valid where the secret key belongs to the key
    /// that the signer's signatures are checked against.
    pub fn add_block(
        &mut self,
        data: String,
        node_id: String,
        secret_key: &SecretKey,
    ) -> (result: Result<Block, LedgerError>)
        requires
            can_append(old(self)@, node_id@) ==> has_room(*old(self)),
        ensures
            append_outcome(
                old(self)@,
                final(self)@,
                result,
                data@,
                node_id@,
                secret_key@,
                final(self)@.blocks.last().timestamp,
            ),
            result is Ok && chain_valid(old(self)@.blocks, old(self)@.authorities) && signs_for(
                old(self)@.authorities,
                node_id@,
                secret_key@,
            ) ==> chain_valid(final(self)@.blocks, final(self)@.authorities),
    {
        self.add_block_at(data, node_id, secret_key, current_time_millis())
    }

    /// Appends a block as `add_block` does, stamped with `timestamp`.
    pub fn add_block_at(
        &mut self,
        data: String,
        node_id: String,
        secret_key: &SecretKey,
        timestamp: u128,
    ) -> (result: Result<Block, LedgerError>)
        requires
            can_append(old(self)@, node_id@) ==> has_room(*old(self)),
        ensures
            append_outcome(
                old(self)@,
                final(self)@,
                result,
                data@,
                node_id@,
                secret_key@,
                timestamp as nat,
            ),
            result is Ok && chain_valid(old(self)@.blocks, old(self)@.authorities) && signs_for(
                old(self)@.authorities,
                node_id@,
                secret_key@,
            ) ==> chain_valid(final(self)@.blocks, final(self)@.authorities),
    {
        if !registry_has_authority(&self.authorities, node_id.as_str()) {
            return Err(LedgerError::NotAuthority);
        }
        let tail = &self.blocks[self.blocks.len() - 1];
        let mut block = Block::with_timestamp(
            tail.index + 1,
            timestamp,
            tail.hash.clone(),
            data,
            node_id,
        );
        let ghost unsigned = block@;
        block.sign_block(secret_key);
        self.blocks.push(block.clone());
        proof {
            let before = old(self)@.blocks;
            let after = self@.blocks;
            let authorities = self@.authorities;
            assert(after =~= before.push(block@));
            assert(before.last() == tail@);
            if chain_valid(before, authorities) && signs_for(authorities, node_id@, secret_key@) {
                let last = before.len() as int;
                let blank = BlockView { hash: Seq::empty(), ..unsigned };
                assert(crate::block::preimage(block@) =~= crate::block::preimage(unsigned));
                assert(crate::block::preimage(blank) =~= crate::block::preimage(unsigned));
                assert(block@.hash == hash_of(unsigned));
                lemma_hex_round_trip(crate::block::digest_of(unsigned));
                lemma_hex_round_trip(
                    crate::crypto::ecdsa_signature(
                        crate::block::digest_of(unsigned),
                        secret_key@,
                    ),
                );
                assert(signature_accepted(authorities, block@));
                assert(block_accepted(after, authorities, last));
                assert forall|i: int| 1 <= i < after.len() implies #[trigger] block_accepted(
                    after,
                    authorities,
                    i,
                ) by {
                    if i < last {
                        assert(block_accepted(before, authorities, i));
                    }
                }
            }
        }
        Ok(block)
    }

    /// Registers `node` at the end of the registry. Nothing is checked: an
    /// identifier may then occur twice.
    pub fn add_authority(&mut self, node: Node)
        ensures
            final(self)@.authorities == old(self)@.authorities.push(node@),
            final(self)@.blocks == old(self)@.blocks,
            chain_valid(old(self)@.blocks, old(self)@.authorities) ==> chain_valid(
                final(self)@.blocks,
                final(self)@.authorities,
            ),
    {
        proof {
            if chain_valid(self@.blocks, self@.authorities) {
                lemma_registration_keeps_valid(self@.blocks, self@.authorities, node@);
            }
        }
        self.authorities.push(node);
        assert(self@.authorities =~= old(self)@.authorities.push(node@));
    }

    /// Whether `node_id` is a current authority.
    pub fn is_authority(&self, node_id: &str) -> (found: bool)
        ensures
            found == is_authority_in(self@.authorities, node_id@),
    {
        registry_has_authority(&self.authorities, node_id)
    }

    /// Whether the chain is valid.
    pub fn is_valid(&self) -> (valid: bool)
        ensures
            valid == chain_valid(self@.blocks, self@.authorities),
    {
        let mut i: usize = 1;
        while i < self.blocks.len()
            invariant
                1 <= i,
                forall|k: int|
                    1 <= k < i && k < self.blocks.len() ==> #[trigger] block_accepted(
                        self@.blocks,
                        self@.authorities,
                        k,
                    ),
            decreases self.blocks.len() - i,
        {
            let current = &self.blocks[i];
            let previous = &self.blocks[i - 1];
            let expected = current.calculate_hash();
            if !(current.hash == expected) {
                assert(!block_accepted(self@.blocks, self@.authorities, i as int));
                return false;
            }
            if !(current.previous_hash == previous.hash) {
                assert(!block_accepted(self@.blocks, self@.authorities, i as int));
                return false;
            }
            if !self.validate_block(current) {
                assert(!block_accepted(self@.blocks, self@.authorities, i as int));
                return false;
            }
            i = i + 1;
        }
        true
    }

    /// Whether the signature of `block` is accepted. A signer without an
    /// entry in the registry, a signature or hash that is not hexadecimal
    /// text, and a signature, hash or key that the curve rejects all give
    /// `false`.
    pub fn validate_block(&self, block: &Block) -> (accepted: bool)
        ensures
            accepted == signature_accepted(self@.authorities, block@),
    {
        match self.find_authority(block.node_id.as_str()) {
            None => false,
            Some(i) => {
                proof {
                    lemma_authority_named(self@.authorities, block@.node_id, i as int);
                }
                let authority = &self.authorities[i];
                match hex_decode(block.signature.as_str().as_bytes()) {
                    None => false,
                    Some(signature) => match hex_decode(block.hash.as_str().as_bytes()) {
                        None => false,
                        Some(digest) => authority.public_key.verifies(
                            digest.as_slice(),
                            signature.as_slice(),
                        ),
                    },
                }
            },
        }
    }

    /// Takes a peer's ledger into this one: every block of the peer that the
    /// chain lacks is appended, and every entry of the peer's registry that
    /// the registry lacks. Two blocks, or two entries, are the same where
    /// all their fields are equal.
    pub fn synchronize_from_peer(&mut self, peer_blockchain: Blockchain)
        ensures
            final(self)@.blocks == union_in_order(old(self)@.blocks, peer_blockchain@.blocks),
            final(self)@.authorities == union_in_order(
                old(self)@.authorities,
                peer_blockchain@.authorities,
            ),
    {
        let mut i: usize = 0;
        while i < peer_blockchain.blocks.len()
            invariant
                i <= peer_blockchain.blocks.len(),
                self@.authorities == old(self)@.authorities,
                self@.blocks == union_in_order(
                    old(self)@.blocks,
                    peer_blockchain@.blocks.take(i as int),
                ),
            decreases peer_blockchain.blocks.len() - i,
        {
            let block = &peer_blockchain.blocks[i];
            let ghost merged = self@.blocks;
            if !contains_block(&self.blocks, block) {
                self.blocks.push(block.clone());
                assert(self@.blocks =~= merged.push(block@));
            }
            i = i + 1;
            assert(peer_blockchain@.blocks.take(i as int).drop_last()
                =~= peer_blockchain@.blocks.take(i - 1));
        }
        assert(peer_blockchain@.blocks.take(i as int) =~= peer_blockchain@.blocks);
        let mut j: usize = 0;
        while j < peer_blockchain.authorities.len()
            invariant
                j <= peer_blockchain.authorities.len(),
                self@.blocks == union_in_order(old(self)@.blocks, peer_blockchain@.blocks),
                self@.authorities == union_in_order(
                    old(self)@.authorities,
                    peer_blockchain@.authorities.take(j as int),
                ),
            decreases peer_blockchain.authorities.len() - j,
        {
            let node = &peer_blockchain.authorities[j];
            let ghost merged = self@.authorities;
            if !contains_node(&self.authorities, node) {
                self.authorities.push(node.clone());
                assert(self@.authorities =~= merged.push(node@));
            }
            j = j + 1;
            assert(peer_blockchain@.authorities.take(j as int).drop_last()
                =~= peer_blockchain@.authorities.take(j - 1));
        }
        assert(peer_blockchain@.authorities.take(j as int) =~= peer_blockchain@.authorities);
    }

    /// Makes the ledger ready for use by the node `node_id`: an empty chain
    /// gets its genesis block, and `node_id` is registered as an authority
    /// with `public_key` where it is none yet. A ledger that has both is left
    /// as it is. The genesis block is not signed.
    pub fn initialize_genesis(
        &mut self,
        node_id: &str,
        secret_key: &SecretKey,
        public_key: PublicKey,
    )
        ensures
            final(self)@.blocks == (if old(self)@.blocks.len() > 0 {
                old(self)@.blocks
            } else {
                seq![genesis_block(final(self)@.blocks[0].timestamp)]
            }),
            final(self)@.authorities == with_authority(
                old(self)@.authorities,
                node_id@,
                public_key@,
            ),
            chain_valid(old(self)@.blocks, old(self)@.authorities) ==> chain_valid(
                final(self)@.blocks,
                final(self)@.authorities,
            ),
    {
        if self.blocks.len() == 0 {
            self.blocks.push(Blockchain::make_genesis(current_time_millis()));
            assert(self@.blocks =~= seq![self.blocks[0]@]);
        }
        let ghost blocks = self@.blocks;
        assert(chain_valid(old(self)@.blocks, old(self)@.authorities) ==> chain_valid(
            blocks,
            old(self)@.authorities,
        )) by {
            if old(self)@.blocks.len() == 0 {
                assert forall|i: int| 1 <= i < blocks.len() implies #[trigger] block_accepted(
                    blocks,
                    old(self)@.authorities,
                    i,
                ) by {}
            }
        }
        if !self.is_authority(node_id) {
            let node = Node { id: node_id.to_owned(), is_authority: true, public_key };
            self.add_authority(node);
        }
    }
}

} // verus!
