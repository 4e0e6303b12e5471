//! Blocks: the content-addressed units of the ledger.

use crate::crypto::sha256;
use crate::crypto::sha256_digest;
use crate::crypto::ecdsa_signature;
use crate::crypto::ecdsa_verifies;
use crate::crypto::public_key_of;
use crate::crypto::SecretKey;
use crate::crypto::DIGEST_LEN;
use crate::encoding::decimal;
use crate::encoding::hex_encode;
use crate::encoding::hex_text;
use crate::encoding::push_decimal;
use std::time::SystemTime;
use std::time::UNIX_EPOCH;
use vstd::prelude::*;
use vstd::string::StringExecFns;
use vstd::utf8::encode_utf8;

verus! {

/// One block of the ledger.
#[derive(Debug)]
pub struct Block {
    /// The position of the block in the chain; the genesis block has 0.
    pub index: u64,
    /// When the block was made, in milliseconds since the Unix epoch.
    pub timestamp: u128,
    /// The hash of the block before this one, in hexadecimal.
    pub previous_hash: String,
    /// The hash of this block, in hexadecimal.
    pub hash: String,
    /// Reserved; consensus does not use it.
    pub nonce: u64,
    /// The payload.
    pub data: String,
    /// The signer's ECDSA signature in DER encoding, in hexadecimal; empty
    /// until the block is signed.
    pub signature: String,
    /// The identifier of the signer.
    pub node_id: String,
}

/// A block as a mathematical value.
pub struct BlockView {
    pub index: nat,
    pub timestamp: nat,
    pub previous_hash: Seq<char>,
    pub hash: Seq<char>,
    pub nonce: nat,
    pub data: Seq<char>,
    pub signature: Seq<char>,
    pub node_id: Seq<char>,
}

impl View for Block {
    type V = BlockView;

    open spec fn view(&self) -> BlockView {
        BlockView {
            index: self.index as nat,
            timestamp: self.timestamp as nat,
            previous_hash: self.previous_hash@,
            hash: self.hash@,
            nonce: self.nonce as nat,
            data: self.data@,
            signature: self.signature@,
            node_id: self.node_id@,
        }
    }
}

/// The text that a block's hash is taken of: the decimal index, the decimal
/// timestamp, the previous hash, the decimal nonce, the payload and the
/// signer's identifier, in this order and with nothing between them.
pub open spec fn preimage(block: BlockView) -> Seq<char> {
    decimal(block.index) + decimal(block.timestamp) + block.previous_hash + decimal(block.nonce)
        + block.data + block.node_id
}

/// The SHA-256 digest of a block's preimage in UTF-8.
pub open spec fn digest_of(block: BlockView) -> Seq<u8> {
    sha256(encode_utf8(preimage(block)))
}

/// The hash that belongs to a block's contents: its digest in lower-case
/// hexadecimal.
pub open spec fn hash_of(block: BlockView) -> Seq<char> {
    hex_text(digest_of(block))
}

/// The unsigned block with the given contents: its nonce is 0, its hash is
/// the one that belongs to its contents, and its signature is empty.
pub open spec fn unsigned_block(
    index: nat,
    timestamp: nat,
    previous_hash: Seq<char>,
    data: Seq<char>,
    node_id: Seq<char>,
) -> BlockView {
    let blank = BlockView {
        index,
        timestamp,
        previous_hash,
        hash: Seq::empty(),
        nonce: 0,
        data,
        signature: Seq::empty(),
        node_id,
    };
    BlockView { hash: hash_of(blank), ..blank }
}

/// The signature that `secret` gives to a block's contents, in hexadecimal.
pub open spec fn signature_of(block: BlockView, secret: Seq<u8>) -> Seq<char> {
    hex_text(ecdsa_signature(digest_of(block), secret))
}

/// The time of the system clock in milliseconds since the Unix epoch, from
/// `std::time::SystemTime::now`; 0 where the clock is set before the epoch.
#[verifier::external_body]
pub(crate) fn current_time_millis() -> (millis: u128) {
    match SystemTime::now().duration_since(UNIX_EPOCH) {
        Ok(elapsed) => elapsed.as_millis(),
        Err(_) => 0,
    }
}

impl Block {
    /// Makes an unsigned block with the given contents, stamped with the
    /// current time.
    pub fn new(index: u64, previous_hash: String, data: String, node_id: String) -> (block: Block)
        ensures
            block@ == unsigned_block(
                index as nat,
                block.timestamp as nat,
                previous_hash@,
                data@,
                node_id@,
            ),
    {
        Block::with_timestamp(index, current_time_millis(), previous_hash, data, node_id)
    }

    /// Makes an unsigned block with the given contents and timestamp.
    pub fn with_timestamp(
        index: u64,
        timestamp: u128,
        previous_hash: String,
        data: String,
        node_id: String,
    ) -> (block: Block)
        ensures
            block@ == unsigned_block(
                index as nat,
                timestamp as nat,
                previous_hash@,
                data@,
                node_id@,
            ),
    {
        let mut block = Block {
            index,
            timestamp,
            previous_hash,
            hash: String::new(),
            nonce: 0,
            data,
            signature: String::new(),
            node_id,
        };
        let hash = block.calculate_hash();
        block.hash = hash;
        block
    }

    /// The key under which the block is kept in a durable store: its index
    /// in decimal, which is `0` for the genesis block.
    pub fn storage_key(&self) -> (key: String)
        ensures
            key@ == decimal(self.index as nat),
    {
        let mut key = String::new();
        push_decimal(&mut key, self.index as u128);
        assert(key@ =~= decimal(self.index as nat));
        key
    }

    /// The digest of the block's contents, 32 bytes long.
    pub fn digest(&self) -> (digest: Vec<u8>)
        ensures
            digest@ == digest_of(self@),
            digest@.len() == DIGEST_LEN,
    {
        let mut text = String::new();
        push_decimal(&mut text, self.index as u128);
        push_decimal(&mut text, self.timestamp);
        text.append(self.previous_hash.as_str());
        push_decimal(&mut text, self.nonce as u128);
        text.append(self.data.as_str());
        text.append(self.node_id.as_str());
        assert(text@ =~= preimage(self@));
        sha256_digest(text.as_str().as_bytes())
    }

    /// The hash that belongs to the block's contents. The stored hash and
    /// the signature do not enter it.
    pub fn calculate_hash(&self) -> (hash: String)
        ensures
            hash@ == hash_of(self@),
    {
        let digest = self.digest();
        hex_encode(digest.as_slice())
    }

    /// Signs the block's contents with `secret_key` and stores the signature
    /// in hexadecimal. The signature is valid for the contents' digest under
    /// the public key of `secret_key`.
    pub fn sign_block(&mut self, secret_key: &SecretKey)
        ensures
            final(self)@ == (BlockView {
                signature: signature_of(old(self)@, secret_key@),
                ..old(self)@
            }),
            ecdsa_verifies(
                digest_of(old(self)@),
                ecdsa_signature(digest_of(old(self)@), secret_key@),
                public_key_of(secret_key@),
            ),
    {
        let digest = self.digest();
        let signature = secret_key.sign(digest.as_slice());
        self.signature = hex_encode(signature.as_slice());
    }
}

impl Clone for Block {
    fn clone(&self) -> (copy: Self)
        ensures
            copy@ == self@,
    {
        Block {
            index: self.index,
            timestamp: self.timestamp,
            previous_hash: self.previous_hash.clone(),
            hash: self.hash.clone(),
            nonce: self.nonce,
            data: self.data.clone(),
            signature: self.signature.clone(),
            node_id: self.node_id.clone(),
        }
    }
}

impl PartialEq for Block {
    fn eq(&self, other: &Self) -> (same: bool) {
        self.index == other.index && self.timestamp == other.timestamp && self.previous_hash
            == other.previous_hash && self.hash == other.hash && self.nonce == other.nonce
            && self.data == other.data && self.signature == other.signature && self.node_id
            == other.node_id
    }
}

impl vstd::std_specs::cmp::PartialEqSpecImpl for Block {
    open spec fn obeys_eq_spec() -> bool {
        true
    }

    open spec fn eq_spec(&self, other: &Self) -> bool {
        self@ == other@
    }
}

} // verus!
