//! SHA-256 digests and ECDSA over secp256k1.
//!
//! The arithmetic is done by the `sha2` and `secp256k1` crates. Their results
//! are named by the uninterpreted functions below, and the key types hold
//! keys as plain bytes, so that the ledger's rules can be stated over them.

use crate::encoding::bytes_equal;
use crate::encoding::copy_bytes;
use crate::encoding::hex_bytes;
use crate::encoding::hex_decode;
use crate::encoding::hex_encode;
use crate::encoding::hex_text;
use secp256k1::ecdsa::Signature;
use secp256k1::Message;
use secp256k1::Secp256k1;
use sha2::Digest;
use sha2::Sha256;
use vstd::prelude::*;
use vstd::utf8::encode_utf8;

verus! {

/// The SHA-256 digest of `data`.
pub uninterp spec fn sha256(data: Seq<u8>) -> Seq<u8>;

/// The number that `bytes` stand for, the most significant byte first.
pub open spec fn big_endian(bytes: Seq<u8>) -> nat
    decreases bytes.len(),
{
    if bytes.len() == 0 {
        0
    } else {
        big_endian(bytes.drop_last()) * 256 + bytes.last() as nat
    }
}

/// The order of the curve secp256k1.
pub open spec fn curve_order() -> nat {
    0xffffffff_ffffffff_ffffffff_fffffffe_baaedce6_af48a03b_bfd25e8c_d0364141nat
}

/// Whether `bytes` are a secret key of the curve: 32 bytes that stand for a
/// number that is not 0 and less than the order of the curve.
pub open spec fn is_secret_key(bytes: Seq<u8>) -> bool {
    &&& bytes.len() == SECRET_KEY_LEN
    &&& 0 < big_endian(bytes) < curve_order()
}

/// The compressed serialisation of the public key that belongs to the secret
/// key `secret`.
pub uninterp spec fn public_key_of(secret: Seq<u8>) -> Seq<u8>;

/// The compressed serialisation of the public key that `data` encodes, in
/// compressed or uncompressed form, or `None` where `data` encodes none.
pub uninterp spec fn parsed_public_key(data: Seq<u8>) -> Option<Seq<u8>>;

/// The DER encoding of the deterministic ECDSA signature of the 32-byte
/// `digest` under the secret key `secret`.
pub uninterp spec fn ecdsa_signature(digest: Seq<u8>, secret: Seq<u8>) -> Seq<u8>;

/// Whether `signature` is the DER encoding of an ECDSA signature.
pub uninterp spec fn is_der_signature(signature: Seq<u8>) -> bool;

/// Whether `digest` is 32 bytes long, `signature` is a DER-encoded signature,
/// `public_key` encodes a public key, and the signature is valid for the
/// digest under that key.
pub uninterp spec fn ecdsa_verifies(
    digest: Seq<u8>,
    signature: Seq<u8>,
    public_key: Seq<u8>,
) -> bool;

/// The length of a digest and of a message to be signed, in bytes.
pub const DIGEST_LEN: usize = 32;

/// `sha2::Sha256::digest`: the SHA-256 digest of `data`, which is 32 bytes
/// long.
#[verifier::external_body]
pub(crate) fn sha256_digest(data: &[u8]) -> (digest: Vec<u8>)
    ensures
        digest@ == sha256(data@),
        digest@.len() == DIGEST_LEN,
{
    Sha256::digest(data).to_vec()
}

/// `secp256k1::SecretKey::from_slice`: whether `data` is accepted as a secret
/// key. The crate accepts 32 bytes that the underlying C library takes for
/// valid: a number, the most significant byte first, that is not 0 and less
/// than the order of the curve.
#[verifier::external_body]
fn secret_key_parses(data: &[u8]) -> (ok: bool)
    ensures
        ok == is_secret_key(data@),
{
    secp256k1::SecretKey::from_slice(data).is_ok()
}

/// `secp256k1::PublicKey::from_secret_key`, serialised in compressed form:
/// the public key of a secret key, which is 33 bytes long.
#[verifier::external_body]
fn derive_public_key(secret: &[u8]) -> (public: Vec<u8>)
    requires
        is_secret_key(secret@),
    ensures
        public@ == public_key_of(secret@),
        public@.len() == PUBLIC_KEY_LEN,
{
    let key = secp256k1::SecretKey::from_slice(secret).unwrap();
    secp256k1::PublicKey::from_secret_key(&Secp256k1::signing_only(), &key).serialize().to_vec()
}

/// `secp256k1::PublicKey::from_slice`, serialised in compressed form: the
/// key that `data` encodes, 33 bytes long, or `None` where the crate rejects
/// `data`.
#[verifier::external_body]
fn parse_public_key(data: &[u8]) -> (public: Option<Vec<u8>>)
    ensures
        public is Some <==> parsed_public_key(data@) is Some,
        public matches Some(p) ==> parsed_public_key(data@) == Some(p@) && p@.len()
            == PUBLIC_KEY_LEN,
{
    match secp256k1::PublicKey::from_slice(data) {
        Ok(key) => Some(key.serialize().to_vec()),
        Err(_) => None,
    }
}

/// `secp256k1::Secp256k1::sign_ecdsa`, serialised as DER: the signature of
/// `digest` under `secret`, made with the deterministic nonce of RFC 6979.
/// The second clause claims what the crate documents of `verify_ecdsa`:
/// the signature verifies for the same digest under the public key of the
/// signing key.
#[verifier::external_body]
pub(crate) fn ecdsa_sign(digest: &[u8], secret: &[u8]) -> (signature: Vec<u8>)
    requires
        digest@.len() == DIGEST_LEN,
        is_secret_key(secret@),
    ensures
        signature@ == ecdsa_signature(digest@, secret@),
        ecdsa_verifies(digest@, signature@, public_key_of(secret@)),
{
    let message = Message::from_slice(digest).unwrap();
    let key = secp256k1::SecretKey::from_slice(secret).unwrap();
    Secp256k1::signing_only().sign_ecdsa(&message, &key).serialize_der().to_vec()
}

/// `secp256k1::ecdsa::Signature::from_der`: whether `signature` parses as a
/// DER-encoded signature.
#[verifier::external_body]
pub(crate) fn der_signature_parses(signature: &[u8]) -> (ok: bool)
    ensures
        ok == is_der_signature(signature@),
{
    Signature::from_der(signature).is_ok()
}

/// `secp256k1::Secp256k1::verify_ecdsa` on the parsed arguments: `true` where
/// the digest, the signature and the key all parse and the signature is valid,
/// `false` where any of them is rejected or the signature is not valid.
#[verifier::external_body]
pub(crate) fn ecdsa_verify(digest: &[u8], signature: &[u8], public_key: &[u8]) -> (ok: bool)
    ensures
        ok == ecdsa_verifies(digest@, signature@, public_key@),
{
    match (
        Message::from_slice(digest),
        Signature::from_der(signature),
        secp256k1::PublicKey::from_slice(public_key),
    ) {
        (Ok(message), Ok(parsed), Ok(key)) => Secp256k1::verification_only().verify_ecdsa(
            &message,
            &parsed,
            &key,
        ).is_ok(),
        _ => false,
    }
}

/// The length of a secret key, in bytes.
pub const SECRET_KEY_LEN: usize = 32;

/// The length of a public key in compressed form, in bytes.
pub const PUBLIC_KEY_LEN: usize = 33;

/// Why key material was rejected.
#[derive(Clone, Copy, Debug, PartialEq, Eq, Structural)]
pub enum DecodeError {
    /// The text is not hexadecimal.
    InvalidHex,
    /// The bytes are no secret key of the curve.
    InvalidSecretKey,
    /// The bytes encode no public key of the curve.
    InvalidPublicKey,
}

/// The secret key that the hexadecimal text `text` gives, as its bytes, or
/// the reason why it gives none.
pub open spec fn secret_key_of_text(text: Seq<char>) -> Result<Seq<u8>, DecodeError> {
    match hex_bytes(encode_utf8(text)) {
        None => Err(DecodeError::InvalidHex),
        Some(bytes) => if is_secret_key(bytes) {
            Ok(bytes)
        } else {
            Err(DecodeError::InvalidSecretKey)
        },
    }
}

/// The public key that the hexadecimal text `text` gives, as its compressed
/// serialisation, or the reason why it gives none.
pub open spec fn public_key_of_text(text: Seq<char>) -> Result<Seq<u8>, DecodeError> {
    match hex_bytes(encode_utf8(text)) {
        None => Err(DecodeError::InvalidHex),
        Some(bytes) => match parsed_public_key(bytes) {
            Some(key) => Ok(key),
            None => Err(DecodeError::InvalidPublicKey),
        },
    }
}

impl DecodeError {
    /// A description of the error.
    pub fn message(&self) -> (text: String)
        ensures
            text@ == (match *self {
                DecodeError::InvalidHex => "malformed hexadecimal text"@,
                DecodeError::InvalidSecretKey => "malformed or out-of-range secret key"@,
                DecodeError::InvalidPublicKey => "malformed public key"@,
            }),
    {
        match self {
            DecodeError::InvalidHex => "malformed hexadecimal text".to_owned(),
            DecodeError::InvalidSecretKey => "malformed or out-of-range secret key".to_owned(),
            DecodeError::InvalidPublicKey => "malformed public key".to_owned(),
        }
    }
}

/// A secret key of the curve, held as its 32 bytes.
pub struct SecretKey {
    bytes: Vec<u8>,
}

impl View for SecretKey {
    type V = Seq<u8>;

    closed spec fn view(&self) -> Seq<u8> {
        self.bytes@
    }
}

impl SecretKey {
    #[verifier::type_invariant]
    spec fn well_formed(self) -> bool {
        is_secret_key(self.bytes@)
    }

    /// Reads a secret key from its bytes.
    pub fn from_slice(data: &[u8]) -> (key: Result<SecretKey, DecodeError>)
        ensures
            key is Ok <==> is_secret_key(data@),
            key matches Ok(k) ==> k@ == data@,
            key matches Err(e) ==> e == DecodeError::InvalidSecretKey,
    {
        if secret_key_parses(data) {
            Ok(SecretKey { bytes: copy_bytes(data) })
        } else {
            Err(DecodeError::InvalidSecretKey)
        }
    }

    /// Reads a secret key from the hexadecimal text of its bytes.
    pub fn from_hex(text: &str) -> (key: Result<SecretKey, DecodeError>)
        ensures
            (match secret_key_of_text(text@) {
                Ok(bytes) => key matches Ok(k) && k@ == bytes,
                Err(error) => key matches Err(e) && e == error,
            }),
    {
        match hex_decode(text.as_bytes()) {
            None => Err(DecodeError::InvalidHex),
            Some(bytes) => SecretKey::from_slice(bytes.as_slice()),
        }
    }

    /// The bytes of the key, which are 32 and a secret key of the curve.
    pub fn secret_bytes(&self) -> (bytes: Vec<u8>)
        ensures
            bytes@ == self@,
            bytes@.len() == SECRET_KEY_LEN,
            is_secret_key(self@),
    {
        proof {
            use_type_invariant(self);
        }
        copy_bytes(self.bytes.as_slice())
    }

    /// The public key that belongs to this secret key.
    pub fn public_key(&self) -> (public: PublicKey)
        ensures
            public@ == public_key_of(self@),
    {
        proof {
            use_type_invariant(self);
        }
        PublicKey { bytes: derive_public_key(self.bytes.as_slice()) }
    }

    /// Signs the 32-byte `digest`, and returns the signature in DER encoding.
    pub fn sign(&self, digest: &[u8]) -> (signature: Vec<u8>)
        requires
            digest@.len() == DIGEST_LEN,
        ensures
            signature@ == ecdsa_signature(digest@, self@),
            ecdsa_verifies(digest@, signature@, public_key_of(self@)),
    {
        proof {
            use_type_invariant(self);
        }
        ecdsa_sign(digest, self.bytes.as_slice())
    }
}

/// A public key of the curve, held as its compressed serialisation.
#[derive(Debug)]
pub struct PublicKey {
    bytes: Vec<u8>,
}

impl View for PublicKey {
    type V = Seq<u8>;

    closed spec fn view(&self) -> Seq<u8> {
        self.bytes@
    }
}

impl PublicKey {
    #[verifier::type_invariant]
    spec fn well_formed(self) -> bool {
        self.bytes@.len() == PUBLIC_KEY_LEN
    }

    /// Reads a public key from its compressed or uncompressed serialisation.
    pub fn from_slice(data: &[u8]) -> (key: Result<PublicKey, DecodeError>)
        ensures
            key is Ok <==> parsed_public_key(data@) is Some,
            key matches Ok(k) ==> parsed_public_key(data@) == Some(k@),
            key matches Err(e) ==> e == DecodeError::InvalidPublicKey,
    {
        match parse_public_key(data) {
            Some(bytes) => Ok(PublicKey { bytes }),
            None => Err(DecodeError::InvalidPublicKey),
        }
    }

    /// Reads a public key from the hexadecimal text of its compressed or
    /// uncompressed serialisation.
    pub fn from_hex(text: &str) -> (key: Result<PublicKey, DecodeError>)
        ensures
            (match public_key_of_text(text@) {
                Ok(bytes) => key matches Ok(k) && k@ == bytes,
                Err(error) => key matches Err(e) && e == error,
            }),
    {
        match hex_decode(text.as_bytes()) {
            None => Err(DecodeError::InvalidHex),
            Some(bytes) => PublicKey::from_slice(bytes.as_slice()),
        }
    }

    /// The compressed serialisation of the key as lower-case hexadecimal
    /// text.
    pub fn to_hex(&self) -> (text: String)
        ensures
            text@ == hex_text(self@),
    {
        hex_encode(self.bytes.as_slice())
    }

    /// The public key that belongs to `secret`.
    pub fn from_secret_key(secret: &SecretKey) -> (public: PublicKey)
        ensures
            public@ == public_key_of(secret@),
    {
        secret.public_key()
    }

    /// The compressed serialisation of the key, which is 33 bytes long.
    pub fn serialize(&self) -> (bytes: Vec<u8>)
        ensures
            bytes@ == self@,
            bytes@.len() == PUBLIC_KEY_LEN,
    {
        proof {
            use_type_invariant(self);
        }
        copy_bytes(self.bytes.as_slice())
    }

    /// Whether `signature`, in DER encoding, is a valid signature of `digest`
    /// under this key.
    pub fn verifies(&self, digest: &[u8], signature: &[u8]) -> (ok: bool)
        ensures
            ok == ecdsa_verifies(digest@, signature@, self@),
    {
        ecdsa_verify(digest, signature, self.bytes.as_slice())
    }
}

impl Clone for PublicKey {
    fn clone(&self) -> (copy: Self)
        ensures
            copy@ == self@,
    {
        proof {
            use_type_invariant(self);
        }
        PublicKey { bytes: copy_bytes(self.bytes.as_slice()) }
    }
}

impl PartialEq for PublicKey {
    fn eq(&self, other: &Self) -> (same: bool) {
        bytes_equal(self.bytes.as_slice(), other.bytes.as_slice())
    }
}

impl vstd::std_specs::cmp::PartialEqSpecImpl for PublicKey {
    open spec fn obeys_eq_spec() -> bool {
        true
    }

    open spec fn eq_spec(&self, other: &Self) -> bool {
        self@ == other@
    }
}

impl Eq for PublicKey {}

} // verus!
