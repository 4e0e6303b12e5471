use cognichain::encoding::bytes_equal;
use cognichain::encoding::copy_bytes;
use cognichain::crypto::DecodeError;
use cognichain::crypto::PublicKey;
use cognichain::crypto::SecretKey;
use cognichain::encoding::hex_encode;
use sha2::Digest;

const CURVE_ORDER: [u8; 32] = [
    0xff, 0xff, 0xff, 0xff, 0xff, 0xff, 0xff, 0xff, 0xff, 0xff, 0xff, 0xff, 0xff, 0xff, 0xff, 0xfe,
    0xba, 0xae, 0xdc, 0xe6, 0xaf, 0x48, 0xa0, 0x3b, 0xbf, 0xd2, 0x5e, 0x8c, 0xd0, 0x36, 0x41, 0x41,
];

fn key_one() -> SecretKey {
    let mut bytes = [0u8; 32];
    bytes[31] = 1;
    SecretKey::from_slice(&bytes).expect("1 is a secret key")
}

#[test]
fn secret_key_keeps_its_bytes() {
    let key = SecretKey::from_slice(&[0xcd; 32]).expect("a secret key");
    assert_eq!(key.secret_bytes(), vec![0xcd; 32]);
}

#[test]
fn secret_key_of_wrong_length_is_rejected() {
    assert_eq!(SecretKey::from_slice(&[0xcd; 31]).err(), Some(DecodeError::InvalidSecretKey));
    assert_eq!(SecretKey::from_slice(&[0xcd; 33]).err(), Some(DecodeError::InvalidSecretKey));
    assert_eq!(SecretKey::from_slice(&[]).err(), Some(DecodeError::InvalidSecretKey));
}

#[test]
fn secret_key_zero_is_rejected() {
    assert_eq!(SecretKey::from_slice(&[0u8; 32]).err(), Some(DecodeError::InvalidSecretKey));
}

#[test]
fn secret_key_must_be_below_the_curve_order() {
    assert_eq!(SecretKey::from_slice(&CURVE_ORDER).err(), Some(DecodeError::InvalidSecretKey));
    let mut below = CURVE_ORDER;
    below[31] = 0x40;
    assert!(SecretKey::from_slice(&below).is_ok());
    assert_eq!(SecretKey::from_slice(&[0xff; 32]).err(), Some(DecodeError::InvalidSecretKey));
}

#[test]
fn public_key_of_one_is_the_generator() {
    let public = key_one().public_key();
    assert_eq!(
        hex_encode(&public.serialize()),
        "0279be667ef9dcbbac55a06295ce870b07029bfcdb2dce28d959f2815b16f81798"
    );
}

#[test]
fn public_key_of_a_secret_key() {
    let secret = SecretKey::from_slice(&[0xcd; 32]).expect("a secret key");
    let public = PublicKey::from_secret_key(&secret);
    assert_eq!(
        hex_encode(&public.serialize()),
        "02b98a7fb8cc007048625b6446ad49a1b3a722df8c1ca975b87160023e14d19097"
    );
    assert_eq!(public, secret.public_key());
}

#[test]
fn public_key_is_read_from_its_compressed_form() {
    let bytes = key_one().public_key().serialize();
    let read = PublicKey::from_slice(&bytes).expect("a public key");
    assert_eq!(read.serialize(), bytes);
    assert_eq!(read.serialize().len(), 33);
}

#[test]
fn public_key_is_read_from_its_uncompressed_form() {
    let uncompressed = hex::decode(
        "0479be667ef9dcbbac55a06295ce870b07029bfcdb2dce28d959f2815b16f81798\
         483ada7726a3c4655da4fbfc0e1108a8fd17b448a68554199c47d08ffb10d4b8",
    )
    .expect("hexadecimal");
    let read = PublicKey::from_slice(&uncompressed).expect("a public key");
    assert_eq!(read, key_one().public_key());
    assert_eq!(read.serialize().len(), 33);
}

#[test]
fn public_key_off_the_curve_is_rejected() {
    assert_eq!(PublicKey::from_slice(&[]).err(), Some(DecodeError::InvalidPublicKey));
    assert_eq!(PublicKey::from_slice(&[0x02; 32]).err(), Some(DecodeError::InvalidPublicKey));
    assert_eq!(PublicKey::from_slice(&[0x05; 33]).err(), Some(DecodeError::InvalidPublicKey));
    let mut bytes = key_one().public_key().serialize();
    bytes[0] = 0x04;
    assert_eq!(PublicKey::from_slice(&bytes).err(), Some(DecodeError::InvalidPublicKey));
}

#[test]
fn public_keys_are_equal_by_their_bytes() {
    let one = key_one().public_key();
    let other = SecretKey::from_slice(&[0x11; 32]).expect("a secret key").public_key();
    assert_eq!(one.clone(), one);
    assert_ne!(one, other);
    assert_eq!(
        hex_encode(&other.serialize()),
        "034f355bdcb7cc0af728ef3cceb9615d90684bb5b2ca5f859ab0f0b704075871aa"
    );
}

#[test]
fn signature_is_the_deterministic_one() {
    let digest = sha2::Sha256::digest(b"Satoshi Nakamoto").to_vec();
    let signature = key_one().sign(&digest);
    assert_eq!(
        hex_encode(&signature),
        "3045022100934b1ea10a4b3c1757e2b0c017d0b6143ce3c9a7e6a4a49860d7a6ab210ee3d8\
         02202442ce9d2b916064108014783e923ec36b49743e2ffa1c4496f01a512aafd9e5"
    );
    assert_eq!(key_one().sign(&digest), signature);
}

#[test]
fn signature_of_another_key_and_digest() {
    let secret = SecretKey::from_slice(&[0xcd; 32]).expect("a secret key");
    assert_eq!(
        hex_encode(&secret.sign(&[0xab; 32])),
        "304402203dc4fa74655c21b7ffc0740e29bfd88647e8dfe2b68c507cf96264e4e7439c1f\
         02207aa61261b18eebdfdb704ca7bab4c7bcf7961ae0ade5309f6f1398e21aec0f9f"
    );
}

#[test]
fn signature_verifies_under_the_signers_public_key_only() {
    let secret = SecretKey::from_slice(&[0xcd; 32]).expect("a secret key");
    let digest = [0xab; 32];
    let signature = secret.sign(&digest);
    assert!(secret.public_key().verifies(&digest, &signature));
    assert!(!key_one().public_key().verifies(&digest, &signature));
    assert!(!secret.public_key().verifies(&[0xac; 32], &signature));
}

#[test]
fn verification_fails_closed_on_malformed_input() {
    let secret = SecretKey::from_slice(&[0xcd; 32]).expect("a secret key");
    let digest = [0xab; 32];
    let signature = secret.sign(&digest);
    let public = secret.public_key();
    assert!(!public.verifies(&digest[..31], &signature));
    assert!(!public.verifies(&[], &signature));
    assert!(!public.verifies(&digest, &[]));
    assert!(!public.verifies(&digest, &signature[..signature.len() - 1]));
    assert!(!public.verifies(&digest, &[0x30, 0x00]));
}

#[test]
fn keys_are_read_from_hexadecimal_text() {
    let text = "cd".repeat(32);
    let secret = SecretKey::from_hex(&text).expect("a secret key");
    assert_eq!(secret.secret_bytes(), vec![0xcd; 32]);
    let upper = SecretKey::from_hex(&text.to_uppercase()).expect("a secret key");
    assert_eq!(upper.secret_bytes(), vec![0xcd; 32]);
    let public = PublicKey::from_hex(
        "02b98a7fb8cc007048625b6446ad49a1b3a722df8c1ca975b87160023e14d19097",
    )
    .expect("a public key");
    assert_eq!(public, secret.public_key());
    assert_eq!(
        public.to_hex(),
        "02b98a7fb8cc007048625b6446ad49a1b3a722df8c1ca975b87160023e14d19097"
    );
    assert_eq!(PublicKey::from_hex(&public.to_hex()), Ok(public));
}

#[test]
fn keys_in_malformed_text_are_rejected() {
    assert_eq!(SecretKey::from_hex("zz").err(), Some(DecodeError::InvalidHex));
    assert_eq!(SecretKey::from_hex("abc").err(), Some(DecodeError::InvalidHex));
    assert_eq!(SecretKey::from_hex("").err(), Some(DecodeError::InvalidSecretKey));
    assert_eq!(SecretKey::from_hex("cdcd").err(), Some(DecodeError::InvalidSecretKey));
    assert_eq!(SecretKey::from_hex(&"00".repeat(32)).err(), Some(DecodeError::InvalidSecretKey));
    assert_eq!(PublicKey::from_hex("0279be66 ").err(), Some(DecodeError::InvalidHex));
    assert_eq!(PublicKey::from_hex("\u{e9}\u{e9}").err(), Some(DecodeError::InvalidHex));
    assert_eq!(PublicKey::from_hex("").err(), Some(DecodeError::InvalidPublicKey));
    assert_eq!(PublicKey::from_hex("0279be66").err(), Some(DecodeError::InvalidPublicKey));
}

#[test]
fn decode_errors_describe_themselves() {
    assert_eq!(DecodeError::InvalidHex.message(), "malformed hexadecimal text");
    assert_eq!(
        DecodeError::InvalidSecretKey.message(),
        "malformed or out-of-range secret key"
    );
    assert_eq!(DecodeError::InvalidPublicKey.message(), "malformed public key");
}

#[test]
fn bytes_are_copied_and_compared() {
    assert_eq!(copy_bytes(&[1, 2, 3]), vec![1, 2, 3]);
    assert_eq!(copy_bytes(&[]), Vec::<u8>::new());
    assert!(bytes_equal(&[1, 2, 3], &[1, 2, 3]));
    assert!(bytes_equal(&[], &[]));
    assert!(!bytes_equal(&[1, 2, 3], &[1, 2, 4]));
    assert!(!bytes_equal(&[1, 2, 3], &[1, 2]));
    assert!(!bytes_equal(&[0, 2, 3], &[1, 2, 3]));
}
