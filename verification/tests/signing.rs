use rand::SeedableRng;
use signing_secp256k1::{PrivateKey, PublicKey, Secp256k1Error, Signature};

fn hex(s: &str) -> Vec<u8> {
    (0..s.len())
        .step_by(2)
        .map(|i| u8::from_str_radix(&s[i..i + 2], 16).unwrap())
        .collect()
}

const GX: &str = "79be667ef9dcbbac55a06295ce870b07029bfcdb2dce28d959f2815b16f81798";
const GY: &str = "483ada7726a3c4655da4fbfc0e1108a8fd17b448a68554199c47d08ffb10d4b8";
const ORDER: &str = "fffffffffffffffffffffffffffffffebaaedce6af48a03bbfd25e8cd0364141";
const ORDER_MINUS_ONE: &str = "fffffffffffffffffffffffffffffffebaaedce6af48a03bbfd25e8cd0364140";

fn key_one() -> PrivateKey {
    let mut bytes = [0u8; 32];
    bytes[31] = 1;
    PrivateKey::from_bytes(&bytes).unwrap()
}

#[test]
fn test_key_generation() {
    let mut rng = rand::thread_rng();
    let private_key = PrivateKey::generate(&mut rng);
    let public_key = private_key.public_key();

    // Test round-trip
    let private_bytes = private_key.to_bytes();
    let recovered_private = PrivateKey::from_bytes(&private_bytes).unwrap();
    assert_eq!(private_key.public_key().as_bytes(), recovered_private.public_key().as_bytes());

    // Test public key formats
    let uncompressed = public_key.to_uncompressed_bytes();
    let compressed = public_key.to_compressed_bytes();

    let recovered_from_uncompressed = PublicKey::from_uncompressed_bytes(&uncompressed).unwrap();
    let recovered_from_compressed = PublicKey::from_compressed_bytes(&compressed).unwrap();

    assert_eq!(public_key, recovered_from_uncompressed);
    assert_eq!(public_key, recovered_from_compressed);
}

#[test]
fn test_signing_and_verification() {
    let mut rng = rand::thread_rng();
    let private_key = PrivateKey::generate(&mut rng);
    let public_key = private_key.public_key();

    let message = b"Hello, Malachite!";
    let signature = private_key.sign(message).unwrap();

    // Verify with correct key
    assert!(public_key.verify(message, &signature).is_ok());

    // Verify with wrong message should fail
    let wrong_message = b"Wrong message";
    assert!(public_key.verify(wrong_message, &signature).is_err());
}

#[test]
fn test_ethereum_address_derivation() {
    let mut rng = rand::thread_rng();
    let private_key = PrivateKey::generate(&mut rng);
    let public_key = private_key.public_key();

    let address = public_key.to_ethereum_address();
    assert_eq!(address.len(), 20);

    // Address should be deterministic
    let address2 = public_key.to_ethereum_address();
    assert_eq!(address, address2);
}

#[test]
fn test_signature_serialization() {
    let mut rng = rand::thread_rng();
    let private_key = PrivateKey::generate(&mut rng);
    let message = b"test message";
    let signature = private_key.sign(message).unwrap();

    // Test DER round-trip
    let der_bytes = signature.to_der();
    let recovered_sig = Signature::from_der(&der_bytes).unwrap();
    assert_eq!(signature, recovered_sig);

    // Test raw bytes round-trip
    let raw_bytes = signature.to_bytes();
    let recovered_sig2 = Signature::from_bytes(&raw_bytes).unwrap();
    assert_eq!(signature, recovered_sig2);
}

#[test]
fn private_key_one_has_the_base_point_as_public_key() {
    let public_key = key_one().public_key();
    let mut expected = hex(GX);
    expected.extend(hex(GY));
    assert_eq!(public_key.to_uncompressed_bytes().to_vec(), expected);
    assert_eq!(public_key.as_bytes().to_vec(), expected);
}

#[test]
fn private_key_one_has_the_known_ethereum_address() {
    let address = key_one().public_key().to_ethereum_address();
    assert_eq!(address.to_vec(), hex("7e5f4552091a69125d5dfcb7b8c2659029395bdf"));
}

#[test]
fn compressed_base_point_has_even_tag_and_x() {
    let compressed = key_one().public_key().to_compressed_bytes();
    let mut expected = vec![0x02u8];
    expected.extend(hex(GX));
    assert_eq!(compressed.to_vec(), expected);
}

#[test]
fn compressed_odd_point_has_odd_tag() {
    // 2G has an odd y coordinate.
    let mut bytes = [0u8; 32];
    bytes[31] = 2;
    let public_key = PrivateKey::from_bytes(&bytes).unwrap().public_key();
    let uncompressed = public_key.to_uncompressed_bytes();
    let compressed = public_key.to_compressed_bytes();
    let expected_tag = if uncompressed[63] % 2 == 0 { 2u8 } else { 3u8 };
    assert_eq!(compressed[0], expected_tag);
    assert_eq!(&compressed[1..], &uncompressed[..32]);
    assert_eq!(PublicKey::from_compressed_bytes(&compressed).unwrap(), public_key);
}

#[test]
fn private_key_bytes_round_trip() {
    let key = key_one();
    let again = PrivateKey::from_bytes(&key.to_bytes()).unwrap();
    assert_eq!(again.to_bytes(), key.to_bytes());
}

#[test]
fn private_key_short_slice_is_left_padded() {
    let short = vec![7u8; 24];
    let mut padded = vec![0u8; 8];
    padded.extend(&short);
    let from_short = PrivateKey::from_bytes(&short).unwrap();
    let from_padded = PrivateKey::from_bytes(&padded).unwrap();
    assert_eq!(from_short.to_bytes().to_vec(), padded);
    assert_eq!(from_short.to_bytes(), from_padded.to_bytes());
}

#[test]
fn private_key_rejects_bad_lengths() {
    assert_eq!(PrivateKey::from_bytes(&[1u8; 23]).err(), Some(Secp256k1Error::InvalidPrivateKey));
    assert_eq!(PrivateKey::from_bytes(&[1u8; 33]).err(), Some(Secp256k1Error::InvalidPrivateKey));
    assert_eq!(PrivateKey::from_bytes(&[]).err(), Some(Secp256k1Error::InvalidPrivateKey));
}

#[test]
fn private_key_rejects_out_of_range_scalars() {
    assert_eq!(PrivateKey::from_bytes(&[0u8; 32]).err(), Some(Secp256k1Error::InvalidPrivateKey));
    assert_eq!(PrivateKey::from_bytes(&hex(ORDER)).err(), Some(Secp256k1Error::InvalidPrivateKey));
    assert!(PrivateKey::from_bytes(&hex(ORDER_MINUS_ONE)).is_ok());
}

#[test]
fn public_key_rejects_wrong_length() {
    let public_key = key_one().public_key().to_uncompressed_bytes();
    assert_eq!(
        PublicKey::from_uncompressed_bytes(&public_key[..63]).err(),
        Some(Secp256k1Error::InvalidPublicKey)
    );
    let mut longer = public_key.to_vec();
    longer.push(0);
    assert_eq!(
        PublicKey::from_uncompressed_bytes(&longer).err(),
        Some(Secp256k1Error::InvalidPublicKey)
    );
}

#[test]
fn public_key_rejects_point_off_the_curve() {
    let mut bytes = key_one().public_key().to_uncompressed_bytes();
    bytes[63] ^= 1;
    assert_eq!(
        PublicKey::from_uncompressed_bytes(&bytes).err(),
        Some(Secp256k1Error::InvalidPublicKey)
    );
}

#[test]
fn public_key_rejects_bad_sec1_bytes() {
    assert_eq!(PublicKey::from_compressed_bytes(&[]).err(), Some(Secp256k1Error::InvalidPublicKey));
    assert_eq!(PublicKey::from_compressed_bytes(&[0u8]).err(), Some(Secp256k1Error::InvalidPublicKey));
    let mut bad_tag = key_one().public_key().to_compressed_bytes();
    bad_tag[0] = 0x07;
    assert_eq!(PublicKey::from_compressed_bytes(&bad_tag).err(), Some(Secp256k1Error::InvalidPublicKey));
}

#[test]
fn compressed_key_must_have_33_bytes() {
    let public_key = key_one().public_key();
    let mut sec1 = vec![0x04u8];
    sec1.extend(public_key.to_uncompressed_bytes());
    assert_eq!(PublicKey::from_compressed_bytes(&sec1).err(), Some(Secp256k1Error::InvalidPublicKey));
    let compressed = public_key.to_compressed_bytes();
    assert_eq!(
        PublicKey::from_compressed_bytes(&compressed[..32]).err(),
        Some(Secp256k1Error::InvalidPublicKey)
    );
}

/// The key and message of the Ethereum example in the documentation of `k256::ecdsa`.
const ETH_KEY: &str = "4c0883a69102937d6231471b5dbb6204fe5129617082792ae468d01a3f362318";
const ETH_MESSAGE: &str = "e9808504e3b29200831e848094f0109fc8df283027b6285cc889f5aa624eac1f55843b9aca0080018080";
const ETH_SIGNATURE: &str = "c9cf86333bcb065d140032ecaab5d9281bde80f21b9687b3e94161de42d51895727a108a0b8d101465414033c3f705a9c7b826e596766046ee1183dbc8aeaa68";
const HALF_ORDER: &str = "7fffffffffffffffffffffffffffffff5d576e7357a4501ddfe92f46681b20a0";

#[test]
fn signature_over_keccak_digest_matches_ethereum() {
    let key = PrivateKey::from_bytes(&hex(ETH_KEY)).unwrap();
    let signature = key.sign(&hex(ETH_MESSAGE)).unwrap();
    assert_eq!(signature.to_bytes().to_vec(), hex(ETH_SIGNATURE));
    assert!(key.public_key().verify(&hex(ETH_MESSAGE), &signature).is_ok());
}

#[test]
fn ethereum_address_of_known_key() {
    let key = PrivateKey::from_bytes(&hex(ETH_KEY)).unwrap();
    assert_eq!(
        key.public_key().to_ethereum_address().to_vec(),
        hex("2c7536e3605d9c16a7a3d7b1898e529396a65c23")
    );
}

#[test]
fn signatures_have_low_s() {
    let key = key_one();
    for message in [&b"a"[..], b"bb", b"ccc", b"dddd", b"eeeee", b"ffffff"] {
        let bytes = key.sign(message).unwrap().to_bytes();
        assert!(bytes[32..].to_vec() <= hex(HALF_ORDER));
    }
}

#[test]
fn generation_is_determined_by_the_generator_state() {
    let mut first = rand::rngs::StdRng::seed_from_u64(7);
    let mut second = rand::rngs::StdRng::seed_from_u64(7);
    let a = PrivateKey::generate(&mut first).to_bytes();
    let b = PrivateKey::generate(&mut second).to_bytes();
    assert_eq!(a, b);
    assert!(PrivateKey::from_bytes(&a).is_ok());
}

#[test]
fn signing_is_deterministic_and_verifies() {
    let key = key_one();
    let first = key.sign(b"same message").unwrap();
    let second = key.sign(b"same message").unwrap();
    assert_eq!(first, second);
    assert!(key.public_key().verify(b"same message", &first).is_ok());
    assert_ne!(key.sign(b"other message").unwrap(), first);
}

#[test]
fn verification_with_another_key_fails() {
    let mut bytes = [0u8; 32];
    bytes[31] = 2;
    let other = PrivateKey::from_bytes(&bytes).unwrap();
    let signature = key_one().sign(b"message").unwrap();
    assert_eq!(
        other.public_key().verify(b"message", &signature),
        Err(Secp256k1Error::InvalidSignature)
    );
}

#[test]
fn signature_rejects_bad_raw_bytes() {
    assert_eq!(Signature::from_bytes(&[1u8; 63]).err(), Some(Secp256k1Error::InvalidSignature));
    assert_eq!(Signature::from_bytes(&[1u8; 65]).err(), Some(Secp256k1Error::InvalidSignature));
    assert_eq!(Signature::from_bytes(&[0u8; 64]).err(), Some(Secp256k1Error::InvalidSignature));
    let mut r_is_order = hex(ORDER);
    r_is_order.extend([1u8; 32]);
    assert_eq!(Signature::from_bytes(&r_is_order).err(), Some(Secp256k1Error::InvalidSignature));
    let mut valid = vec![1u8; 32];
    valid.extend([2u8; 32]);
    assert_eq!(Signature::from_bytes(&valid).unwrap().to_bytes().to_vec(), valid);
}

#[test]
fn signature_rejects_bad_der() {
    assert_eq!(Signature::from_der(&[]).err(), Some(Secp256k1Error::InvalidSignature));
    assert_eq!(Signature::from_der(&[0x30, 0x00]).err(), Some(Secp256k1Error::InvalidSignature));
}

#[test]
fn signature_der_is_a_sequence_of_two_integers() {
    let mut raw = vec![1u8; 32];
    raw.extend([2u8; 32]);
    let der = Signature::from_bytes(&raw).unwrap().to_der();
    assert_eq!(der[0], 0x30);
    assert_eq!(der[1] as usize, der.len() - 2);
    assert_eq!(der[2], 0x02);
    assert_eq!(Signature::from_der(&der).unwrap().to_bytes().to_vec(), raw);
}

#[test]
fn cloned_keys_are_equal() {
    let key = key_one();
    assert_eq!(key.clone().to_bytes(), key.to_bytes());
    let public_key = key.public_key();
    assert_eq!(public_key.clone(), public_key);
    let signature = key.sign(b"m").unwrap();
    assert_eq!(signature.clone(), signature);
}

#[test]
fn public_keys_are_ordered_by_uncompressed_bytes() {
    let one = key_one().public_key();
    let mut bytes = [0u8; 32];
    bytes[31] = 2;
    let two = PrivateKey::from_bytes(&bytes).unwrap().public_key();
    assert_eq!(one < two, one.to_uncompressed_bytes() < two.to_uncompressed_bytes());
}

#[test]
fn error_messages() {
    assert_eq!(Secp256k1Error::InvalidSignature.message(), "Invalid signature");
    assert_eq!(Secp256k1Error::InvalidPublicKey.message(), "Invalid public key");
    assert_eq!(Secp256k1Error::InvalidPrivateKey.message(), "Invalid private key");
    assert_eq!(Secp256k1Error::InvalidAddress.message(), "Invalid address derivation");
}
