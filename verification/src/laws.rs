//! Properties that relate the operations on keys and signatures.
use vstd::prelude::*;
use core::cmp::Ordering;

use crate::abi::{
    abi_array, abi_entry_decodes, abi_validator_set, address_text, hex_decode, hex_digit_value,
    lower_hex, lower_hex_digit, ascii_bytes, is_lower_hex_char,
};
use crate::primitives::{ecdsa_prehash_accepts, ecdsa_prehash_signature, keccak256_digest};
use crate::staking::{validators_match, StakingValidator};
use crate::keys::{
    bytes_less, ethereum_address, public_key_order, signature_of, signature_verifies,
    private_key_from_bytes, public_key_from_uncompressed, signature_from_raw, Secp256k1Error,
};
use crate::model::{
    is_curve_point, is_secret_key_bytes, is_secret_key_slice, is_signature_bytes, left_pad_32,
    be_value, lemma_be_value_bound, lemma_be_value_first_difference, lemma_be_value_prefix_order,
    lemma_be_value_zero_prefix, lemma_first_difference_exists, point_x,
};

verus! {

/// The bytes of a private key give back the same key: `PrivateKey::from_bytes`
/// accepts what `PrivateKey::to_bytes` returns and rebuilds the same scalar.
pub proof fn law_private_key_bytes_round_trip(secret: Seq<u8>)
    requires
        is_secret_key_bytes(secret),
    ensures
        private_key_from_bytes(secret) == Ok::<Seq<u8>, Secp256k1Error>(secret),
{
    assert(left_pad_32(secret) =~= secret);
}

/// A short secret key is the same key as its zero-padded 32-byte form:
/// `PrivateKey::from_bytes` gives the same answer on both.
pub proof fn law_private_key_left_padding(bytes: Seq<u8>)
    requires
        24 <= bytes.len() <= 32,
    ensures
        private_key_from_bytes(left_pad_32(bytes)) == private_key_from_bytes(bytes),
{
    lemma_be_value_zero_prefix((32 - bytes.len()) as nat, bytes);
    let padded = left_pad_32(bytes);
    assert(padded.len() == 32);
    assert(left_pad_32(padded) =~= padded);
    assert(is_secret_key_slice(padded) == is_secret_key_slice(bytes));
}

/// A private key is refused, with `InvalidPrivateKey`, unless it has 24 to 32 bytes.
pub proof fn law_private_key_length(bytes: Seq<u8>)
    requires
        bytes.len() < 24 || bytes.len() > 32,
    ensures
        private_key_from_bytes(bytes) == Err::<Seq<u8>, Secp256k1Error>(
            Secp256k1Error::InvalidPrivateKey,
        ),
{
}

/// The uncompressed bytes of a public key give back the same key:
/// `PublicKey::from_uncompressed_bytes` accepts what
/// `PublicKey::to_uncompressed_bytes` returns.
pub proof fn law_public_key_uncompressed_round_trip(xy: Seq<u8>)
    requires
        is_curve_point(xy),
    ensures
        public_key_from_uncompressed(xy) == Ok::<Seq<u8>, Secp256k1Error>(xy),
{
}

/// A public key in uncompressed form is refused, with `InvalidPublicKey`,
/// unless it has exactly 64 bytes.
pub proof fn law_public_key_uncompressed_length(bytes: Seq<u8>)
    requires
        bytes.len() != 64,
    ensures
        public_key_from_uncompressed(bytes) == Err::<Seq<u8>, Secp256k1Error>(
            Secp256k1Error::InvalidPublicKey,
        ),
{
}

/// The raw bytes of a signature give back the same signature:
/// `Signature::from_bytes` accepts what `Signature::to_bytes` returns.
pub proof fn law_signature_bytes_round_trip(rs: Seq<u8>)
    requires
        is_signature_bytes(rs),
    ensures
        signature_from_raw(rs) == Ok::<Seq<u8>, Secp256k1Error>(rs),
{
}

/// A raw signature is refused, with `InvalidSignature`, unless it has exactly 64 bytes.
pub proof fn law_signature_length(bytes: Seq<u8>)
    requires
        bytes.len() != 64,
    ensures
        signature_from_raw(bytes) == Err::<Seq<u8>, Secp256k1Error>(
            Secp256k1Error::InvalidSignature,
        ),
{
}

/// Every validator that a validator-set encoding holds has a 64-byte public
/// key, a power that fits in 64 bits and a 20-byte address.
pub proof fn law_decoded_validator_shapes(d: Seq<u8>)
    ensures
        abi_validator_set(d) matches Some(vs) ==> forall|i: int|
            0 <= i < vs.len() ==> {
                &&& (#[trigger] vs[i]).0.len() == 64
                &&& vs[i].1 < 0x1_0000_0000_0000_0000
                &&& vs[i].2.len() == 20
            },
{
    reveal(abi_validator_set);
    if let Some(vs) = abi_validator_set(d) {
        assert forall|i: int| 0 <= i < vs.len() implies {
            &&& (#[trigger] vs[i]).0.len() == 64
            &&& vs[i].1 < 0x1_0000_0000_0000_0000
            &&& vs[i].2.len() == 20
        } by {
            let p = abi_array(d, 0).unwrap();
            let w = abi_array(d, 1).unwrap();
            let a = abi_array(d, 2).unwrap();
            assert(abi_entry_decodes(d, p.0, w.0, a.0, i));
            lemma_be_value_bound(d.subrange(w.0 + 32 * i + 24, w.0 + 32 * i + 32));
        }
    }
}

/// Signing hashes the whole message: the signature `PrivateKey::sign` makes
/// over `data` is the ECDSA signature over the Keccak-256 digest of all of
/// `data`, whatever its length, and signing fails exactly where that ECDSA
/// signing fails.
pub proof fn law_sign_hashes_whole_message(secret: Seq<u8>, data: Seq<u8>)
    ensures
        signature_of(secret, data) matches Ok(sig) ==> ecdsa_prehash_signature(
            secret,
            keccak256_digest(data),
        ) == Some(sig),
        signature_of(secret, data) is Err <==> ecdsa_prehash_signature(
            secret,
            keccak256_digest(data),
        ) is None,
{
}

/// Verification hashes the whole message: a signature verifies over `data`
/// exactly where ECDSA accepts it over the Keccak-256 digest of all of `data`,
/// whatever its length.
pub proof fn law_verify_hashes_whole_message(xy: Seq<u8>, data: Seq<u8>, sig: Seq<u8>)
    ensures
        signature_verifies(xy, data, sig) == ecdsa_prehash_accepts(xy, keccak256_digest(data), sig),
{
}

/// The Ethereum address of a public key is the last 20 bytes of the
/// Keccak-256 digest of its 64 coordinate bytes `x || y` (no SEC1 tag), for
/// every key.
pub proof fn law_address_is_digest_of_coordinates(xy: Seq<u8>)
    ensures
        ethereum_address(xy) == keccak256_digest(xy).subrange(12, 32),
{
}

/// Of two byte strings of one length, the one that comes first byte by byte
/// is the one that denotes the smaller number.
pub proof fn lemma_bytes_less_is_numeric(a: Seq<u8>, b: Seq<u8>)
    requires
        a.len() == b.len(),
    ensures
        bytes_less(a, b) <==> be_value(a) < be_value(b),
        a != b ==> bytes_less(a, b) || bytes_less(b, a),
{
    if bytes_less(a, b) {
        let i = choose|i: int|
            #![trigger a[i], b[i]]
            0 <= i < a.len() && i < b.len() && a.subrange(0, i) == b.subrange(0, i) && a[i] < b[i];
        lemma_be_value_first_difference(a, b, i);
    } else if a != b {
        let i = lemma_first_difference_exists(a, b);
        if a[i] < b[i] {
            assert(bytes_less(a, b));
        }
        assert(b.subrange(0, i) == a.subrange(0, i));
        assert(b[i] < a[i]);
        assert(bytes_less(b, a));
        lemma_be_value_first_difference(b, a, i);
    }
}

/// Public keys are ordered by the number that their 64 uncompressed bytes
/// `x || y` denote, read big-endian: so by x first, and by y between keys of
/// one x.
pub proof fn law_public_key_order_is_numeric(a: Seq<u8>, b: Seq<u8>)
    requires
        a.len() == 64,
        b.len() == 64,
    ensures
        public_key_order(a, b) == Some(Ordering::Less) <==> be_value(a) < be_value(b),
        public_key_order(a, b) == Some(Ordering::Equal) <==> a == b,
        public_key_order(a, b) == Some(Ordering::Greater) <==> be_value(b) < be_value(a),
        be_value(point_x(a)) < be_value(point_x(b)) ==> public_key_order(a, b) == Some(
            Ordering::Less,
        ),
{
    lemma_bytes_less_is_numeric(a, b);
    lemma_bytes_less_is_numeric(b, a);
    if be_value(point_x(a)) < be_value(point_x(b)) {
        lemma_be_value_prefix_order(a, b, 32);
    }
}

/// A lower-case hex digit is read back as the value it was written for.
proof fn lemma_lower_hex_digit_round_trip(n: nat)
    requires
        n < 16,
    ensures
        is_lower_hex_char(lower_hex_digit(n)),
        hex_digit_value(lower_hex_digit(n) as u8) == Some(n),
{
}

/// The text of an address is `0x` followed by two lower-case hex digits for
/// each byte of the address (high digit first), so 42 characters for a
/// 20-byte address; reading those digits back as hex gives back the address
/// bytes.
pub proof fn law_address_text_is_hex_of_address(address: Seq<u8>)
    ensures
        address_text(address).len() == 2 + 2 * address.len(),
        address_text(address)[0] == '0',
        address_text(address)[1] == 'x',
        forall|j: int|
            2 <= j < address_text(address).len() ==> is_lower_hex_char(
                #[trigger] address_text(address)[j],
            ),
        hex_decode(ascii_bytes(address_text(address), 2)) == Some(address),
{
    let text = address_text(address);
    let digits = ascii_bytes(text, 2);
    let hex = lower_hex(address);
    assert(text =~= seq!['0', 'x'] + hex);
    assert forall|j: int| 0 <= j < hex.len() implies {
        &&& is_lower_hex_char(#[trigger] hex[j])
        &&& hex_digit_value(hex[j] as u8) == Some(
            if j % 2 == 0 {
                (address[j / 2] / 16) as nat
            } else {
                (address[j / 2] % 16) as nat
            },
        )
    } by {
        if j % 2 == 0 {
            lemma_lower_hex_digit_round_trip((address[j / 2] / 16) as nat);
        } else {
            lemma_lower_hex_digit_round_trip((address[j / 2] % 16) as nat);
        }
    }
    assert forall|j: int| 2 <= j < text.len() implies is_lower_hex_char(#[trigger] text[j]) by {
        assert(text[j] == hex[j - 2]);
    }
    assert forall|j: int| 0 <= j < digits.len() implies #[trigger] hex_digit_value(digits[j])
        is Some by {
        assert(digits[j] == hex[j] as u8);
    }
    assert forall|i: int| 0 <= i < address.len() implies hex_decode(digits).unwrap()[i]
        == address[i] by {
        assert(digits[2 * i] == hex[2 * i] as u8);
        assert(digits[2 * i + 1] == hex[2 * i + 1] as u8);
        assert((2 * i) / 2 == i && (2 * i) % 2 == 0);
        assert((2 * i + 1) / 2 == i && (2 * i + 1) % 2 == 1);
        let hi = (address[i] / 16) as nat;
        let lo = (address[i] % 16) as nat;
        assert(hi * 16 + lo == address[i]);
    }
    assert(hex_decode(digits).unwrap() =~= address);
}

/// Every validator read from a reply carries its address as `0x` and 40
/// lower-case hex digits, which read back as the 20 bytes of the
/// corresponding `address[]` entry.
pub proof fn law_decoded_addresses_are_hex(
    validators: Seq<StakingValidator>,
    d: Seq<u8>,
)
    requires
        abi_validator_set(d) is Some,
        validators_match(validators, abi_validator_set(d).unwrap()),
    ensures
        forall|i: int|
            0 <= i < validators.len() ==> {
                &&& (#[trigger] validators[i]).address@.len() == 42
                &&& hex_decode(ascii_bytes(validators[i].address@, 2)) == Some(
                    abi_validator_set(d).unwrap()[i].2,
                )
            },
{
    let vs = abi_validator_set(d).unwrap();
    law_decoded_validator_shapes(d);
    assert forall|i: int| 0 <= i < validators.len() implies {
        &&& (#[trigger] validators[i]).address@.len() == 42
        &&& hex_decode(ascii_bytes(validators[i].address@, 2)) == Some(vs[i].2)
    } by {
        assert(validators[i].pubkey@ == vs[i].0);
        law_address_text_is_hex_of_address(vs[i].2);
    }
}

} // verus!
