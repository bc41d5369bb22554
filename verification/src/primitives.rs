//! The calls into `k256`, `sha3` and `rand` that the key types make.
//!
//! Every item here is trusted: Verus believes the contracts below without
//! proof. Each doc comment names the outside function and says what its
//! contract claims of it.
use vstd::prelude::*;

use crate::model::{
    der_signature_encoding, is_curve_point, is_low_s, is_secret_key_bytes, is_secret_key_slice,
    is_signature_bytes, left_pad_32, sec1_compressed,
};
use k256::ecdsa::{Signature as EcdsaSignature, SigningKey, VerifyingKey};
use k256::elliptic_curve::sec1::ToEncodedPoint;
use k256::{EncodedPoint, FieldBytes, PublicKey as K256PublicKey, SecretKey as K256SecretKey};
use sha3::{Digest, Keccak256};
use signature::hazmat::{PrehashSigner, PrehashVerifier};

verus! {

/// The Keccak-256 digest of `data`, as `sha3::Keccak256` computes it.
pub uninterp spec fn keccak256_digest(data: Seq<u8>) -> Seq<u8>;

/// The uncompressed public point `x || y` of the secret scalar `secret`, as
/// `k256::ecdsa::SigningKey::verifying_key` computes it.
pub uninterp spec fn secp256k1_public_point(secret: Seq<u8>) -> Seq<u8>;

/// The signature `r || s` that `k256::ecdsa::SigningKey::sign_prehash`
/// (RFC 6979, low `s`) makes with the secret scalar `secret` over the 32-byte
/// message digest `prehash`, taken as the ECDSA integer `z` itself; or `None`
/// where it fails (RFC 6979 yielding a zero `r` or `s`).
pub uninterp spec fn ecdsa_prehash_signature(secret: Seq<u8>, prehash: Seq<u8>) -> Option<Seq<u8>>;

/// Whether `k256::ecdsa::VerifyingKey::verify_prehash` accepts the signature
/// `sig` over the 32-byte message digest `prehash` for the public point `public`.
pub uninterp spec fn ecdsa_prehash_accepts(public: Seq<u8>, prehash: Seq<u8>, sig: Seq<u8>) -> bool;

/// The point `x || y` that `k256::PublicKey::from_sec1_bytes` decodes from
/// `encoded`, or `None` where it refuses it.
pub uninterp spec fn sec1_public_point(encoded: Seq<u8>) -> Option<Seq<u8>>;

/// The signature `r || s` that `k256::ecdsa::Signature::from_der` decodes
/// from `der`, or `None` where it refuses it.
pub uninterp spec fn der_signature_decoded(der: Seq<u8>) -> Option<Seq<u8>>;

/// Calls `sha3::Keccak256::digest`; claims only that the 32 bytes returned are
/// the Keccak-256 digest of `data`.
#[verifier::external_body]
pub(crate) fn keccak256(data: &[u8]) -> (digest: [u8; 32])
    ensures
        digest@ == keccak256_digest(data@),
{
    Keccak256::digest(data).into()
}

/// Calls `k256::SecretKey::from_slice`, and reads the key back with
/// `SigningKey::to_bytes`. Claims what the source of `elliptic-curve` 0.13
/// shows: the slice is accepted exactly when it has 32 bytes, or 24 to 31
/// bytes taken as if padded with leading zeros, and denotes a big-endian
/// scalar in `1..n`; the key read back is that scalar as 32 bytes.
#[verifier::external_body]
pub(crate) fn secret_key_from_slice_call(bytes: &[u8]) -> (key: Option<[u8; 32]>)
    ensures
        key is Some <==> is_secret_key_slice(bytes@),
        key matches Some(k) ==> k@ == left_pad_32(bytes@),
{
    match K256SecretKey::from_slice(bytes) {
        Ok(secret) => Some(SigningKey::from(secret).to_bytes().into()),
        Err(_) => None,
    }
}

/// Calls `k256::ecdsa::SigningKey::verifying_key` and encodes the point with
/// `to_encoded_point(false)`, dropping the tag byte. Claims that the result
/// is the named public point of `secret` and lies on the curve (the product of
/// a scalar in `1..n` and the base point is never the identity).
#[verifier::external_body]
pub(crate) fn public_point_call(secret: &[u8; 32]) -> (xy: [u8; 64])
    requires
        is_secret_key_bytes(secret@),
    ensures
        xy@ == secp256k1_public_point(secret@),
        is_curve_point(xy@),
{
    let key = SigningKey::from_bytes(&FieldBytes::from(*secret)).unwrap();
    let encoded = key.verifying_key().to_encoded_point(false);
    let mut xy = [0u8; 64];
    xy.copy_from_slice(&encoded.as_bytes()[1..]);
    xy
}

/// Calls `hazmat::PrehashSigner::sign_prehash` on `k256::ecdsa::SigningKey`
/// and reads a signature with `to_bytes`. Claims that the result is the named
/// one; and, as the source of `ecdsa` 0.16 and `k256` 0.13 shows, that a
/// signature made has halves that are scalars in `1..n`, has a low `s`
/// (`k256` normalizes it), and is accepted by `VerifyingKey::verify_prehash`
/// for the public point of the same key over the same digest.
#[verifier::external_body]
pub(crate) fn sign_prehash_call(secret: &[u8; 32], prehash: &[u8; 32]) -> (sig: Option<[u8; 64]>)
    requires
        is_secret_key_bytes(secret@),
    ensures
        ecdsa_prehash_signature(secret@, prehash@) == (match sig {
            Some(s) => Some(s@),
            None => None,
        }),
        sig matches Some(s) ==> {
            &&& is_signature_bytes(s@)
            &&& is_low_s(s@)
            &&& ecdsa_prehash_accepts(secp256k1_public_point(secret@), prehash@, s@)
        },
{
    let key = SigningKey::from_bytes(&FieldBytes::from(*secret)).unwrap();
    match PrehashSigner::<EcdsaSignature>::sign_prehash(&key, prehash) {
        Ok(sig) => Some(sig.to_bytes().into()),
        Err(_) => None,
    }
}

/// Calls `hazmat::PrehashVerifier::verify_prehash` on
/// `k256::ecdsa::VerifyingKey`, the key built from the coordinates with
/// `EncodedPoint::from_affine_coordinates` and the signature with
/// `Signature::from_slice`. Claims that the answer is the named one.
#[verifier::external_body]
pub(crate) fn verify_prehash_call(xy: &[u8; 64], prehash: &[u8; 32], sig: &[u8; 64]) -> (accepted: bool)
    requires
        is_curve_point(xy@),
        is_signature_bytes(sig@),
    ensures
        accepted == ecdsa_prehash_accepts(xy@, prehash@, sig@),
{
    let point = EncodedPoint::from_affine_coordinates(
        FieldBytes::from_slice(&xy[..32]),
        FieldBytes::from_slice(&xy[32..]),
        false,
    );
    let key = VerifyingKey::from_encoded_point(&point).unwrap();
    let sig = EcdsaSignature::from_slice(sig).unwrap();
    key.verify_prehash(prehash, &sig).is_ok()
}

/// Calls `k256::PublicKey::from_sec1_bytes` and encodes an accepted point with
/// `to_encoded_point(false)`, dropping the tag byte. Claims that the result is
/// the named decoding; that an accepted point lies on the curve; and, as the
/// source of `k256` 0.13 shows for the uncompressed form (`0x04 || x || y`),
/// that such an input is accepted exactly when `x || y` is a curve point, and
/// then decodes to `x || y` itself.
#[verifier::external_body]
pub(crate) fn decode_public_key_call(encoded: &[u8]) -> (xy: Option<[u8; 64]>)
    ensures
        sec1_public_point(encoded@) == (match xy {
            Some(p) => Some(p@),
            None => None,
        }),
        xy matches Some(p) ==> is_curve_point(p@),
        encoded@.len() == 65 && encoded@[0] == 4u8 ==> {
            &&& (xy is Some <==> is_curve_point(encoded@.drop_first()))
            &&& (xy matches Some(p) ==> p@ == encoded@.drop_first())
        },
{
    match K256PublicKey::from_sec1_bytes(encoded) {
        Ok(key) => {
            let mut xy = [0u8; 64];
            xy.copy_from_slice(&key.to_encoded_point(false).as_bytes()[1..]);
            Some(xy)
        },
        Err(_) => None,
    }
}

/// Calls `k256::PublicKey::to_encoded_point(true)` on the point with the given
/// coordinates. Claims the SEC1 compressed form that `sec1::EncodedPoint`
/// writes (tag `0x02` or `0x03` by the parity of y, then x), and that
/// `PublicKey::from_sec1_bytes` decodes it back to the same point.
#[verifier::external_body]
pub(crate) fn compress_call(xy: &[u8; 64]) -> (compressed: [u8; 33])
    requires
        is_curve_point(xy@),
    ensures
        compressed@ == sec1_compressed(xy@),
        sec1_public_point(compressed@) == Some(xy@),
{
    let point = EncodedPoint::from_affine_coordinates(
        FieldBytes::from_slice(&xy[..32]),
        FieldBytes::from_slice(&xy[32..]),
        false,
    );
    let key = K256PublicKey::from_sec1_bytes(point.as_bytes()).unwrap();
    let mut compressed = [0u8; 33];
    compressed.copy_from_slice(key.to_encoded_point(true).as_bytes());
    compressed
}

/// Calls `k256::ecdsa::Signature::from_slice` and reads an accepted signature
/// with `to_bytes`. Claims what the source of `ecdsa` 0.16 shows: the slice is
/// accepted exactly when it has 64 bytes whose halves are scalars in `1..n`,
/// and is then read back unchanged.
#[verifier::external_body]
pub(crate) fn signature_from_slice_call(bytes: &[u8]) -> (sig: Option<[u8; 64]>)
    ensures
        sig is Some <==> is_signature_bytes(bytes@),
        sig matches Some(s) ==> s@ == bytes@,
{
    match EcdsaSignature::from_slice(bytes) {
        Ok(sig) => Some(sig.to_bytes().into()),
        Err(_) => None,
    }
}

/// Calls `k256::ecdsa::Signature::to_der`. Claims the encoding that
/// `der::Signature::from_components` writes (a SEQUENCE of two minimal DER
/// INTEGERs, `der` 0.7 `UintRef`), and that `Signature::from_der` decodes it
/// back to the same signature.
#[verifier::external_body]
pub(crate) fn to_der_call(sig: &[u8; 64]) -> (der: Vec<u8>)
    requires
        is_signature_bytes(sig@),
    ensures
        der@ == der_signature_encoding(sig@),
        der_signature_decoded(der@) == Some(sig@),
{
    EcdsaSignature::from_slice(sig).unwrap().to_der().as_bytes().to_vec()
}

/// Calls `k256::ecdsa::Signature::from_der` and reads an accepted signature
/// with `to_bytes`. Claims that the result is the named decoding and that an
/// accepted signature has halves that are scalars in `1..n` (it is built with
/// `Signature::from_scalars`).
#[verifier::external_body]
pub(crate) fn from_der_call(der: &[u8]) -> (sig: Option<[u8; 64]>)
    ensures
        der_signature_decoded(der@) == (match sig {
            Some(s) => Some(s@),
            None => None,
        }),
        sig matches Some(s) ==> is_signature_bytes(s@),
{
    match EcdsaSignature::from_der(der) {
        Ok(sig) => Some(sig.to_bytes().into()),
        Err(_) => None,
    }
}

/// Calls `String::push`; claims, as its documentation says, that `c` is
/// appended to the end of `s`.
#[verifier::external_body]
pub(crate) fn push_char(s: &mut String, c: char)
    ensures
        final(s)@ == old(s)@.push(c),
{
    s.push(c);
}

} // verus!
