//! Secp256k1 keys and signatures compatible with Ethereum's signing scheme.
//!
//! Messages are hashed with Keccak-256, and the digest itself is the ECDSA
//! message that is signed or verified (low `s`, as Ethereum requires); an address is the last 20 bytes of the Keccak-256 digest of the
//! uncompressed public key (`x || y`).
use vstd::prelude::*;
use vstd::std_specs::cmp::PartialOrdSpecImpl;
use core::cmp::Ordering;
use k256::ecdsa::SigningKey;

use crate::model::{
    der_signature_encoding, is_curve_point, is_low_s, is_secret_key_bytes, is_secret_key_slice,
    is_signature_bytes, left_pad_32, lemma_be_value_zero_prefix, sec1_compressed,
};
use crate::primitives::{
    compress_call, decode_public_key_call, der_signature_decoded, ecdsa_prehash_accepts,
    ecdsa_prehash_signature, from_der_call, keccak256, keccak256_digest, public_point_call,
    sec1_public_point, secp256k1_public_point, secret_key_from_slice_call, sign_prehash_call,
    signature_from_slice_call, to_der_call, verify_prehash_call,
};

verus! {

/// Error types for secp256k1 operations.
#[derive(Debug, Clone, PartialEq, Eq, Structural)]
pub enum Secp256k1Error {
    InvalidSignature,
    InvalidPublicKey,
    InvalidPrivateKey,
    InvalidAddress,
}

/// The message that describes each error.
pub open spec fn error_message(e: Secp256k1Error) -> Seq<char> {
    match e {
        Secp256k1Error::InvalidSignature => "Invalid signature"@,
        Secp256k1Error::InvalidPublicKey => "Invalid public key"@,
        Secp256k1Error::InvalidPrivateKey => "Invalid private key"@,
        Secp256k1Error::InvalidAddress => "Invalid address derivation"@,
    }
}

impl Secp256k1Error {
    /// The human-readable message of this error.
    pub fn message(&self) -> (m: &'static str)
        ensures
            m@ == error_message(*self),
    {
        match self {
            Secp256k1Error::InvalidSignature => "Invalid signature",
            Secp256k1Error::InvalidPublicKey => "Invalid public key",
            Secp256k1Error::InvalidPrivateKey => "Invalid private key",
            Secp256k1Error::InvalidAddress => "Invalid address derivation",
        }
    }
}

/// The Ethereum address of the public point `x || y`: the last 20 bytes of
/// the Keccak-256 digest of the 64 coordinate bytes.
pub open spec fn ethereum_address(xy: Seq<u8>) -> Seq<u8> {
    keccak256_digest(xy).subrange(12, 32)
}

/// The Ethereum address carried by a Keccak-256 digest: its last 20 bytes.
pub fn address_from_digest(digest: &[u8; 32]) -> (address: [u8; 20])
    ensures
        address@ == digest@.subrange(12, 32),
{
    let mut address = [0u8; 20];
    let mut i: usize = 0;
    while i < 20
        invariant
            i <= 20,
            forall|j: int| 0 <= j < i ==> address@[j] == digest@[12 + j],
        decreases 20 - i,
    {
        address[i] = digest[12 + i];
        i = i + 1;
    }
    assert(address@ =~= digest@.subrange(12, 32));
    address
}

/// A signature `sig` made over `data` verifies for the public point `xy`:
/// ECDSA accepts it over the Keccak-256 digest of `data`, taken as the
/// message integer itself (as Ethereum signs).
pub open spec fn signature_verifies(xy: Seq<u8>, data: Seq<u8>, sig: Seq<u8>) -> bool {
    ecdsa_prehash_accepts(xy, keccak256_digest(data), sig)
}

/// The signature that `PrivateKey::sign` makes over `data` with the secret
/// scalar `secret`, or its error: ECDSA over the Keccak-256 digest of `data`.
pub open spec fn signature_of(secret: Seq<u8>, data: Seq<u8>) -> Result<Seq<u8>, Secp256k1Error> {
    match ecdsa_prehash_signature(secret, keccak256_digest(data)) {
        Some(sig) => Ok(sig),
        None => Err(Secp256k1Error::InvalidSignature),
    }
}

/// The key that `PrivateKey::from_bytes` makes of `bytes`, or its error.
pub open spec fn private_key_from_bytes(bytes: Seq<u8>) -> Result<Seq<u8>, Secp256k1Error> {
    if is_secret_key_slice(bytes) {
        Ok(left_pad_32(bytes))
    } else {
        Err(Secp256k1Error::InvalidPrivateKey)
    }
}

/// The key that `PublicKey::from_uncompressed_bytes` makes of `bytes`, or its error.
pub open spec fn public_key_from_uncompressed(bytes: Seq<u8>) -> Result<
    Seq<u8>,
    Secp256k1Error,
> {
    if is_curve_point(bytes) {
        Ok(bytes)
    } else {
        Err(Secp256k1Error::InvalidPublicKey)
    }
}

/// The key that `PublicKey::from_compressed_bytes` makes of `bytes`, or its
/// error: only 33-byte input is taken, and decoded as SEC1.
pub open spec fn public_key_from_compressed(bytes: Seq<u8>) -> Result<Seq<u8>, Secp256k1Error> {
    if bytes.len() != 33 {
        Err(Secp256k1Error::InvalidPublicKey)
    } else {
        match sec1_public_point(bytes) {
            Some(xy) => Ok(xy),
            None => Err(Secp256k1Error::InvalidPublicKey),
        }
    }
}

/// The signature that `Signature::from_bytes` makes of `bytes`, or its error.
pub open spec fn signature_from_raw(bytes: Seq<u8>) -> Result<Seq<u8>, Secp256k1Error> {
    if is_signature_bytes(bytes) {
        Ok(bytes)
    } else {
        Err(Secp256k1Error::InvalidSignature)
    }
}

/// The signature that `Signature::from_der` makes of `bytes`, or its error.
pub open spec fn signature_from_der(bytes: Seq<u8>) -> Result<Seq<u8>, Secp256k1Error> {
    match der_signature_decoded(bytes) {
        Some(sig) => Ok(sig),
        None => Err(Secp256k1Error::InvalidSignature),
    }
}

/// Secp256k1 private key.
pub struct PrivateKey {
    secret: [u8; 32],
}

impl Clone for PrivateKey {
    fn clone(&self) -> (copy: Self)
        ensures
            copy@ == self@,
    {
        proof {
            use_type_invariant(self);
        }
        PrivateKey { secret: self.secret }
    }
}

impl View for PrivateKey {
    type V = Seq<u8>;

    /// The 32 big-endian bytes of the secret scalar.
    closed spec fn view(&self) -> Seq<u8> {
        self.secret@
    }
}

/// The view of a result that holds a key or a signature.
pub open spec fn result_view<T: View<V = Seq<u8>>>(r: Result<T, Secp256k1Error>) -> Result<
    Seq<u8>,
    Secp256k1Error,
> {
    match r {
        Ok(t) => Ok(t@),
        Err(e) => Err(e),
    }
}

impl PrivateKey {
    #[verifier::type_invariant]
    spec fn valid(self) -> bool {
        is_secret_key_bytes(self.secret@)
    }

    /// Create a new private key from bytes.
    pub fn from_bytes(bytes: &[u8]) -> (r: Result<Self, Secp256k1Error>)
        ensures
            result_view(r) == private_key_from_bytes(bytes@),
    {
        match secret_key_from_slice_call(bytes) {
            Some(secret) => {
                proof {
                    lemma_be_value_zero_prefix((32 - bytes@.len()) as nat, bytes@);
                }
                Ok(PrivateKey { secret })
            },
            None => Err(Secp256k1Error::InvalidPrivateKey),
        }
    }

    /// Create a random private key.
    ///
    /// Trusted: calls `k256::ecdsa::SigningKey::random` with `rng` and keeps
    /// the scalar it draws. Claims only that the key is valid, as the source
    /// of `ecdsa` 0.16 shows (`NonZeroScalar::random`); which key it is
    /// depends on the generator.
    #[verifier::external_body]
    pub fn generate<R: rand::CryptoRng + rand::RngCore>(rng: &mut R) -> (key: Self)
        ensures
            is_secret_key_bytes(key@),
    {
        PrivateKey { secret: SigningKey::random(rng).to_bytes().into() }
    }

    /// Get the corresponding public key.
    pub fn public_key(&self) -> (key: PublicKey)
        ensures
            key@ == secp256k1_public_point(self@),
    {
        proof {
            use_type_invariant(self);
        }
        PublicKey { xy: public_point_call(&self.secret) }
    }

    /// Sign a message: the Keccak-256 digest of `data` is signed with ECDSA
    /// (RFC 6979, low `s`) as the message integer itself, as Ethereum signs.
    /// Signing fails, with `InvalidSignature`, only where RFC 6979 yields a
    /// zero `r` or `s`.
    pub fn sign(&self, data: &[u8]) -> (r: Result<Signature, Secp256k1Error>)
        ensures
            result_view(r) == signature_of(self@, data@),
            r matches Ok(sig) ==> {
                &&& signature_verifies(secp256k1_public_point(self@), data@, sig@)
                &&& is_low_s(sig@)
            },
            r matches Ok(sig) ==> ecdsa_prehash_signature(self@, keccak256_digest(data@)) == Some(
                sig@,
            ),
            r is Err <==> ecdsa_prehash_signature(self@, keccak256_digest(data@)) is None,
    {
        proof {
            use_type_invariant(self);
        }
        let hash = keccak256(data);
        match sign_prehash_call(&self.secret, &hash) {
            Some(rs) => Ok(Signature { rs }),
            None => Err(Secp256k1Error::InvalidSignature),
        }
    }

    /// Get the raw bytes of the private key.
    pub fn to_bytes(&self) -> (bytes: [u8; 32])
        ensures
            bytes@ == self@,
            is_secret_key_bytes(bytes@),
    {
        proof {
            use_type_invariant(self);
        }
        self.secret
    }
}

/// Secp256k1 public key.
#[derive(Debug, PartialEq, Eq, Ord)]
pub struct PublicKey {
    xy: [u8; 64],
}

impl Clone for PublicKey {
    fn clone(&self) -> (copy: Self)
        ensures
            copy@ == self@,
    {
        proof {
            use_type_invariant(self);
        }
        PublicKey { xy: self.xy }
    }
}

impl View for PublicKey {
    type V = Seq<u8>;

    /// The coordinates `x || y` of the point, 32 big-endian bytes each.
    closed spec fn view(&self) -> Seq<u8> {
        self.xy@
    }
}

impl PublicKey {
    #[verifier::type_invariant]
    spec fn valid(self) -> bool {
        is_curve_point(self.xy@)
    }

    /// Create a public key from uncompressed bytes (64 bytes: x || y coordinates).
    pub fn from_uncompressed_bytes(bytes: &[u8]) -> (r: Result<Self, Secp256k1Error>)
        ensures
            result_view(r) == public_key_from_uncompressed(bytes@),
    {
        if bytes.len() != 64 {
            return Err(Secp256k1Error::InvalidPublicKey);
        }
        // Add the 0x04 prefix for uncompressed format
        let mut full_bytes: Vec<u8> = Vec::new();
        full_bytes.push(4u8);
        let mut i: usize = 0;
        while i < bytes.len()
            invariant
                i <= bytes@.len(),
                full_bytes@ == seq![4u8] + bytes@.subrange(0, i as int),
            decreases bytes@.len() - i,
        {
            full_bytes.push(bytes[i]);
            i = i + 1;
            assert(full_bytes@ =~= seq![4u8] + bytes@.subrange(0, i as int));
        }
        assert(full_bytes@.drop_first() =~= bytes@);
        match decode_public_key_call(full_bytes.as_slice()) {
            Some(xy) => Ok(PublicKey { xy }),
            None => Err(Secp256k1Error::InvalidPublicKey),
        }
    }

    /// Create a public key from compressed bytes (33 bytes).
    pub fn from_compressed_bytes(bytes: &[u8]) -> (r: Result<Self, Secp256k1Error>)
        ensures
            result_view(r) == public_key_from_compressed(bytes@),
    {
        if bytes.len() != 33 {
            return Err(Secp256k1Error::InvalidPublicKey);
        }
        match decode_public_key_call(bytes) {
            Some(xy) => Ok(PublicKey { xy }),
            None => Err(Secp256k1Error::InvalidPublicKey),
        }
    }

    /// Get the uncompressed bytes (64 bytes: x || y coordinates, no 0x04 prefix).
    pub fn to_uncompressed_bytes(&self) -> (bytes: [u8; 64])
        ensures
            bytes@ == self@,
            is_curve_point(bytes@),
    {
        proof {
            use_type_invariant(self);
        }
        self.xy
    }

    /// Get the compressed bytes (33 bytes).
    pub fn to_compressed_bytes(&self) -> (bytes: [u8; 33])
        ensures
            bytes@ == sec1_compressed(self@),
            public_key_from_compressed(bytes@) == Ok::<Seq<u8>, Secp256k1Error>(self@),
    {
        proof {
            use_type_invariant(self);
        }
        compress_call(&self.xy)
    }

    /// Derive the Ethereum address from the public key:
    /// `keccak256(x || y)[12..32]` (the last 20 bytes).
    pub fn to_ethereum_address(&self) -> (address: [u8; 20])
        ensures
            address@ == ethereum_address(self@),
            address@ == keccak256_digest(self@).subrange(12, 32),
    {
        let hash = keccak256(&self.xy);
        address_from_digest(&hash)
    }

    /// Verify a signature over the Keccak-256 digest of `data`, taken as the
    /// message integer itself.
    pub fn verify(&self, data: &[u8], signature: &Signature) -> (r: Result<(), Secp256k1Error>)
        ensures
            r is Ok <==> signature_verifies(self@, data@, signature@),
            r is Ok <==> ecdsa_prehash_accepts(self@, keccak256_digest(data@), signature@),
            r matches Err(e) ==> e == Secp256k1Error::InvalidSignature,
    {
        proof {
            use_type_invariant(self);
            use_type_invariant(signature);
        }
        let hash = keccak256(data);
        if verify_prehash_call(&self.xy, &hash, &signature.rs) {
            Ok(())
        } else {
            Err(Secp256k1Error::InvalidSignature)
        }
    }

    /// Get raw bytes (uncompressed format for compatibility).
    pub fn as_bytes(&self) -> (bytes: [u8; 64])
        ensures
            bytes@ == self@,
            is_curve_point(bytes@),
    {
        self.to_uncompressed_bytes()
    }
}

/// `a` comes before `b` in the lexicographic order of bytes: they agree up to
/// some index where the byte of `a` is smaller.
pub open spec fn bytes_less(a: Seq<u8>, b: Seq<u8>) -> bool {
    exists|i: int|
        #![trigger a[i], b[i]]
        0 <= i < a.len() && i < b.len() && a.subrange(0, i) == b.subrange(0, i) && a[i] < b[i]
}

/// The order of public keys: that of their uncompressed encodings, byte by byte.
pub open spec fn public_key_order(a: Seq<u8>, b: Seq<u8>) -> Option<Ordering> {
    if a == b {
        Some(Ordering::Equal)
    } else if bytes_less(a, b) {
        Some(Ordering::Less)
    } else {
        Some(Ordering::Greater)
    }
}

/// The index of the first byte where `a` and `b` differ, or 64 where they are equal.
fn first_difference(a: &[u8; 64], b: &[u8; 64]) -> (i: usize)
    ensures
        i <= 64,
        a@.subrange(0, i as int) == b@.subrange(0, i as int),
        i < 64 ==> a@[i as int] != b@[i as int],
{
    let mut i: usize = 0;
    while i < 64
        invariant
            i <= 64,
            a@.len() == 64,
            b@.len() == 64,
            a@.subrange(0, i as int) == b@.subrange(0, i as int),
        decreases 64 - i,
    {
        if a[i] != b[i] {
            return i;
        }
        assert(a@.subrange(0, i + 1) =~= a@.subrange(0, i as int).push(a@[i as int]));
        assert(b@.subrange(0, i + 1) =~= b@.subrange(0, i as int).push(b@[i as int]));
        i = i + 1;
    }
    i
}

/// What the first difference of two 64-byte strings says of their order.
proof fn lemma_first_difference_order(a: Seq<u8>, b: Seq<u8>, i: usize)
    requires
        a.len() == 64,
        b.len() == 64,
        i <= 64,
        a.subrange(0, i as int) == b.subrange(0, i as int),
        i < 64 ==> a[i as int] != b[i as int],
    ensures
        i == 64 ==> a == b,
        i < 64 ==> a != b,
        i < 64 && a[i as int] < b[i as int] ==> bytes_less(a, b),
        i < 64 && a[i as int] > b[i as int] ==> !bytes_less(a, b),
{
    if i == 64 {
        assert(a =~= a.subrange(0, 64));
        assert(b =~= b.subrange(0, 64));
    } else {
        let k = i as int;
        if a[k] < b[k] {
            assert(a.subrange(0, k) == b.subrange(0, k));
        }
        if a[k] > b[k] {
            assert forall|j: int|
                0 <= j < a.len() && j < b.len() && a.subrange(0, j) == b.subrange(0, j) implies !(
            a[j] < b[j]) by {
                if j < k {
                    assert(a.subrange(0, k)[j] == a[j]);
                    assert(b.subrange(0, k)[j] == b[j]);
                } else if j > k {
                    assert(a.subrange(0, j)[k] == a[k]);
                    assert(b.subrange(0, j)[k] == b[k]);
                }
            }
        }
    }
}

impl PartialOrd for PublicKey {
    fn partial_cmp(&self, other: &Self) -> (r: Option<Ordering>) {
        let i = first_difference(&self.xy, &other.xy);
        proof {
            lemma_first_difference_order(self.xy@, other.xy@, i);
        }
        if i == 64 {
            Some(Ordering::Equal)
        } else if self.xy[i] < other.xy[i] {
            Some(Ordering::Less)
        } else {
            Some(Ordering::Greater)
        }
    }
}

impl PartialOrdSpecImpl for PublicKey {
    open spec fn obeys_partial_cmp_spec() -> bool {
        true
    }

    open spec fn partial_cmp_spec(&self, other: &Self) -> Option<Ordering> {
        public_key_order(self@, other@)
    }
}

/// Secp256k1 signature.
#[derive(Debug, PartialEq, Eq)]
pub struct Signature {
    rs: [u8; 64],
}

impl Clone for Signature {
    fn clone(&self) -> (copy: Self)
        ensures
            copy@ == self@,
    {
        proof {
            use_type_invariant(self);
        }
        Signature { rs: self.rs }
    }
}

impl View for Signature {
    type V = Seq<u8>;

    /// The raw signature `r || s`, 32 big-endian bytes each.
    closed spec fn view(&self) -> Seq<u8> {
        self.rs@
    }
}

impl Signature {
    #[verifier::type_invariant]
    spec fn valid(self) -> bool {
        is_signature_bytes(self.rs@)
    }

    /// Create a signature from DER bytes.
    pub fn from_der(bytes: &[u8]) -> (r: Result<Self, Secp256k1Error>)
        ensures
            result_view(r) == signature_from_der(bytes@),
    {
        match from_der_call(bytes) {
            Some(rs) => Ok(Signature { rs }),
            None => Err(Secp256k1Error::InvalidSignature),
        }
    }

    /// Get the DER encoding of the signature.
    pub fn to_der(&self) -> (der: Vec<u8>)
        ensures
            der@ == der_signature_encoding(self@),
            signature_from_der(der@) == Ok::<Seq<u8>, Secp256k1Error>(self@),
    {
        proof {
            use_type_invariant(self);
        }
        to_der_call(&self.rs)
    }

    /// Get raw bytes (r || s, 64 bytes).
    pub fn to_bytes(&self) -> (bytes: [u8; 64])
        ensures
            bytes@ == self@,
            is_signature_bytes(bytes@),
    {
        proof {
            use_type_invariant(self);
        }
        self.rs
    }

    /// Create from raw bytes (r || s, 64 bytes).
    pub fn from_bytes(bytes: &[u8]) -> (r: Result<Self, Secp256k1Error>)
        ensures
            result_view(r) == signature_from_raw(bytes@),
    {
        if bytes.len() != 64 {
            return Err(Secp256k1Error::InvalidSignature);
        }
        match signature_from_slice_call(bytes) {
            Some(rs) => Ok(Signature { rs }),
            None => Err(Secp256k1Error::InvalidSignature),
        }
    }
}

} // verus!
