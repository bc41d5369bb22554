//! Mathematical model of secp256k1 keys and signatures as byte strings.
//!
//! Keys and signatures are held by this library as their canonical byte
//! encodings; the predicates here say which byte strings are valid.
use vstd::prelude::*;

verus! {

/// The prime `p` of the field over which secp256k1 is defined.
pub open spec fn field_prime() -> nat {
    0xFFFFFFFF_FFFFFFFF_FFFFFFFF_FFFFFFFF_FFFFFFFF_FFFFFFFF_FFFFFFFE_FFFFFC2Fnat
}

/// The order `n` of the secp256k1 base point.
pub open spec fn group_order() -> nat {
    0xFFFFFFFF_FFFFFFFF_FFFFFFFF_FFFFFFFE_BAAEDCE6_AF48A03B_BFD25E8C_D0364141nat
}

/// The unsigned integer that a byte string denotes, read big-endian.
pub open spec fn be_value(bytes: Seq<u8>) -> nat
    decreases bytes.len(),
{
    if bytes.len() == 0 {
        0
    } else {
        be_value(bytes.drop_last()) * 256 + bytes.last() as nat
    }
}

/// `bytes` denotes a non-zero scalar below the group order.
pub open spec fn is_nonzero_scalar(bytes: Seq<u8>) -> bool {
    0 < be_value(bytes) < group_order()
}

/// The canonical encoding of a secret key: 32 big-endian bytes of a scalar in `1..n`.
pub open spec fn is_secret_key_bytes(bytes: Seq<u8>) -> bool {
    bytes.len() == 32 && is_nonzero_scalar(bytes)
}

/// The byte strings accepted as a secret key: 32 bytes, or at least 24 bytes
/// that are read as if padded with leading zeros, denoting a scalar in `1..n`.
pub open spec fn is_secret_key_slice(bytes: Seq<u8>) -> bool {
    24 <= bytes.len() <= 32 && is_nonzero_scalar(bytes)
}

/// `bytes` padded with leading zeros to 32 bytes.
pub open spec fn left_pad_32(bytes: Seq<u8>) -> Seq<u8>
    recommends
        bytes.len() <= 32,
{
    Seq::new((32 - bytes.len()) as nat, |i: int| 0u8) + bytes
}

/// The x coordinate of an uncompressed point `x || y`.
pub open spec fn point_x(xy: Seq<u8>) -> Seq<u8> {
    xy.subrange(0, 32)
}

/// The y coordinate of an uncompressed point `x || y`.
pub open spec fn point_y(xy: Seq<u8>) -> Seq<u8> {
    xy.subrange(32, 64)
}

/// `x || y` (64 bytes) are the coordinates of a point of secp256k1:
/// both below `p`, and `y^2 = x^3 + 7 (mod p)`.
pub open spec fn is_curve_point(xy: Seq<u8>) -> bool {
    let x = be_value(point_x(xy)) as int;
    let y = be_value(point_y(xy)) as int;
    &&& xy.len() == 64
    &&& x < field_prime()
    &&& y < field_prime()
    &&& (y * y - (x * x * x + 7)) % (field_prime() as int) == 0
}

/// The SEC1 uncompressed encoding of a point: the tag `0x04`, then `x || y`.
pub open spec fn sec1_uncompressed(xy: Seq<u8>) -> Seq<u8> {
    seq![4u8] + xy
}

/// The SEC1 compressed encoding of a point: the tag `0x02` for an even y or
/// `0x03` for an odd y, then x.
pub open spec fn sec1_compressed(xy: Seq<u8>) -> Seq<u8> {
    seq![if xy[63] % 2 == 0 { 2u8 } else { 3u8 }] + point_x(xy)
}

/// The raw encoding of an ECDSA signature `r || s`: 64 bytes, each half a
/// scalar in `1..n`.
pub open spec fn is_signature_bytes(bytes: Seq<u8>) -> bool {
    &&& bytes.len() == 64
    &&& is_nonzero_scalar(bytes.subrange(0, 32))
    &&& is_nonzero_scalar(bytes.subrange(32, 64))
}

/// The `s` half of a raw signature `r || s` is in the lower half of the
/// scalars: `s <= (n - 1) / 2`, the form that Ethereum requires.
pub open spec fn is_low_s(rs: Seq<u8>) -> bool {
    be_value(rs.subrange(32, 64)) <= (group_order() - 1) as nat / 2
}

/// A big-endian byte string without its leading zero bytes (one byte is kept).
pub open spec fn strip_leading_zeros(bytes: Seq<u8>) -> Seq<u8>
    decreases bytes.len(),
{
    if bytes.len() > 1 && bytes[0] == 0 {
        strip_leading_zeros(bytes.drop_first())
    } else {
        bytes
    }
}

/// The content octets of a DER INTEGER holding the unsigned big-endian
/// `bytes`: minimal, with a `0x00` in front where the top bit would be set.
pub open spec fn der_uint_content(bytes: Seq<u8>) -> Seq<u8> {
    let stripped = strip_leading_zeros(bytes);
    if stripped.len() > 0 && stripped[0] >= 0x80 {
        seq![0u8] + stripped
    } else {
        stripped
    }
}

/// The DER INTEGER (tag `0x02`, short-form length) of the unsigned `bytes`.
pub open spec fn der_integer(bytes: Seq<u8>) -> Seq<u8> {
    let content = der_uint_content(bytes);
    seq![2u8, content.len() as u8] + content
}

/// The ASN.1 DER encoding of an ECDSA signature `r || s`:
/// `SEQUENCE { INTEGER r, INTEGER s }` (tag `0x30`, short-form length).
pub open spec fn der_signature_encoding(rs: Seq<u8>) -> Seq<u8> {
    let body = der_integer(rs.subrange(0, 32)) + der_integer(rs.subrange(32, 64));
    seq![0x30u8, body.len() as u8] + body
}

/// Leading zero bytes do not change the value of a big-endian byte string.
pub proof fn lemma_be_value_zero_prefix(k: nat, bytes: Seq<u8>)
    ensures
        be_value(Seq::new(k, |i: int| 0u8) + bytes) == be_value(bytes),
    decreases bytes.len(),
{
    let zeros = Seq::new(k, |i: int| 0u8);
    if bytes.len() == 0 {
        assert(zeros + bytes =~= zeros);
        lemma_be_value_zeros(k);
    } else {
        let whole = zeros + bytes;
        assert(whole.drop_last() =~= zeros + bytes.drop_last());
        assert(whole.last() == bytes.last());
        lemma_be_value_zero_prefix(k, bytes.drop_last());
    }
}

/// A string of zero bytes denotes zero.
pub proof fn lemma_be_value_zeros(k: nat)
    ensures
        be_value(Seq::new(k, |i: int| 0u8)) == 0,
    decreases k,
{
    if k > 0 {
        let zeros = Seq::new(k, |i: int| 0u8);
        assert(zeros.drop_last() =~= Seq::new((k - 1) as nat, |i: int| 0u8));
        lemma_be_value_zeros((k - 1) as nat);
    }
}

/// An 8-byte big-endian string denotes a value below `2^64`.
pub proof fn lemma_be_value_bound(bytes: Seq<u8>)
    requires
        bytes.len() == 8,
    ensures
        be_value(bytes) < 0x1_0000_0000_0000_0000,
{
    lemma_be_value_below_power(bytes);
    reveal_with_fuel(byte_power, 9);
}

/// `256` to the power `k`.
pub open spec fn byte_power(k: nat) -> nat
    decreases k,
{
    if k == 0 {
        1
    } else {
        256 * byte_power((k - 1) as nat)
    }
}

/// Powers of 256 grow with the exponent.
pub proof fn lemma_byte_power_monotone(a: nat, b: nat)
    requires
        a <= b,
    ensures
        byte_power(a) <= byte_power(b),
    decreases b,
{
    if a < b {
        lemma_byte_power_monotone(a, (b - 1) as nat);
    }
}

/// A big-endian string of `k` bytes denotes a value below `256^k`.
pub proof fn lemma_be_value_below_power(bytes: Seq<u8>)
    ensures
        be_value(bytes) < byte_power(bytes.len()),
    decreases bytes.len(),
{
    if bytes.len() > 0 {
        lemma_be_value_below_power(bytes.drop_last());
    }
}

/// The value of a concatenation: the first part shifted past the second.
pub proof fn lemma_be_value_append(s: Seq<u8>, t: Seq<u8>)
    ensures
        be_value(s + t) == be_value(s) * byte_power(t.len()) + be_value(t),
    decreases t.len(),
{
    if t.len() == 0 {
        assert(s + t =~= s);
        assert(be_value(s) * 1 == be_value(s));
    } else {
        let t0 = t.drop_last();
        let st = s + t;
        assert(st.drop_last() =~= s + t0);
        assert(st.last() == t.last());
        lemma_be_value_append(s, t0);
        let bs = be_value(s);
        let p0 = byte_power(t0.len());
        let v0 = be_value(t0);
        let l = t.last() as nat;
        assert(be_value(st) == be_value(s + t0) * 256 + l);
        assert(be_value(t) == v0 * 256 + l);
        assert(byte_power(t.len()) == 256 * p0);
        assert((bs * p0 + v0) * 256 + l == bs * (256 * p0) + (v0 * 256 + l)) by (nonlinear_arith);
    }
}

/// Of two byte strings of one length, the one whose first `k` bytes denote
/// the smaller value denotes the smaller value.
pub proof fn lemma_be_value_prefix_order(a: Seq<u8>, b: Seq<u8>, k: int)
    requires
        a.len() == b.len(),
        0 <= k <= a.len(),
        be_value(a.subrange(0, k)) < be_value(b.subrange(0, k)),
    ensures
        be_value(a) < be_value(b),
{
    let n = a.len() as int;
    assert(a =~= a.subrange(0, k) + a.subrange(k, n));
    assert(b =~= b.subrange(0, k) + b.subrange(k, n));
    lemma_be_value_append(a.subrange(0, k), a.subrange(k, n));
    lemma_be_value_append(b.subrange(0, k), b.subrange(k, n));
    lemma_be_value_below_power(a.subrange(k, n));
    let p = byte_power((n - k) as nat);
    let ha = be_value(a.subrange(0, k));
    let hb = be_value(b.subrange(0, k));
    let ra = be_value(a.subrange(k, n));
    let rb = be_value(b.subrange(k, n));
    assert(ha * p + ra < hb * p + rb) by (nonlinear_arith)
        requires
            ha + 1 <= hb,
            ra < p,
            0 <= rb,
            0 <= p,
    {
        assert((ha + 1) * p <= hb * p);
    }
}

/// Two byte strings of one length that first differ at `i`, where `a` has the
/// smaller byte: `a` denotes the smaller value.
pub proof fn lemma_be_value_first_difference(a: Seq<u8>, b: Seq<u8>, i: int)
    requires
        a.len() == b.len(),
        0 <= i < a.len(),
        a.subrange(0, i) == b.subrange(0, i),
        a[i] < b[i],
    ensures
        be_value(a) < be_value(b),
{
    let pa = a.subrange(0, i + 1);
    let pb = b.subrange(0, i + 1);
    assert(pa.drop_last() =~= a.subrange(0, i));
    assert(pb.drop_last() =~= b.subrange(0, i));
    lemma_be_value_prefix_order(a, b, i + 1);
}

/// Two different byte strings of one length have a first index where they
/// differ.
pub proof fn lemma_first_difference_exists(a: Seq<u8>, b: Seq<u8>) -> (i: int)
    requires
        a.len() == b.len(),
        a != b,
    ensures
        0 <= i < a.len(),
        a.subrange(0, i) == b.subrange(0, i),
        a[i] != b[i],
    decreases a.len(),
{
    let n = a.len() as int;
    if a.len() == 0 {
        assert(a =~= b);
        0
    } else if a.drop_last() == b.drop_last() {
        if a[n - 1] == b[n - 1] {
            assert(a =~= b) by {
                assert forall|j: int| 0 <= j < n implies a[j] == b[j] by {
                    if j < n - 1 {
                        assert(a.drop_last()[j] == b.drop_last()[j]);
                    }
                }
            }
        }
        assert(a.subrange(0, n - 1) =~= a.drop_last());
        assert(b.subrange(0, n - 1) =~= b.drop_last());
        n - 1
    } else {
        let i = lemma_first_difference_exists(a.drop_last(), b.drop_last());
        assert(a.subrange(0, i) =~= a.drop_last().subrange(0, i));
        assert(b.subrange(0, i) =~= b.drop_last().subrange(0, i));
        assert(a.drop_last()[i] == a[i]);
        assert(b.drop_last()[i] == b[i]);
        i
    }
}

} // verus!
