//! The hex text of an `eth_call` reply, and the Solidity ABI encoding of the
//! tuple `(bytes[] pubkeys, uint64[] powers, address[] addresses)` that the
//! staking contract's validator-set getters return.
//!
//! Offsets and lengths are 32-byte big-endian words; the decoder takes those
//! whose value fits in 64 bits (their first 24 bytes are zero), which every
//! offset or length within a reply does.
use vstd::prelude::*;

use crate::model::{be_value, byte_power, lemma_byte_power_monotone};
use crate::primitives::push_char;

verus! {

/// The value of an ASCII hex digit (`0-9`, `a-f`, `A-F`), or `None`.
pub open spec fn hex_digit_value(c: u8) -> Option<nat> {
    if 0x30 <= c <= 0x39 {
        Some((c - 0x30) as nat)
    } else if 0x61 <= c <= 0x66 {
        Some((c - 0x61 + 10) as nat)
    } else if 0x41 <= c <= 0x46 {
        Some((c - 0x41 + 10) as nat)
    } else {
        None
    }
}

/// The byte written by the two hex digits at `2 * i` and `2 * i + 1` of `text`.
pub open spec fn hex_pair(text: Seq<u8>, i: int) -> u8 {
    (hex_digit_value(text[2 * i]).unwrap() * 16 + hex_digit_value(text[2 * i + 1]).unwrap()) as u8
}

/// The bytes that a string of hex digits writes, two digits a byte (high
/// digit first), or `None` where its length is odd or a character is not a
/// hex digit.
pub open spec fn hex_decode(text: Seq<u8>) -> Option<Seq<u8>> {
    if text.len() % 2 == 0 && (forall|i: int|
        0 <= i < text.len() ==> #[trigger] hex_digit_value(text[i]) is Some) {
        Some(Seq::new(text.len() / 2, |i: int| hex_pair(text, i)))
    } else {
        None
    }
}

/// The lower-case hex digit of a value below 16.
pub open spec fn lower_hex_digit(n: nat) -> char {
    if n < 10 {
        (48 + n) as char
    } else {
        (87 + n) as char
    }
}

/// The lower-case hex text of `bytes`, two digits a byte (high digit first).
pub open spec fn lower_hex(bytes: Seq<u8>) -> Seq<char> {
    Seq::new(
        2 * bytes.len(),
        |j: int|
            lower_hex_digit(
                if j % 2 == 0 {
                    (bytes[j / 2] / 16) as nat
                } else {
                    (bytes[j / 2] % 16) as nat
                },
            ),
    )
}

/// The text of an Ethereum address: `0x` and its 20 bytes in lower-case hex.
pub open spec fn address_text(address: Seq<u8>) -> Seq<char> {
    seq!['0', 'x'] + lower_hex(address)
}

/// A character that is a lower-case hex digit: `0-9` or `a-f`.
pub open spec fn is_lower_hex_char(c: char) -> bool {
    (48 <= c as int <= 57) || (97 <= c as int <= 102)
}

/// The characters of `text` from `from` on, as bytes.
pub open spec fn ascii_bytes(text: Seq<char>, from: int) -> Seq<u8> {
    Seq::new((text.len() - from) as nat, |j: int| text[from + j] as u8)
}

/// The value of the 32-byte word at byte `off` of `d` where it fits in 64
/// bits (its first 24 bytes are zero); `None` where the word is not all
/// inside `d` or does not fit.
pub open spec fn abi_u64(d: Seq<u8>, off: int) -> Option<nat> {
    if 0 <= off && off + 32 <= d.len() && (forall|j: int| off <= j < off + 24 ==> d[j] == 0u8) {
        Some(be_value(d.subrange(off + 24, off + 32)))
    } else {
        None
    }
}

/// The dynamic array whose offset is head word `k` of the encoded tuple:
/// where its elements start (after its length word) and its length.
pub open spec fn abi_array(d: Seq<u8>, k: int) -> Option<(int, nat)> {
    match abi_u64(d, 32 * k) {
        Some(o) => match abi_u64(d, o as int) {
            Some(n) => Some((o + 32int, n)),
            None => None,
        },
        None => None,
    }
}

/// Element `i` of a `bytes[]` whose elements start at `start`, where it holds
/// 64 bytes (an uncompressed public key): its offset word, relative to
/// `start`, points at a length word of 64 followed by the 64 bytes.
pub open spec fn abi_pubkey(d: Seq<u8>, start: int, i: int) -> Option<Seq<u8>> {
    match abi_u64(d, start + 32 * i) {
        Some(e) => {
            let base = start + e;
            match abi_u64(d, base) {
                Some(n) => if n == 64 && base + 96 <= d.len() {
                    Some(d.subrange(base + 32, base + 96))
                } else {
                    None
                },
                None => None,
            }
        },
        None => None,
    }
}

/// Element `i` of a `uint64[]` whose elements start at `start`.
pub open spec fn abi_power(d: Seq<u8>, start: int, i: int) -> Option<nat> {
    abi_u64(d, start + 32 * i)
}

/// Element `i` of an `address[]` whose elements start at `start`: the last 20
/// bytes of its word, whose first 12 bytes are zero.
pub open spec fn abi_address(d: Seq<u8>, start: int, i: int) -> Option<Seq<u8>> {
    let off = start + 32 * i;
    if 0 <= off && off + 32 <= d.len() && (forall|j: int| off <= j < off + 12 ==> d[j] == 0u8) {
        Some(d.subrange(off + 12, off + 32))
    } else {
        None
    }
}

/// Entry `i` of the three arrays decodes.
pub open spec fn abi_entry_decodes(d: Seq<u8>, ps: int, ws: int, ads: int, i: int) -> bool {
    &&& abi_pubkey(d, ps, i) is Some
    &&& abi_power(d, ws, i) is Some
    &&& abi_address(d, ads, i) is Some
}

/// The validators `(pubkey, power, address)` that the ABI encoding `d` of
/// `(bytes[] pubkeys, uint64[] powers, address[] addresses)` holds, in the
/// contract's order; `None` where the three arrays differ in length or an
/// entry does not decode.
#[verifier::opaque]
pub open spec fn abi_validator_set(d: Seq<u8>) -> Option<Seq<(Seq<u8>, nat, Seq<u8>)>> {
    match (abi_array(d, 0), abi_array(d, 1), abi_array(d, 2)) {
        (Some(p), Some(w), Some(a)) => {
            if w.1 == p.1 && a.1 == p.1 && (forall|i: int|
                0 <= i < p.1 ==> #[trigger] abi_entry_decodes(d, p.0, w.0, a.0, i)) {
                Some(
                    Seq::new(
                        p.1,
                        |i: int|
                            (
                                abi_pubkey(d, p.0, i).unwrap(),
                                abi_power(d, w.0, i).unwrap(),
                                abi_address(d, a.0, i).unwrap(),
                            ),
                    ),
                )
            } else {
                None
            }
        },
        _ => None,
    }
}

/// The value of a hex digit.
fn hex_digit(c: u8) -> (v: Option<u8>)
    ensures
        hex_digit_value(c) == (match v {
            Some(n) => Some(n as nat),
            None => None,
        }),
        v matches Some(n) ==> n < 16,
{
    if 0x30 <= c && c <= 0x39 {
        Some(c - 0x30)
    } else if 0x61 <= c && c <= 0x66 {
        Some(c - 0x61 + 10)
    } else if 0x41 <= c && c <= 0x46 {
        Some(c - 0x41 + 10)
    } else {
        None
    }
}

/// The bytes written by the hex digits of `text` from byte `start` on.
pub fn hex_decode_from(text: &[u8], start: usize) -> (d: Option<Vec<u8>>)
    requires
        start <= text@.len(),
    ensures
        hex_decode(text@.subrange(start as int, text@.len() as int)) == (match d {
            Some(v) => Some(v@),
            None => None,
        }),
{
    let ghost body = text@.subrange(start as int, text@.len() as int);
    let len = text.len() - start;
    if len % 2 != 0 {
        return None;
    }
    let half = len / 2;
    let mut out: Vec<u8> = Vec::new();
    let mut i: usize = 0;
    while i < half
        invariant
            body == text@.subrange(start as int, text@.len() as int),
            start + len == text.len(),
            len == body.len(),
            half == len / 2,
            len % 2 == 0,
            i <= half,
            out@.len() == i,
            forall|k: int| 0 <= k < 2 * i ==> #[trigger] hex_digit_value(body[k]) is Some,
            forall|k: int| 0 <= k < i ==> out@[k] == hex_pair(body, k),
        decreases half - i,
    {
        let hi = hex_digit(text[start + 2 * i]);
        let lo = hex_digit(text[start + 2 * i + 1]);
        assert(body[2 * i] == text@[start + 2 * i]);
        assert(body[2 * i + 1] == text@[start + 2 * i + 1]);
        match (hi, lo) {
            (Some(h), Some(l)) => {
                out.push(h * 16 + l);
                i = i + 1;
            },
            _ => {
                assert(hex_digit_value(body[2 * i]) is None || hex_digit_value(body[2 * i + 1])
                    is None);
                return None;
            },
        }
    }
    assert(out@ =~= Seq::new(body.len() / 2, |k: int| hex_pair(body, k)));
    Some(out)
}

/// Whether the 32-byte word at `off` lies in `d` and starts with `zeros` zero bytes.
fn zero_prefixed_word(d: &[u8], off: usize, zeros: usize) -> (ok: bool)
    requires
        zeros <= 32,
    ensures
        ok == (off + 32 <= d@.len() && forall|j: int| off <= j < off + zeros ==> d@[j] == 0u8),
{
    if off > d.len() || d.len() - off < 32 {
        return false;
    }
    let mut j: usize = 0;
    while j < zeros
        invariant
            j <= zeros <= 32,
            off + 32 <= d.len(),
            forall|k: int| off <= k < off + j ==> d@[k] == 0u8,
        decreases zeros - j,
    {
        if d[off + j] != 0 {
            return false;
        }
        j = j + 1;
    }
    true
}

/// The value of the 32-byte word at `off` where it fits in 64 bits.
pub fn read_u64_word(d: &[u8], off: usize) -> (r: Option<u64>)
    ensures
        abi_u64(d@, off as int) == (match r {
            Some(v) => Some(v as nat),
            None => None,
        }),
{
    if !zero_prefixed_word(d, off, 24) {
        return None;
    }
    let mut v: u64 = 0;
    let mut j: usize = 0;
    while j < 8
        invariant
            j <= 8,
            off + 32 <= d.len(),
            v == be_value(d@.subrange(off + 24, off + 24 + j)),
            v < byte_power(j as nat),
        decreases 8 - j,
    {
        let ghost prev = d@.subrange(off + 24, off + 24 + j);
        let ghost next = d@.subrange(off + 24, off + 24 + j + 1);
        assert(next.drop_last() =~= prev);
        assert(next.last() == d@[off + 24 + j]);
        proof {
            lemma_byte_power_monotone((j + 1) as nat, 8);
            reveal_with_fuel(byte_power, 9);
        }
        v = v * 256 + d[off + 24 + j] as u64;
        j = j + 1;
    }
    Some(v)
}

/// The offset and length of the dynamic array whose offset is head word `k`.
pub fn read_array(d: &[u8], k: usize) -> (r: Option<(usize, u64)>)
    requires
        k < 3,
    ensures
        abi_array(d@, k as int) == (match r {
            Some((s, n)) => Some((s as int, n as nat)),
            None => None,
        }),
{
    let o = match read_u64_word(d, 32 * k) {
        Some(o) => o,
        None => return None,
    };
    if o > d.len() as u64 {
        return None;
    }
    let o = o as usize;
    match read_u64_word(d, o) {
        Some(n) => Some((o + 32, n)),
        None => None,
    }
}

/// `start + 32 * i` where it fits in a `usize`.
fn element_offset(start: usize, i: usize) -> (r: Option<usize>)
    ensures
        r matches Some(o) ==> o == start + 32 * i,
        r is None ==> start + 32 * i > usize::MAX,
{
    match i.checked_mul(32) {
        Some(m) => start.checked_add(m),
        None => None,
    }
}

/// The bytes of `d` from `from` to `to`.
fn copy_range(d: &[u8], from: usize, to: usize) -> (v: Vec<u8>)
    requires
        from <= to <= d@.len(),
    ensures
        v@ == d@.subrange(from as int, to as int),
{
    let mut v: Vec<u8> = Vec::new();
    let mut j: usize = from;
    while j < to
        invariant
            from <= j <= to <= d@.len(),
            v@ == d@.subrange(from as int, j as int),
        decreases to - j,
    {
        v.push(d[j]);
        j = j + 1;
        assert(v@ =~= d@.subrange(from as int, j as int));
    }
    v
}

/// Element `i` of the `uint64[]` whose elements start at `start`.
pub fn read_power(d: &[u8], start: usize, i: usize) -> (r: Option<u64>)
    ensures
        abi_power(d@, start as int, i as int) == (match r {
            Some(v) => Some(v as nat),
            None => None,
        }),
{
    let len = d.len();
    match element_offset(start, i) {
        Some(off) => read_u64_word(d, off),
        None => None,
    }
}

/// Element `i` of the `address[]` whose elements start at `start`.
pub fn read_address(d: &[u8], start: usize, i: usize) -> (r: Option<Vec<u8>>)
    ensures
        abi_address(d@, start as int, i as int) == (match r {
            Some(v) => Some(v@),
            None => None,
        }),
{
    let len = d.len();
    let off = match element_offset(start, i) {
        Some(off) => off,
        None => return None,
    };
    if zero_prefixed_word(d, off, 12) {
        Some(copy_range(d, off + 12, off + 32))
    } else {
        None
    }
}

/// Element `i` of the `bytes[]` whose elements start at `start`, where it
/// holds 64 bytes.
pub fn read_pubkey(d: &[u8], start: usize, i: usize) -> (r: Option<Vec<u8>>)
    ensures
        abi_pubkey(d@, start as int, i as int) == (match r {
            Some(v) => Some(v@),
            None => None,
        }),
{
    let len = d.len();
    let off = match element_offset(start, i) {
        Some(off) => off,
        None => return None,
    };
    let e = match read_u64_word(d, off) {
        Some(e) => e,
        None => return None,
    };
    if e > d.len() as u64 {
        return None;
    }
    let base = match start.checked_add(e as usize) {
        Some(b) => b,
        None => return None,
    };
    match read_u64_word(d, base) {
        Some(n) => {
            if n == 64 && base <= d.len() && d.len() - base >= 96 {
                Some(copy_range(d, base + 32, base + 96))
            } else {
                None
            }
        },
        None => None,
    }
}

/// The lower-case hex digit of a value below 16.
fn hex_digit_char(n: u8) -> (c: char)
    requires
        n < 16,
    ensures
        c == lower_hex_digit(n as nat),
{
    if n < 10 {
        (48 + n) as char
    } else {
        (87 + n) as char
    }
}

/// The text of the Ethereum address `address`: `0x` and lower-case hex.
pub fn address_string(address: &[u8]) -> (s: String)
    ensures
        s@ == address_text(address@),
        s@.len() == 2 + 2 * address@.len(),
        hex_decode(ascii_bytes(s@, 2)) == Some(address@),
{
    let mut s = String::new();
    push_char(&mut s, '0');
    push_char(&mut s, 'x');
    let mut i: usize = 0;
    while i < address.len()
        invariant
            i <= address@.len(),
            s@ == seq!['0', 'x'] + lower_hex(address@.subrange(0, i as int)),
        decreases address@.len() - i,
    {
        let b = address[i];
        let ghost before = s@;
        push_char(&mut s, hex_digit_char(b / 16));
        push_char(&mut s, hex_digit_char(b % 16));
        let ghost prev = lower_hex(address@.subrange(0, i as int));
        let ghost next = lower_hex(address@.subrange(0, i + 1));
        assert forall|j: int| 0 <= j < next.len() implies next[j] == (prev + seq![
            lower_hex_digit((b / 16) as nat),
            lower_hex_digit((b % 16) as nat),
        ])[j] by {
            if j < 2 * i {
                assert(j / 2 < i);
            } else if j == 2 * i {
                assert(j / 2 == i);
                assert(j % 2 == 0);
            } else {
                assert(j / 2 == i);
                assert(j % 2 == 1);
            }
        }
        assert(next =~= prev + seq![
            lower_hex_digit((b / 16) as nat),
            lower_hex_digit((b % 16) as nat),
        ]);
        i = i + 1;
    }
    assert(address@.subrange(0, address@.len() as int) =~= address@);
    proof {
        crate::laws::law_address_text_is_hex_of_address(address@);
    }
    s
}

} // verus!
