//! Primitives of the protobuf wire format: base-128 varints, length-prefixed
//! byte fields, string fields, and little-endian 32-bit fields.
//!
//! Every encoder is pinned to a spec-level byte function, every parser to a
//! spec-level parse function, and each primitive comes with a lemma that
//! parsing what was encoded yields the original value and consumes exactly
//! its bytes.

use vstd::prelude::*;

use vstd::arithmetic::div_mod::lemma_fundamental_div_mod;
use vstd::bytes::{spec_u32_from_le_bytes, spec_u32_to_le_bytes, u32_from_le_bytes, u32_to_le_bytes};
use vstd::slice::{slice_subrange, slice_to_vec};

verus! {

/// The largest value a varint of `k` bytes can hold, plus one.
pub open spec fn pow128(k: nat) -> int
    decreases k,
{
    if k == 0 {
        1
    } else {
        128 * pow128((k - 1) as nat)
    }
}

/// Base-128 encoding of a value, least significant group first, each byte
/// but the last with its high bit set.
pub open spec fn spec_varint(n: nat) -> Seq<u8>
    decreases n,
{
    if n < 128 {
        seq![n as u8]
    } else {
        seq![(128 + (n % 128)) as u8] + spec_varint(n / 128)
    }
}

/// Parse a varint of at most `max` bytes; the value and the bytes consumed.
pub open spec fn spec_parse_varint_rec(s: Seq<u8>, max: nat) -> Option<(int, int)>
    decreases max,
{
    if max == 0 || s.len() == 0 {
        None
    } else {
        let b = s[0];
        if b < 128 {
            Some((b as int, 1int))
        } else {
            match spec_parse_varint_rec(s.skip(1), (max - 1) as nat) {
                Some(p) => Some(((b - 128) + 128 * p.0, p.1 + 1)),
                None => None,
            }
        }
    }
}

/// Parse a varint as the wire format allows it: at most ten bytes, value
/// below two to the sixty-fourth.
pub open spec fn spec_parse_varint(s: Seq<u8>) -> Option<(int, int)> {
    match spec_parse_varint_rec(s, 10) {
        Some(p) => if p.0 < 0x1_0000_0000_0000_0000 {
            Some(p)
        } else {
            None
        },
        None => None,
    }
}

/// Ten varint bytes hold values up to two to the seventieth.
proof fn lemma_pow128_value()
    ensures
        pow128(10) == 0x40_0000_0000_0000_0000,
{
    reveal_with_fuel(pow128, 11);
}

/// `pow128` is positive and grows with its argument.
proof fn lemma_pow128_increases(a: nat, b: nat)
    requires
        a <= b,
    ensures
        1 <= pow128(a) <= pow128(b),
    decreases b,
{
    if a == b {
        lemma_pow128_pos(a);
    } else {
        lemma_pow128_increases(a, (b - 1) as nat);
        assert(pow128(b) == 128 * pow128((b - 1) as nat));
    }
}

/// `pow128` is positive.
proof fn lemma_pow128_pos(a: nat)
    ensures
        pow128(a) >= 1,
    decreases a,
{
    if a > 0 {
        lemma_pow128_pos((a - 1) as nat);
    }
}

/// A value below `pow128(k)` encodes in at most `k` bytes.
proof fn lemma_varint_len(n: nat, k: nat)
    requires
        1 <= k,
        n < pow128(k),
    ensures
        1 <= spec_varint(n).len() <= k,
    decreases k,
{
    if n >= 128 {
        assert(n / 128 < pow128((k - 1) as nat)) by {
            lemma_fundamental_div_mod(n as int, 128);
        }
        lemma_varint_len(n / 128, (k - 1) as nat);
    }
}

/// Any value a varint holds in ten bytes fits the bound the parser checks.
pub proof fn lemma_varint_fits(n: nat)
    requires
        n < 0x1_0000_0000_0000_0000,
    ensures
        1 <= spec_varint(n).len() <= 10,
{
    lemma_pow128_value();
    lemma_varint_len(n, 10);
}

proof fn lemma_varint_roundtrip_rec(n: nat, rest: Seq<u8>, max: nat)
    requires
        spec_varint(n).len() <= max,
    ensures
        spec_parse_varint_rec(spec_varint(n) + rest, max) == Some(
            (n as int, spec_varint(n).len() as int),
        ),
    decreases n,
{
    let enc = spec_varint(n);
    let s = enc + rest;
    if n < 128 {
        assert(s[0] == n as u8);
    } else {
        let b = (128 + (n % 128)) as u8;
        assert(s[0] == b);
        assert(s.skip(1) =~= spec_varint(n / 128) + rest);
        assert(n / 128 < n) by {
            lemma_fundamental_div_mod(n as int, 128);
        }
        lemma_varint_roundtrip_rec(n / 128, rest, (max - 1) as nat);
        assert((b - 128) + 128 * (n / 128) == n as int) by {
            lemma_fundamental_div_mod(n as int, 128);
        }
    }
}

/// Varint round trip: parsing an encoded value, whatever follows it, yields
/// the value back and consumes exactly the encoding.
pub proof fn lemma_varint_roundtrip(n: nat, rest: Seq<u8>)
    requires
        n < 0x1_0000_0000_0000_0000,
    ensures
        spec_parse_varint(spec_varint(n) + rest) == Some(
            (n as int, spec_varint(n).len() as int),
        ),
{
    lemma_varint_fits(n);
    lemma_varint_roundtrip_rec(n, rest, 10);
}

/// Append the varint encoding of a value.
pub fn encode_varint(out: &mut Vec<u8>, n: u64)
    ensures
        final(out)@ == old(out)@ + spec_varint(n as nat),
{
    let mut cur: u64 = n;
    proof {
        assert(out@ + spec_varint(cur as nat) =~= old(out)@ + spec_varint(n as nat));
    }
    while cur >= 128
        invariant
            out@ + spec_varint(cur as nat) == old(out)@ + spec_varint(n as nat),
        decreases cur,
    {
        let ghost prev = cur as nat;
        let byte: u8 = (cur % 128) as u8 + 128;
        out.push(byte);
        cur = cur / 128;
        proof {
            assert(spec_varint(prev) =~= seq![byte] + spec_varint(cur as nat));
            assert(out@ + spec_varint(cur as nat) =~= old(out)@ + spec_varint(n as nat));
        }
    }
    let ghost before_last = out@;
    out.push(cur as u8);
    proof {
        assert(spec_varint(cur as nat) =~= seq![cur as u8]);
        assert(out@ =~= before_last + spec_varint(cur as nat));
        assert(out@ =~= old(out)@ + spec_varint(n as nat));
    }
}

fn read_varint_rec(data: &Vec<u8>, pos: usize, max: u8) -> (r: Option<(u128, usize)>)
    requires
        pos <= data@.len(),
        max <= 10,
    ensures
        match spec_parse_varint_rec(data@.skip(pos as int), max as nat) {
            None => r is None,
            Some(p) => r matches Some(q) && q.0 == p.0 && q.1 == pos + p.1,
        },
        r matches Some(q) ==> q.0 < pow128(max as nat) && pos < q.1 <= data@.len(),
    decreases max,
{
    if max == 0 || pos >= data.len() {
        return None;
    }
    let b = data[pos];
    if b < 128 {
        proof {
            assert(data@.skip(pos as int)[0] == b);
            assert(pow128(max as nat) >= 128) by {
                lemma_pow128_increases(1, max as nat);
            }
        }
        Some((b as u128, pos + 1))
    } else {
        proof {
            assert(data@.skip(pos as int)[0] == b);
            assert(data@.skip(pos as int).skip(1) =~= data@.skip(pos + 1));
        }
        match read_varint_rec(data, pos + 1, max - 1) {
            Option::None => Option::None,
            Option::Some((v, p2)) => {
                proof {
                    assert(pow128(max as nat) == 128 * pow128((max - 1) as nat));
                    lemma_pow128_value();
                    lemma_pow128_increases((max - 1) as nat, 10);
                }
                let value: u128 = (b - 128) as u128 + 128 * v;
                Some((value, p2))
            },
        }
    }
}

/// Parse a varint at the given position.
pub fn read_varint(data: &Vec<u8>, pos: usize) -> (r: Option<(u64, usize)>)
    requires
        pos <= data@.len(),
    ensures
        match spec_parse_varint(data@.skip(pos as int)) {
            None => r is None,
            Some(p) => r matches Some(q) && q.0 == p.0 && q.1 == pos + p.1,
        },
        r matches Some(q) ==> pos < q.1 <= data@.len(),
{
    match read_varint_rec(data, pos, 10) {
        Option::None => Option::None,
        Option::Some((v, p)) => {
            if v < 0x1_0000_0000_0000_0000u128 {
                Some((v as u64, p))
            } else {
                None
            }
        },
    }
}

/// A copy of the bytes between the two positions.
pub fn copy_range(data: &Vec<u8>, start: usize, end: usize) -> (r: Vec<u8>)
    requires
        start <= end <= data@.len(),
    ensures
        r@ == data@.subrange(start as int, end as int),
{
    let s = slice_subrange(data.as_slice(), start, end);
    slice_to_vec(s)
}

/// A byte string prefixed with its length as a varint.
pub open spec fn spec_len_prefixed(bytes: Seq<u8>) -> Seq<u8> {
    spec_varint(bytes.len()) + bytes
}

/// Parse a length-prefixed byte string: the bytes and the total consumed.
pub open spec fn spec_parse_len_prefixed(s: Seq<u8>) -> Option<(Seq<u8>, int)> {
    match spec_parse_varint(s) {
        Some(p) => if s.len() >= p.1 + p.0 {
            Some((s.subrange(p.1, p.1 + p.0), p.1 + p.0))
        } else {
            None
        },
        None => None,
    }
}

/// Length-prefix round trip.
pub proof fn lemma_len_prefixed_roundtrip(bytes: Seq<u8>, rest: Seq<u8>)
    requires
        bytes.len() < 0x1_0000_0000_0000_0000,
    ensures
        spec_parse_len_prefixed(spec_len_prefixed(bytes) + rest) == Some(
            (bytes, spec_len_prefixed(bytes).len() as int),
        ),
{
    let s = spec_len_prefixed(bytes) + rest;
    assert(s =~= spec_varint(bytes.len()) + (bytes + rest));
    lemma_varint_roundtrip(bytes.len(), bytes + rest);
    let k = spec_varint(bytes.len()).len() as int;
    assert(s.subrange(k, k + bytes.len()) =~= bytes);
}

/// Append a length-prefixed byte string.
pub fn encode_len_prefixed(out: &mut Vec<u8>, bytes: &Vec<u8>)
    ensures
        final(out)@ == old(out)@ + spec_len_prefixed(bytes@),
{
    encode_varint(out, bytes.len() as u64);
    let mut copy = copy_range(bytes, 0, bytes.len());
    proof {
        assert(copy@ =~= bytes@);
    }
    out.append(&mut copy);
    proof {
        assert(out@ =~= old(out)@ + spec_len_prefixed(bytes@));
    }
}

/// Parse a length-prefixed byte string at the given position.
pub fn read_len_prefixed(data: &Vec<u8>, pos: usize) -> (r: Option<(Vec<u8>, usize)>)
    requires
        pos <= data@.len(),
    ensures
        match spec_parse_len_prefixed(data@.skip(pos as int)) {
            None => r is None,
            Some(p) => r matches Some(q) && q.0@ == p.0 && q.1 == pos + p.1,
        },
        r matches Some(q) ==> pos < q.1 <= data@.len(),
{
    let ghost s = data@.skip(pos as int);
    match read_varint(data, pos) {
        Option::None => Option::None,
        Option::Some((len, p)) => {
            if len <= (data.len() - p) as u64 {
                let end = p + (len as usize);
                let bytes = copy_range(data, p, end);
                proof {
                    let sp = spec_parse_varint(s).unwrap();
                    assert(s.subrange(sp.1, sp.1 + sp.0) =~= data@.subrange(
                        p as int,
                        end as int,
                    ));
                }
                Some((bytes, end))
            } else {
                None
            }
        },
    }
}

/// A 32-bit value as four little-endian bytes.
pub open spec fn spec_fixed32(x: u32) -> Seq<u8> {
    spec_u32_to_le_bytes(x)
}

/// Parse four little-endian bytes as a 32-bit value.
pub open spec fn spec_parse_fixed32(s: Seq<u8>) -> Option<(u32, int)> {
    if s.len() >= 4 {
        Some((spec_u32_from_le_bytes(s.subrange(0, 4)), 4int))
    } else {
        None
    }
}

/// Fixed-width 32-bit round trip.
pub proof fn lemma_fixed32_roundtrip(x: u32, rest: Seq<u8>)
    ensures
        spec_parse_fixed32(spec_fixed32(x) + rest) == Some((x, 4int)),
{
    vstd::bytes::lemma_auto_spec_u32_to_from_le_bytes();
    assert((spec_fixed32(x) + rest).subrange(0, 4) =~= spec_fixed32(x));
}

/// Append a 32-bit value as four little-endian bytes.
pub fn encode_fixed32(out: &mut Vec<u8>, x: u32)
    ensures
        final(out)@ == old(out)@ + spec_fixed32(x),
{
    let mut bytes = u32_to_le_bytes(x);
    out.append(&mut bytes);
}

/// Parse a 32-bit little-endian value at the given position.
pub fn read_fixed32(data: &Vec<u8>, pos: usize) -> (r: Option<(u32, usize)>)
    requires
        pos <= data@.len(),
    ensures
        match spec_parse_fixed32(data@.skip(pos as int)) {
            None => r is None,
            Some(p) => r matches Some(q) && q.0 == p.0 && q.1 == pos + p.1,
        },
        r matches Some(q) ==> pos <= q.1 <= data@.len(),
{
    if data.len() - pos >= 4 {
        let s = slice_subrange(data.as_slice(), pos, pos + 4);
        let x = u32_from_le_bytes(s);
        proof {
            assert(data@.skip(pos as int).subrange(0, 4) =~= data@.subrange(
                pos as int,
                pos + 4,
            ));
        }
        Some((x, pos + 4))
    } else {
        None
    }
}

} // verus!
