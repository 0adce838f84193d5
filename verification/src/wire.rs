//! Fixed-width little-endian fields on byte sequences.
//!
//! An unsigned integer of `n` bytes is the sum of its bytes, the byte at
//! place `i` weighted by `256^i`. A signed integer is stored in two's
//! complement. A boolean is the byte 0 or 1, and nothing else.

use vstd::prelude::*;

verus! {

/// Two to the power 63: the first value that a signed 64-bit integer cannot hold.
pub const SIGN_BIT: u64 = 0x8000_0000_0000_0000;

/// The 32-byte array whose bytes are those of `s`.
pub open spec fn array32(s: Seq<u8>) -> [u8; 32]
    recommends
        s.len() == 32,
{
    choose|a: [u8; 32]| a@ == s
}

/// The unsigned integer that two bytes spell.
pub open spec fn u16_le(s: Seq<u8>) -> u16
    recommends
        s.len() == 2,
{
    (s[0] + 256 * s[1]) as u16
}

/// The unsigned integer that four bytes spell.
pub open spec fn u32_le(s: Seq<u8>) -> u32
    recommends
        s.len() == 4,
{
    (s[0] + 256 * (s[1] + 256 * (s[2] + 256 * s[3]))) as u32
}

/// The unsigned integer that eight bytes spell.
pub open spec fn u64_le(s: Seq<u8>) -> u64
    recommends
        s.len() == 8,
{
    (s[0] + 256 * (s[1] + 256 * (s[2] + 256 * (s[3] + 256 * (s[4] + 256 * (s[5] + 256 * (s[6] + 256
        * s[7]))))))) as u64
}

/// The signed integer that eight bytes spell.
pub open spec fn i64_le(s: Seq<u8>) -> i64
    recommends
        s.len() == 8,
{
    if u64_le(s) < SIGN_BIT {
        u64_le(s) as i64
    } else {
        (u64_le(s) - 2 * SIGN_BIT) as i64
    }
}

/// The two bytes of an unsigned integer, lowest first.
pub open spec fn u16_bytes(v: u16) -> Seq<u8> {
    seq![(v % 256) as u8, (v / 256) as u8]
}

/// The four bytes of an unsigned integer, lowest first.
pub open spec fn u32_bytes(v: u32) -> Seq<u8> {
    let v1 = v / 256;
    let v2 = v1 / 256;
    let v3 = v2 / 256;
    seq![(v % 256) as u8, (v1 % 256) as u8, (v2 % 256) as u8, (v3 % 256) as u8]
}

/// The eight bytes of an unsigned integer, lowest first.
pub open spec fn u64_bytes(v: u64) -> Seq<u8> {
    let v1 = v / 256;
    let v2 = v1 / 256;
    let v3 = v2 / 256;
    let v4 = v3 / 256;
    let v5 = v4 / 256;
    let v6 = v5 / 256;
    let v7 = v6 / 256;
    seq![
        (v % 256) as u8,
        (v1 % 256) as u8,
        (v2 % 256) as u8,
        (v3 % 256) as u8,
        (v4 % 256) as u8,
        (v5 % 256) as u8,
        (v6 % 256) as u8,
        (v7 % 256) as u8,
    ]
}

/// The eight bytes of a signed integer in two's complement, lowest first.
pub open spec fn i64_bytes(v: i64) -> Seq<u8> {
    if v >= 0 {
        u64_bytes(v as u64)
    } else {
        u64_bytes((v + 2 * SIGN_BIT) as u64)
    }
}

/// The byte of a boolean.
pub open spec fn bool_byte(b: bool) -> u8 {
    if b {
        1
    } else {
        0
    }
}

/// The boolean that a byte spells, if it spells one.
pub open spec fn byte_bool(b: u8) -> Option<bool> {
    if b == 0 {
        Some(false)
    } else if b == 1 {
        Some(true)
    } else {
        None
    }
}

/// An array whose first `n` bytes are those of `s`.
spec fn filled(s: Seq<u8>, n: nat) -> [u8; 32]
    decreases n,
{
    if n == 0 {
        vstd::array::spec_array_fill_for_copy_type::<u8, 32>(0u8)
    } else {
        vstd::array::spec_array_update(filled(s, (n - 1) as nat), n - 1, s[n - 1])
    }
}

/// The first `n` bytes of `filled(s, n)` are those of `s`.
proof fn lemma_filled(s: Seq<u8>, n: nat)
    requires
        s.len() == 32,
        n <= 32,
    ensures
        forall|i: int| 0 <= i < n ==> filled(s, n)@[i] == s[i],
    decreases n,
{
    if n > 0 {
        lemma_filled(s, (n - 1) as nat);
    }
}

/// Every sequence of 32 bytes is held by exactly one array.
pub proof fn lemma_array32(s: Seq<u8>)
    requires
        s.len() == 32,
    ensures
        array32(s)@ == s,
{
    lemma_filled(s, 32);
    assert(filled(s, 32)@ =~= s);
}

/// The array that holds the bytes of an array is that array.
pub proof fn lemma_array32_of_view(a: [u8; 32])
    ensures
        array32(a@) == a,
{
    lemma_array32(a@);
    assert(array32(a@) =~= a);
}

/// Two bytes spell the integer that they were made from, and an integer
/// read from two bytes gives those bytes back.
pub proof fn lemma_u16_round_trip(v: u16, s: Seq<u8>)
    ensures
        u16_bytes(v).len() == 2,
        u16_le(u16_bytes(v)) == v,
        s.len() == 2 ==> u16_bytes(u16_le(s)) == s,
{
    if s.len() == 2 {
        assert(u16_bytes(u16_le(s)) =~= s);
    }
}

/// Four bytes spell the integer that they were made from, and an integer
/// read from four bytes gives those bytes back.
pub proof fn lemma_u32_round_trip(v: u32, s: Seq<u8>)
    ensures
        u32_bytes(v).len() == 4,
        u32_le(u32_bytes(v)) == v,
        s.len() == 4 ==> u32_bytes(u32_le(s)) == s,
{
    let v1 = v / 256;
    let v2 = v1 / 256;
    let v3 = v2 / 256;
    assert(v3 < 256);
    assert(v2 == v2 % 256 + 256 * v3);
    assert(v1 == v1 % 256 + 256 * v2);
    assert(v == v % 256 + 256 * v1);
    if s.len() == 4 {
        let t3: int = s[3] as int;
        let t2: int = s[2] + 256 * t3;
        let t1: int = s[1] + 256 * t2;
        let t0: int = s[0] + 256 * t1;
        assert(t2 / 256 == t3 && t2 % 256 == s[2]);
        assert(t1 / 256 == t2 && t1 % 256 == s[1]);
        assert(t0 / 256 == t1 && t0 % 256 == s[0]);
        assert(t0 == u32_le(s));
        assert(u32_bytes(u32_le(s)) =~= s);
    }
}

/// The eight bytes of an integer spell that integer.
proof fn lemma_u64_le_of_bytes(v: u64)
    ensures
        u64_bytes(v).len() == 8,
        u64_le(u64_bytes(v)) == v,
{
    let v1 = v / 256;
    let v2 = v1 / 256;
    let v3 = v2 / 256;
    let v4 = v3 / 256;
    let v5 = v4 / 256;
    let v6 = v5 / 256;
    let v7 = v6 / 256;
    assert(v7 < 256);
    assert(v6 == v6 % 256 + 256 * v7);
    assert(v5 == v5 % 256 + 256 * v6);
    assert(v4 == v4 % 256 + 256 * v5);
    assert(v3 == v3 % 256 + 256 * v4);
    assert(v2 == v2 % 256 + 256 * v3);
    assert(v1 == v1 % 256 + 256 * v2);
    assert(v == v % 256 + 256 * v1);
}

/// The integer that eight bytes spell has those bytes.
proof fn lemma_u64_bytes_of_le(s: Seq<u8>)
    requires
        s.len() == 8,
    ensures
        u64_bytes(u64_le(s)) == s,
{
    let t7: int = s[7] as int;
    let t6: int = s[6] + 256 * t7;
    let t5: int = s[5] + 256 * t6;
    let t4: int = s[4] + 256 * t5;
    let t3: int = s[3] + 256 * t4;
    let t2: int = s[2] + 256 * t3;
    let t1: int = s[1] + 256 * t2;
    let t0: int = s[0] + 256 * t1;
    assert(t6 / 256 == t7 && t6 % 256 == s[6]);
    assert(t5 / 256 == t6 && t5 % 256 == s[5]);
    assert(t4 / 256 == t5 && t4 % 256 == s[4]);
    assert(t3 / 256 == t4 && t3 % 256 == s[3]);
    assert(t2 / 256 == t3 && t2 % 256 == s[2]);
    assert(t1 / 256 == t2 && t1 % 256 == s[1]);
    assert(t0 / 256 == t1 && t0 % 256 == s[0]);
    assert(t0 == u64_le(s));
    assert(u64_bytes(u64_le(s)) =~= s);
}

/// Eight bytes spell the integer that they were made from, and an integer
/// read from eight bytes gives those bytes back.
pub proof fn lemma_u64_round_trip(v: u64, s: Seq<u8>)
    ensures
        u64_bytes(v).len() == 8,
        u64_le(u64_bytes(v)) == v,
        s.len() == 8 ==> u64_bytes(u64_le(s)) == s,
{
    lemma_u64_le_of_bytes(v);
    if s.len() == 8 {
        lemma_u64_bytes_of_le(s);
    }
}

/// The same, for a signed integer.
pub proof fn lemma_i64_round_trip(v: i64, s: Seq<u8>)
    ensures
        i64_bytes(v).len() == 8,
        i64_le(i64_bytes(v)) == v,
        s.len() == 8 ==> i64_bytes(i64_le(s)) == s,
{
    if v >= 0 {
        lemma_u64_round_trip(v as u64, s);
    } else {
        lemma_u64_round_trip((v + 2 * SIGN_BIT) as u64, s);
    }
    if s.len() == 8 {
        lemma_u64_round_trip(0, s);
    }
}

/// Reads the two bytes at `at` as an unsigned integer.
pub fn read_u16_le(data: &[u8], at: usize) -> (v: u16)
    requires
        at + 2 <= data@.len(),
    ensures
        v == u16_le(data@.subrange(at as int, at + 2)),
{
    let b0: u16 = data[at] as u16;
    let b1: u16 = data[at + 1] as u16;
    b0 + 256 * b1
}

/// Reads the four bytes at `at` as an unsigned integer.
pub fn read_u32_le(data: &[u8], at: usize) -> (v: u32)
    requires
        at + 4 <= data@.len(),
    ensures
        v == u32_le(data@.subrange(at as int, at + 4)),
{
    let b0: u32 = data[at] as u32;
    let b1: u32 = data[at + 1] as u32;
    let b2: u32 = data[at + 2] as u32;
    let b3: u32 = data[at + 3] as u32;
    b0 + 256 * (b1 + 256 * (b2 + 256 * b3))
}

/// Reads the eight bytes at `at` as an unsigned integer.
pub fn read_u64_le(data: &[u8], at: usize) -> (v: u64)
    requires
        at + 8 <= data@.len(),
    ensures
        v == u64_le(data@.subrange(at as int, at + 8)),
{
    let b0: u64 = data[at] as u64;
    let b1: u64 = data[at + 1] as u64;
    let b2: u64 = data[at + 2] as u64;
    let b3: u64 = data[at + 3] as u64;
    let b4: u64 = data[at + 4] as u64;
    let b5: u64 = data[at + 5] as u64;
    let b6: u64 = data[at + 6] as u64;
    let b7: u64 = data[at + 7] as u64;
    b0 + 256 * (b1 + 256 * (b2 + 256 * (b3 + 256 * (b4 + 256 * (b5 + 256 * (b6 + 256 * b7))))))
}

/// Reads the eight bytes at `at` as a signed integer.
pub fn read_i64_le(data: &[u8], at: usize) -> (v: i64)
    requires
        at + 8 <= data@.len(),
    ensures
        v == i64_le(data@.subrange(at as int, at + 8)),
{
    let raw: u64 = read_u64_le(data, at);
    if raw < SIGN_BIT {
        raw as i64
    } else {
        let low: i64 = (raw - SIGN_BIT) as i64;
        low + i64::MIN
    }
}

/// Reads the 32 bytes at `at`.
pub fn read_bytes32(data: &[u8], at: usize) -> (out: [u8; 32])
    requires
        at + 32 <= data@.len(),
    ensures
        out@ == data@.subrange(at as int, at + 32),
        out == array32(data@.subrange(at as int, at + 32)),
{
    let len: usize = data.len();
    let mut out: [u8; 32] = [0u8; 32];
    let mut i: usize = 0;
    while i < 32
        invariant
            i <= 32,
            len == data@.len(),
            at + 32 <= len,
            forall|j: int| 0 <= j < i ==> out@[j] == data@[at + j],
        decreases 32 - i,
    {
        out[i] = data[at + i];
        i += 1;
    }
    proof {
        assert(out@ =~= data@.subrange(at as int, at + 32));
        lemma_array32_of_view(out);
    }
    out
}

/// Appends the four bytes of an unsigned integer.
pub fn push_u32_le(out: &mut Vec<u8>, v: u32)
    ensures
        final(out)@ == old(out)@ + u32_bytes(v),
{
    let v1: u32 = v / 256;
    let v2: u32 = v1 / 256;
    let v3: u32 = v2 / 256;
    out.push((v % 256) as u8);
    out.push((v1 % 256) as u8);
    out.push((v2 % 256) as u8);
    out.push((v3 % 256) as u8);
    assert(out@ =~= old(out)@ + u32_bytes(v));
}

/// Appends the eight bytes of an unsigned integer.
pub fn push_u64_le(out: &mut Vec<u8>, v: u64)
    ensures
        final(out)@ == old(out)@ + u64_bytes(v),
{
    let v1: u64 = v / 256;
    let v2: u64 = v1 / 256;
    let v3: u64 = v2 / 256;
    let v4: u64 = v3 / 256;
    let v5: u64 = v4 / 256;
    let v6: u64 = v5 / 256;
    let v7: u64 = v6 / 256;
    out.push((v % 256) as u8);
    out.push((v1 % 256) as u8);
    out.push((v2 % 256) as u8);
    out.push((v3 % 256) as u8);
    out.push((v4 % 256) as u8);
    out.push((v5 % 256) as u8);
    out.push((v6 % 256) as u8);
    out.push((v7 % 256) as u8);
    assert(out@ =~= old(out)@ + u64_bytes(v));
}

/// Appends the two bytes of an unsigned integer.
pub fn push_u16_le(out: &mut Vec<u8>, v: u16)
    ensures
        final(out)@ == old(out)@ + u16_bytes(v),
{
    out.push((v % 256) as u8);
    out.push((v / 256) as u8);
    assert(out@ =~= old(out)@ + u16_bytes(v));
}

/// Appends the eight bytes of a signed integer.
pub fn push_i64_le(out: &mut Vec<u8>, v: i64)
    ensures
        final(out)@ == old(out)@ + i64_bytes(v),
{
    if v >= 0 {
        push_u64_le(out, v as u64);
    } else {
        let low: u64 = (v - i64::MIN) as u64;
        push_u64_le(out, low + SIGN_BIT);
    }
}

/// Appends the byte of a boolean.
pub fn push_bool(out: &mut Vec<u8>, b: bool)
    ensures
        final(out)@ == old(out)@ + seq![bool_byte(b)],
{
    if b {
        out.push(1);
    } else {
        out.push(0);
    }
    assert(out@ =~= old(out)@ + seq![bool_byte(b)]);
}

/// Appends the 32 bytes of an array.
pub fn push_bytes32(out: &mut Vec<u8>, bytes: &[u8; 32])
    ensures
        final(out)@ == old(out)@ + bytes@,
{
    let mut i: usize = 0;
    while i < 32
        invariant
            i <= 32,
            out@ == old(out)@ + bytes@.subrange(0, i as int),
        decreases 32 - i,
    {
        out.push(bytes[i]);
        i += 1;
        assert(out@ =~= old(out)@ + bytes@.subrange(0, i as int));
    }
    assert(bytes@.subrange(0, 32) =~= bytes@);
}

/// Whether two 32-byte values are the same.
pub fn bytes32_eq(a: &[u8; 32], b: &[u8; 32]) -> (same: bool)
    ensures
        same == (a@ == b@),
        same == (*a == *b),
{
    let mut i: usize = 0;
    while i < 32
        invariant
            i <= 32,
            forall|j: int| 0 <= j < i ==> a@[j] == b@[j],
        decreases 32 - i,
    {
        if a[i] != b[i] {
            return false;
        }
        i += 1;
    }
    proof {
        assert(a@ =~= b@);
        assert(*a =~= *b);
    }
    true
}

/// Appends bytes as they are.
pub fn push_bytes(out: &mut Vec<u8>, bytes: &[u8])
    ensures
        final(out)@ == old(out)@ + bytes@,
{
    out.extend_from_slice(bytes);
    assert(out@ =~= old(out)@ + bytes@);
}

/// Reads text from its UTF-8 bytes: `String::from_utf8` of the standard
/// library, which gives the text exactly where the bytes are well-formed
/// UTF-8 and fails otherwise.
#[verifier::external_body]
pub(crate) fn string_from_utf8(bytes: Vec<u8>) -> (r: Option<String>)
    ensures
        r is Some <==> vstd::utf8::valid_utf8(bytes@),
        r matches Some(text) ==> text@ == vstd::utf8::decode_utf8(bytes@),
{
    String::from_utf8(bytes).ok()
}

} // verus!
