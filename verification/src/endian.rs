//! Integers as byte sequences.
//!
//! The spec functions speak of mathematical integers and keep only the low bits, so that
//! `be32(x)` is also what a truncated `x` looks like on the wire.

use vstd::prelude::*;

verus! {

/// The low 16 bits of `x`, most significant byte first.
pub open spec fn be16(x: int) -> Seq<u8> {
    seq![(x / 0x100 % 0x100) as u8, (x % 0x100) as u8]
}

/// The low 32 bits of `x`, most significant byte first.
pub open spec fn be32(x: int) -> Seq<u8> {
    seq![
        (x / 0x100_0000 % 0x100) as u8,
        (x / 0x1_0000 % 0x100) as u8,
        (x / 0x100 % 0x100) as u8,
        (x % 0x100) as u8,
    ]
}

/// The low 64 bits of `x`, most significant byte first.
pub open spec fn be64(x: int) -> Seq<u8> {
    be32(x / 0x1_0000_0000) + be32(x)
}

/// The low 16 bits of `x`, least significant byte first.
pub open spec fn le16(x: int) -> Seq<u8> {
    seq![(x % 0x100) as u8, (x / 0x100 % 0x100) as u8]
}

/// The low 32 bits of `x`, least significant byte first.
pub open spec fn le32(x: int) -> Seq<u8> {
    seq![
        (x % 0x100) as u8,
        (x / 0x100 % 0x100) as u8,
        (x / 0x1_0000 % 0x100) as u8,
        (x / 0x100_0000 % 0x100) as u8,
    ]
}

/// The low 64 bits of `x`, least significant byte first.
pub open spec fn le64(x: int) -> Seq<u8> {
    le32(x) + le32(x / 0x1_0000_0000)
}

/// The big-endian 16-bit integer at `at`.
pub open spec fn be16_at(s: Seq<u8>, at: int) -> int {
    s[at] * 0x100 + s[at + 1]
}

/// The big-endian 32-bit integer at `at`.
pub open spec fn be32_at(s: Seq<u8>, at: int) -> int {
    s[at] * 0x100_0000 + s[at + 1] * 0x1_0000 + s[at + 2] * 0x100 + s[at + 3]
}

/// The big-endian 64-bit integer at `at`.
pub open spec fn be64_at(s: Seq<u8>, at: int) -> int {
    be32_at(s, at) * 0x1_0000_0000 + be32_at(s, at + 4)
}

/// The little-endian 16-bit integer at `at`.
pub open spec fn le16_at(s: Seq<u8>, at: int) -> int {
    s[at] + s[at + 1] * 0x100
}

/// The little-endian 32-bit integer at `at`.
pub open spec fn le32_at(s: Seq<u8>, at: int) -> int {
    s[at] + s[at + 1] * 0x100 + s[at + 2] * 0x1_0000 + s[at + 3] * 0x100_0000
}

/// The little-endian 64-bit integer at `at`.
pub open spec fn le64_at(s: Seq<u8>, at: int) -> int {
    le32_at(s, at) + le32_at(s, at + 4) * 0x1_0000_0000
}

/// The low 32 bits of `x` are made of its four low bytes.
proof fn low_bytes(x: int)
    ensures
        x % 0x1_0000_0000 == x / 0x100_0000 % 0x100 * 0x100_0000 + x / 0x1_0000 % 0x100 * 0x1_0000 + x / 0x100
            % 0x100 * 0x100 + x % 0x100,
{
    let q1 = x / 0x100;
    let q2 = q1 / 0x100;
    let q3 = q2 / 0x100;
    let q4 = q3 / 0x100;
    assert(x / 0x1_0000 == q2);
    assert(x / 0x100_0000 == q3);
    assert(x / 0x1_0000_0000 == q4);
    assert(x == q4 * 0x1_0000_0000 + (q3 % 0x100) * 0x100_0000 + (q2 % 0x100) * 0x1_0000 + (q1 % 0x100) * 0x100 + x
        % 0x100);
}

/// Two integers with the same low 32 bits have the same four low bytes.
proof fn same_low_bytes(x: int, y: int)
    requires
        x % 0x1_0000_0000 == y % 0x1_0000_0000,
    ensures
        x / 0x100_0000 % 0x100 == y / 0x100_0000 % 0x100,
        x / 0x1_0000 % 0x100 == y / 0x1_0000 % 0x100,
        x / 0x100 % 0x100 == y / 0x100 % 0x100,
        x % 0x100 == y % 0x100,
{
    low_bytes(x);
    low_bytes(y);
}

/// Reading a big-endian 16-bit integer gives back the low 16 bits that were written.
pub proof fn be16_round_trip(x: int)
    ensures
        be16_at(be16(x), 0) == x % 0x1_0000,
{
}

/// Reading a big-endian 32-bit integer gives back the low 32 bits that were written.
pub proof fn be32_round_trip(x: int)
    ensures
        be32_at(be32(x), 0) == x % 0x1_0000_0000,
{
    low_bytes(x);
}

/// Reading a little-endian 16-bit integer gives back the low 16 bits that were written.
pub proof fn le16_round_trip(x: int)
    ensures
        le16_at(le16(x), 0) == x % 0x1_0000,
{
}

/// Reading a little-endian 32-bit integer gives back the low 32 bits that were written.
pub proof fn le32_round_trip(x: int)
    ensures
        le32_at(le32(x), 0) == x % 0x1_0000_0000,
{
    low_bytes(x);
}

proof fn halves(x: int)
    ensures
        x % 0x1_0000_0000_0000_0000 == x % 0x1_0000_0000 + x / 0x1_0000_0000 % 0x1_0000_0000 * 0x1_0000_0000,
{
    let high = x / 0x1_0000_0000;
    assert(x / 0x1_0000_0000_0000_0000 == high / 0x1_0000_0000);
}

/// What is read where the low 16 bits of `x` were written.
pub proof fn le16_read(s: Seq<u8>, at: int, x: int)
    requires
        0 <= at,
        at + 2 <= s.len(),
        s.subrange(at, at + 2) == le16(x),
    ensures
        le16_at(s, at) == x % 0x1_0000,
{
    let t = s.subrange(at, at + 2);
    assert(s[at] == t[0] && s[at + 1] == t[1]);
    le16_round_trip(x);
}

/// What is read where the low 32 bits of `x` were written.
pub proof fn le32_read(s: Seq<u8>, at: int, x: int)
    requires
        0 <= at,
        at + 4 <= s.len(),
        s.subrange(at, at + 4) == le32(x),
    ensures
        le32_at(s, at) == x % 0x1_0000_0000,
{
    let t = s.subrange(at, at + 4);
    assert(s[at] == t[0] && s[at + 1] == t[1] && s[at + 2] == t[2] && s[at + 3] == t[3]);
    le32_round_trip(x);
}

/// What is read where the low 64 bits of `x` were written.
pub proof fn le64_read(s: Seq<u8>, at: int, x: int)
    requires
        0 <= at,
        at + 8 <= s.len(),
        s.subrange(at, at + 8) == le64(x),
    ensures
        le64_at(s, at) == x % 0x1_0000_0000_0000_0000,
{
    let t = s.subrange(at, at + 8);
    assert(s.subrange(at, at + 4) =~= t.subrange(0, 4));
    assert(s.subrange(at + 4, at + 8) =~= t.subrange(4, 8));
    assert(t.subrange(0, 4) =~= le32(x));
    assert(t.subrange(4, 8) =~= le32(x / 0x1_0000_0000));
    le32_read(s, at, x);
    le32_read(s, at + 4, x / 0x1_0000_0000);
    halves(x);
}

/// What is read where the low 32 bits of `x` were written.
pub proof fn be32_read(s: Seq<u8>, at: int, x: int)
    requires
        0 <= at,
        at + 4 <= s.len(),
        s.subrange(at, at + 4) == be32(x),
    ensures
        be32_at(s, at) == x % 0x1_0000_0000,
{
    let t = s.subrange(at, at + 4);
    assert(s[at] == t[0] && s[at + 1] == t[1] && s[at + 2] == t[2] && s[at + 3] == t[3]);
    be32_round_trip(x);
}

/// What is read where the low 64 bits of `x` were written.
pub proof fn be64_read(s: Seq<u8>, at: int, x: int)
    requires
        0 <= at,
        at + 8 <= s.len(),
        s.subrange(at, at + 8) == be64(x),
    ensures
        be64_at(s, at) == x % 0x1_0000_0000_0000_0000,
{
    let t = s.subrange(at, at + 8);
    assert(s.subrange(at, at + 4) =~= t.subrange(0, 4));
    assert(s.subrange(at + 4, at + 8) =~= t.subrange(4, 8));
    assert(t.subrange(0, 4) =~= be32(x / 0x1_0000_0000));
    assert(t.subrange(4, 8) =~= be32(x));
    be32_read(s, at, x / 0x1_0000_0000);
    be32_read(s, at + 4, x);
    halves(x);
}

/// Shifting a number by a byte shifts its bytes: the most significant byte stands first in
/// big-endian order and last in little-endian order, which are each other's reverse.
pub proof fn byte_orders(x: int)
    ensures
        be16(x * 0x100) == be16(x).skip(1).push(0),
        be32(x * 0x100) == be32(x).skip(1).push(0),
        le16(x) == be16(x).reverse(),
        le32(x) == be32(x).reverse(),
        le64(x) == be64(x).reverse(),
        be32(x).skip(2) == be16(x),
        be64(x).skip(4) == be32(x),
        0 <= x < 0x100 ==> be16(x) == seq![0u8, x as u8],
{
    assert(x * 0x100 / 0x100 == x);
    assert(x * 0x100 / 0x1_0000 == x / 0x100);
    assert(x * 0x100 / 0x100_0000 == x / 0x1_0000);
    assert(be16(x * 0x100) =~= be16(x).skip(1).push(0));
    assert(be32(x * 0x100) =~= be32(x).skip(1).push(0));
    assert(le16(x) =~= be16(x).reverse());
    assert(le32(x) =~= be32(x).reverse());
    assert(le64(x) =~= be64(x).reverse());
    assert(be32(x).skip(2) =~= be16(x));
    assert(be64(x).skip(4) =~= be32(x));
}

/// What is read where `x` was written.
#[verifier::spinoff_prover]
pub proof fn le64_reads(s: Seq<u8>, at: int, x: u64)
    requires
        0 <= at,
        at + 8 <= s.len(),
        s.subrange(at, at + 8) == le64(x as int),
    ensures
        le64_at(s, at) == x,
{
    le64_read(s, at, x as int);
}

/// Only the low 16 bits of an integer count.
pub proof fn be16_truncates(x: int, y: int)
    requires
        x % 0x1_0000 == y % 0x1_0000,
    ensures
        be16(x) == be16(y),
{
    be16_round_trip(x);
    be16_round_trip(y);
}

/// Only the low 16 bits of an integer count.
pub proof fn le16_truncates(x: int, y: int)
    requires
        x % 0x1_0000 == y % 0x1_0000,
    ensures
        le16(x) == le16(y),
{
    le16_round_trip(x);
    le16_round_trip(y);
}

/// Only the low 32 bits of an integer count.
pub proof fn be32_truncates(x: int, y: int)
    requires
        x % 0x1_0000_0000 == y % 0x1_0000_0000,
    ensures
        be32(x) == be32(y),
{
    same_low_bytes(x, y);
}

/// Only the low 32 bits of an integer count.
pub proof fn le32_truncates(x: int, y: int)
    requires
        x % 0x1_0000_0000 == y % 0x1_0000_0000,
    ensures
        le32(x) == le32(y),
{
    same_low_bytes(x, y);
}

/// Only the low 64 bits of an integer count.
pub proof fn be64_truncates(x: int, y: int)
    requires
        x % 0x1_0000_0000_0000_0000 == y % 0x1_0000_0000_0000_0000,
    ensures
        be64(x) == be64(y),
{
    halves(x);
    halves(y);
    be32_truncates(x, y);
    be32_truncates(x / 0x1_0000_0000, y / 0x1_0000_0000);
}

/// The low 32 bits of `x`.
pub fn low32(x: u64) -> (r: u32)
    ensures
        r == x % 0x1_0000_0000,
{
    (x % 0x1_0000_0000) as u32
}

/// The low 16 bits of `x`.
pub fn low16(x: u64) -> (r: u16)
    ensures
        r == x % 0x1_0000,
{
    (x % 0x1_0000) as u16
}

/// The bits of `x` read as an unsigned integer.
pub fn bits32(x: i32) -> (r: u32)
    ensures
        r == x as int % 0x1_0000_0000,
{
    if x >= 0 {
        x as u32
    } else {
        (x as i64 + 0x1_0000_0000) as u32
    }
}

/// The bits of `x` read as an unsigned integer.
pub fn bits64(x: i64) -> (r: u64)
    ensures
        r == x as int % 0x1_0000_0000_0000_0000,
{
    if x >= 0 {
        x as u64
    } else {
        (x as i128 + 0x1_0000_0000_0000_0000) as u64
    }
}

/// Appends `bytes`.
pub fn put_bytes(buf: &mut Vec<u8>, bytes: &[u8])
    ensures
        final(buf)@ == old(buf)@ + bytes@,
{
    buf.extend_from_slice(bytes);
    assert(buf@ =~= old(buf)@ + bytes@);
}

/// Appends `count` zero bytes.
pub fn put_zeros(buf: &mut Vec<u8>, count: usize)
    ensures
        final(buf)@ == old(buf)@ + Seq::new(count as nat, |i: int| 0u8),
{
    let mut k: usize = 0;
    while k < count
        invariant
            k <= count,
            buf@ == old(buf)@ + Seq::new(k as nat, |i: int| 0u8),
        decreases count - k,
    {
        buf.push(0);
        k = k + 1;
        assert(buf@ =~= old(buf)@ + Seq::new(k as nat, |i: int| 0u8));
    }
}

/// Appends `x`, most significant byte first.
pub fn put_be16(buf: &mut Vec<u8>, x: u16)
    ensures
        final(buf)@ == old(buf)@ + be16(x as int),
{
    buf.push((x / 0x100) as u8);
    buf.push((x % 0x100) as u8);
    assert(buf@ =~= old(buf)@ + be16(x as int));
}

/// Appends `x`, most significant byte first.
pub fn put_be32(buf: &mut Vec<u8>, x: u32)
    ensures
        final(buf)@ == old(buf)@ + be32(x as int),
{
    buf.push((x / 0x100_0000) as u8);
    buf.push((x / 0x1_0000 % 0x100) as u8);
    buf.push((x / 0x100 % 0x100) as u8);
    buf.push((x % 0x100) as u8);
    assert(buf@ =~= old(buf)@ + be32(x as int));
}

/// Appends `x`, most significant byte first.
pub fn put_be64(buf: &mut Vec<u8>, x: u64)
    ensures
        final(buf)@ == old(buf)@ + be64(x as int),
{
    put_be32(buf, (x / 0x1_0000_0000) as u32);
    put_be32(buf, low32(x));
    proof {
        be32_truncates(x as int, x as int % 0x1_0000_0000);
    }
    assert(buf@ =~= old(buf)@ + be64(x as int));
}

/// Appends `x`, least significant byte first.
pub fn put_le16(buf: &mut Vec<u8>, x: u16)
    ensures
        final(buf)@ == old(buf)@ + le16(x as int),
{
    buf.push((x % 0x100) as u8);
    buf.push((x / 0x100) as u8);
    assert(buf@ =~= old(buf)@ + le16(x as int));
}

/// Appends `x`, least significant byte first.
pub fn put_le32(buf: &mut Vec<u8>, x: u32)
    ensures
        final(buf)@ == old(buf)@ + le32(x as int),
{
    buf.push((x % 0x100) as u8);
    buf.push((x / 0x100 % 0x100) as u8);
    buf.push((x / 0x1_0000 % 0x100) as u8);
    buf.push((x / 0x100_0000) as u8);
    assert(buf@ =~= old(buf)@ + le32(x as int));
}

/// Appends `x`, least significant byte first.
pub fn put_le64(buf: &mut Vec<u8>, x: u64)
    ensures
        final(buf)@ == old(buf)@ + le64(x as int),
{
    put_le32(buf, low32(x));
    put_le32(buf, (x / 0x1_0000_0000) as u32);
    proof {
        le32_truncates(x as int, x as int % 0x1_0000_0000);
    }
    assert(buf@ =~= old(buf)@ + le64(x as int));
}

/// Reads a big-endian 16-bit integer.
pub fn get_be16(data: &[u8], at: usize) -> (r: u16)
    requires
        at + 2 <= data@.len(),
    ensures
        r == be16_at(data@, at as int),
{
    data[at] as u16 * 0x100 + data[at + 1] as u16
}

/// Reads a big-endian 32-bit integer.
pub fn get_be32(data: &[u8], at: usize) -> (r: u32)
    requires
        at + 4 <= data@.len(),
    ensures
        r == be32_at(data@, at as int),
{
    data[at] as u32 * 0x100_0000 + data[at + 1] as u32 * 0x1_0000 + data[at + 2] as u32 * 0x100
        + data[at + 3] as u32
}

/// Reads a little-endian 16-bit integer.
pub fn get_le16(data: &[u8], at: usize) -> (r: u16)
    requires
        at + 2 <= data@.len(),
    ensures
        r == le16_at(data@, at as int),
{
    data[at] as u16 + data[at + 1] as u16 * 0x100
}

/// Reads a little-endian 32-bit integer.
pub fn get_le32(data: &[u8], at: usize) -> (r: u32)
    requires
        at + 4 <= data@.len(),
    ensures
        r == le32_at(data@, at as int),
{
    data[at] as u32 + data[at + 1] as u32 * 0x100 + data[at + 2] as u32 * 0x1_0000
        + data[at + 3] as u32 * 0x100_0000
}

/// Reads a little-endian 64-bit integer.
pub fn get_le64(data: &[u8], at: usize) -> (r: u64)
    requires
        at + 8 <= data@.len(),
    ensures
        r == le64_at(data@, at as int),
{
    assert(data@.len() == data.len());
    get_le32(data, at) as u64 + get_le32(data, at + 4) as u64 * 0x1_0000_0000
}

} // verus!
