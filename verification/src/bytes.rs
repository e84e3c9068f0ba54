//! Fixed-width integers on the wire, and the byte cursor the readers share.

use vstd::prelude::*;
use byteorder::{BigEndian, ByteOrder, LittleEndian};
use crate::error::{PaaError, PaaResult};

verus! {

/// Byte order of an integer on the wire.
#[derive(Clone, Copy, Debug, PartialEq, Eq, Structural)]
pub enum Endian {
    Little,
    Big,
}

/// `256^n`.
pub open spec fn pow256(n: nat) -> nat
    decreases n,
{
    if n == 0 {
        1
    } else {
        256 * pow256((n - 1) as nat)
    }
}

/// The `n` low base-256 digits of `v`, least significant first.
pub open spec fn le_digits(v: nat, n: nat) -> Seq<u8>
    decreases n,
{
    if n == 0 {
        Seq::<u8>::empty()
    } else {
        seq![(v % 256) as u8].add(le_digits(v / 256, (n - 1) as nat))
    }
}

/// The bytes of `v` in `n` positions in the given order.
pub open spec fn uint_bytes(endian: Endian, v: nat, n: nat) -> Seq<u8> {
    match endian {
        Endian::Little => le_digits(v, n),
        Endian::Big => le_digits(v, n).reverse(),
    }
}

/// The 16-bit value stored little-endian in two bytes.
pub open spec fn le16(b0: u8, b1: u8) -> u16 {
    (b0 as int + 256 * (b1 as int)) as u16
}

/// The 24-bit value stored little-endian in three bytes.
pub open spec fn le24(b0: u8, b1: u8, b2: u8) -> u32 {
    (b0 as int + 256 * (b1 as int) + 65536 * (b2 as int)) as u32
}

/// The 32-bit value stored little-endian in four bytes.
pub open spec fn le32(b0: u8, b1: u8, b2: u8, b3: u8) -> u32 {
    (b0 as int + 256 * (b1 as int) + 65536 * (b2 as int) + 16777216 * (b3 as int)) as u32
}

/// The 32-bit value stored little-endian at `at` in `s`.
pub open spec fn le32_at(s: Seq<u8>, at: int) -> u32 {
    le32(s[at], s[at + 1], s[at + 2], s[at + 3])
}

/// The 16-bit value stored little-endian at `at` in `s`.
pub open spec fn le16_at(s: Seq<u8>, at: int) -> u16 {
    le16(s[at], s[at + 1])
}

/// The 24-bit value stored little-endian at `at` in `s`.
pub open spec fn le24_at(s: Seq<u8>, at: int) -> u32 {
    le24(s[at], s[at + 1], s[at + 2])
}

/// Two's-complement reading of a 32-bit pattern.
pub open spec fn as_signed(v: u32) -> i32 {
    if v < 0x8000_0000 {
        v as i32
    } else {
        (v as int - 0x1_0000_0000) as i32
    }
}

/// Two's-complement pattern of a signed 32-bit value.
pub open spec fn as_unsigned(v: i32) -> u32 {
    if v >= 0 {
        v as u32
    } else {
        (v as int + 0x1_0000_0000) as u32
    }
}

/// Little-endian bytes of a 16-bit value.
pub open spec fn u16_le(v: u16) -> Seq<u8> {
    seq![(v % 256) as u8, (v / 256) as u8]
}

/// Little-endian bytes of a value below `2^24`.
pub open spec fn u24_le(v: u32) -> Seq<u8> {
    seq![(v % 256) as u8, (v / 256 % 256) as u8, (v / 65536 % 256) as u8]
}

/// Little-endian bytes of a 32-bit value.
pub open spec fn u32_le(v: u32) -> Seq<u8> {
    seq![(v % 256) as u8, (v / 256 % 256) as u8, (v / 65536 % 256) as u8, (v / 16777216) as u8]
}

/// Little-endian bytes of each value of `vals` in turn.
pub open spec fn u32s_le(vals: Seq<u32>) -> Seq<u8>
    decreases vals.len(),
{
    if vals.len() == 0 {
        Seq::<u8>::empty()
    } else {
        u32s_le(vals.drop_last()).add(u32_le(vals.last()))
    }
}

/// The powers of 256 that the fixed-width fields need.
pub proof fn lemma_pow256_values()
    ensures
        pow256(0) == 1,
        pow256(1) == 256,
        pow256(2) == 65536,
        pow256(3) == 16777216,
        pow256(4) == 4294967296,
        pow256(8) == 18446744073709551616,
{
    reveal_with_fuel(pow256, 10);
}

/// The generic digits agree with the closed forms for two, three and four bytes.
pub proof fn lemma_digits_closed_forms(v: u32)
    ensures
        v < 65536 ==> le_digits(v as nat, 2) =~= u16_le(v as u16),
        v < 16777216 ==> le_digits(v as nat, 3) =~= u24_le(v),
        le_digits(v as nat, 4) =~= u32_le(v),
{
    reveal_with_fuel(le_digits, 6);
}

/// Reading back what was written gives the value.
pub proof fn lemma_le_round_trip(v: u32)
    ensures
        v < 65536 ==> le16(u16_le(v as u16)[0], u16_le(v as u16)[1]) == v,
        v < 16777216 ==> le24(u24_le(v)[0], u24_le(v)[1], u24_le(v)[2]) == v,
        le32(u32_le(v)[0], u32_le(v)[1], u32_le(v)[2], u32_le(v)[3]) == v,
{
}

/// Writing the 16-bit value read from two bytes gives the two bytes.
pub proof fn lemma_u16_le_of_le16(b0: u8, b1: u8)
    ensures
        u16_le(le16(b0, b1)) =~= seq![b0, b1],
{
}

/// Writing the 32-bit value read from four bytes gives the four bytes.
pub proof fn lemma_u32_le_of_le32(b0: u8, b1: u8, b2: u8, b3: u8)
    ensures
        u32_le(le32(b0, b1, b2, b3)) =~= seq![b0, b1, b2, b3],
{
    let v = le32(b0, b1, b2, b3);
    assert(v % 256 == b0);
    assert(v / 256 == b1 as int + 256 * (b2 as int) + 65536 * (b3 as int));
    assert(v / 65536 == b2 as int + 256 * (b3 as int));
    assert(v / 16777216 == b3);
}

/// The signed and the unsigned reading of 32 bits undo each other.
pub proof fn lemma_signed_round_trip(v: i32, u: u32)
    ensures
        as_signed(as_unsigned(v)) == v,
        as_unsigned(as_signed(u)) == u,
{
}

/// `LittleEndian::read_u16` of byteorder: the first two bytes of `buf` as a
/// little-endian number. It panics on a shorter slice.
#[verifier::external_body]
pub(crate) fn read_u16_le(buf: &[u8]) -> (v: u16)
    requires
        buf@.len() >= 2,
    ensures
        v == le16(buf@[0], buf@[1]),
{
    LittleEndian::read_u16(buf)
}

/// `LittleEndian::read_uint` of byteorder with three bytes: the first three
/// bytes of `buf` as a little-endian number. It panics on a shorter slice.
#[verifier::external_body]
pub(crate) fn read_u24_le(buf: &[u8]) -> (v: u32)
    requires
        buf@.len() >= 3,
    ensures
        v == le24(buf@[0], buf@[1], buf@[2]),
{
    LittleEndian::read_uint(buf, 3) as u32
}

/// `LittleEndian::read_u32` of byteorder: the first four bytes of `buf` as a
/// little-endian number. It panics on a shorter slice.
#[verifier::external_body]
pub(crate) fn read_u32_le(buf: &[u8]) -> (v: u32)
    requires
        buf@.len() >= 4,
    ensures
        v == le32(buf@[0], buf@[1], buf@[2], buf@[3]),
{
    LittleEndian::read_u32(buf)
}

/// `LittleEndian::read_i32` of byteorder: the first four bytes of `buf` as a
/// little-endian two's-complement number. It panics on a shorter slice.
#[verifier::external_body]
pub(crate) fn read_i32_le(buf: &[u8]) -> (v: i32)
    requires
        buf@.len() >= 4,
    ensures
        v == as_signed(le32(buf@[0], buf@[1], buf@[2], buf@[3])),
{
    LittleEndian::read_i32(buf)
}

/// `LittleEndian::read_u32_into` of byteorder into `count` values: each group
/// of four bytes of `src` as a little-endian number. It panics unless `src`
/// is four times as long as the values.
#[verifier::external_body]
pub(crate) fn read_u32s_le(src: &[u8], count: usize) -> (dst: Vec<u32>)
    requires
        src@.len() == 4 * count,
    ensures
        dst@.len() == count,
        forall|i: int| 0 <= i < dst@.len() ==> #[trigger] dst@[i] == le32_at(src@, 4 * i),
{
    let mut dst = vec![0u32; count];
    LittleEndian::read_u32_into(src, &mut dst);
    dst
}

/// `LittleEndian::write_u32_into` of byteorder into `len` bytes: the
/// little-endian bytes of each value of `src` in turn. It panics unless the
/// bytes are four times as many as the values.
#[verifier::external_body]
pub(crate) fn write_u32s_le(src: &[u32], len: usize) -> (dst: Vec<u8>)
    requires
        len == 4 * src@.len(),
    ensures
        dst@ == u32s_le(src@),
{
    let mut dst = vec![0u8; len];
    LittleEndian::write_u32_into(src, &mut dst);
    dst
}

/// `LittleEndian::write_i32` of byteorder: the four little-endian bytes of
/// the two's-complement pattern of `v`.
#[verifier::external_body]
pub(crate) fn write_i32_le(v: i32) -> (out: Vec<u8>)
    ensures
        out@ == u32_le(as_unsigned(v)),
{
    let mut buf = vec![0u8; 4];
    LittleEndian::write_i32(&mut buf, v);
    buf
}

/// `LittleEndian::write_uint` of byteorder: the `n` low bytes of `v`, least
/// significant first. It panics when `v` needs more than `n` bytes or `n`
/// exceeds eight.
#[verifier::external_body]
pub(crate) fn write_uint_le(v: u64, n: usize) -> (out: Vec<u8>)
    requires
        1 <= n <= 8,
        (v as nat) < pow256(n as nat),
    ensures
        out@ == le_digits(v as nat, n as nat),
{
    let mut buf = vec![0u8; n];
    LittleEndian::write_uint(&mut buf, v, n);
    buf
}

/// `BigEndian::write_uint` of byteorder: the `n` low bytes of `v`, most
/// significant first. It panics when `v` needs more than `n` bytes or `n`
/// exceeds eight.
#[verifier::external_body]
pub(crate) fn write_uint_be(v: u64, n: usize) -> (out: Vec<u8>)
    requires
        1 <= n <= 8,
        (v as nat) < pow256(n as nat),
    ensures
        out@ == le_digits(v as nat, n as nat).reverse(),
{
    let mut buf = vec![0u8; n];
    BigEndian::write_uint(&mut buf, v, n);
    buf
}

/// Whether `v` can be written in `n` bytes.
pub fn fits_in_bytes(v: u64, n: usize) -> (r: bool)
    requires
        1 <= n <= 8,
    ensures
        r == ((v as nat) < pow256(n as nat)),
{
    proof {
        reveal_with_fuel(pow256, 10);
    }
    if n == 8 {
        true
    } else if n == 1 {
        v < 0x100
    } else if n == 2 {
        v < 0x1_0000
    } else if n == 3 {
        v < 0x100_0000
    } else if n == 4 {
        v < 0x1_0000_0000
    } else if n == 5 {
        v < 0x100_0000_0000
    } else if n == 6 {
        v < 0x1_0000_0000_0000
    } else {
        v < 0x100_0000_0000_0000
    }
}

/// Appends the `n` bytes of `v` to `dest` in the given byte order.
pub fn extend_with_uint(dest: &mut Vec<u8>, endian: Endian, v: u64, n: usize)
    requires
        1 <= n <= 8,
        (v as nat) < pow256(n as nat),
    ensures
        final(dest)@ == old(dest)@ + uint_bytes(endian, v as nat, n as nat),
{
    let digits = match endian {
        Endian::Little => write_uint_le(v, n),
        Endian::Big => write_uint_be(v, n),
    };
    dest.extend_from_slice(digits.as_slice());
}

/// Appends `v` as two little-endian bytes.
pub fn push_u16_le(dest: &mut Vec<u8>, v: u16)
    ensures
        final(dest)@ == old(dest)@ + u16_le(v),
{
    proof {
        lemma_pow256_values();
        lemma_digits_closed_forms(v as u32);
    }
    extend_with_uint(dest, Endian::Little, v as u64, 2);
}

/// Appends `v`, which is below `2^24`, as three little-endian bytes.
pub fn push_u24_le(dest: &mut Vec<u8>, v: u32)
    requires
        v < 16777216,
    ensures
        final(dest)@ == old(dest)@ + u24_le(v),
{
    proof {
        lemma_pow256_values();
        lemma_digits_closed_forms(v);
    }
    extend_with_uint(dest, Endian::Little, v as u64, 3);
}

/// Appends `v` as four little-endian bytes.
pub fn push_u32_le(dest: &mut Vec<u8>, v: u32)
    ensures
        final(dest)@ == old(dest)@ + u32_le(v),
{
    proof {
        lemma_pow256_values();
        lemma_digits_closed_forms(v);
    }
    extend_with_uint(dest, Endian::Little, v as u64, 4);
}

/// A read position over a byte buffer.
pub struct PaaReader<'a> {
    pub data: &'a [u8],
    pub pos: usize,
}

impl<'a> PaaReader<'a> {
    /// A reader at the start of `data`.
    pub fn new(data: &'a [u8]) -> (r: Self)
        ensures
            r.data@ == data@,
            r.pos == 0,
    {
        PaaReader { data, pos: 0 }
    }

    /// The bytes not yet read.
    pub open spec fn rest(&self) -> Seq<u8> {
        if self.pos <= self.data@.len() {
            self.data@.subrange(self.pos as int, self.data@.len() as int)
        } else {
            Seq::<u8>::empty()
        }
    }

    /// The current position.
    pub fn position(&self) -> (p: usize)
        ensures
            p == self.pos,
    {
        self.pos
    }

    /// Moves to an absolute position, which may lie past the end.
    pub fn seek(&mut self, pos: usize)
        ensures
            final(self).data == old(self).data,
            final(self).pos == pos,
    {
        self.pos = pos;
    }

    /// Reads exactly `len` bytes, or fails with `UnexpectedEof` and leaves
    /// the position where it was.
    pub fn read_exact_buffered(&mut self, len: usize) -> (res: PaaResult<Vec<u8>>)
        ensures
            final(self).data == old(self).data,
            old(self).pos + len <= old(self).data@.len() ==> res is Ok
                && res->Ok_0@ == old(self).data@.subrange(old(self).pos as int, old(self).pos + len)
                && final(self).pos == old(self).pos + len,
            old(self).pos + len > old(self).data@.len() ==> res == Err::<Vec<u8>, PaaError>(
                PaaError::UnexpectedEof,
            ) && final(self).pos == old(self).pos,
    {
        if self.pos > self.data.len() || len > self.data.len() - self.pos {
            return Err(PaaError::UnexpectedEof);
        }
        let chunk = vstd::slice::slice_subrange(self.data, self.pos, self.pos + len);
        let out = vstd::slice::slice_to_vec(chunk);
        self.pos = self.pos + len;
        Ok(out)
    }

    /// Reads a little-endian 16-bit value.
    pub fn read_u16(&mut self) -> (res: PaaResult<u16>)
        ensures
            final(self).data == old(self).data,
            old(self).pos + 2 <= old(self).data@.len() ==> res == Ok::<u16, PaaError>(
                le16_at(old(self).data@, old(self).pos as int),
            ) && final(self).pos == old(self).pos + 2,
            old(self).pos + 2 > old(self).data@.len() ==> res == Err::<u16, PaaError>(
                PaaError::UnexpectedEof,
            ) && final(self).pos == old(self).pos,
    {
        match self.read_exact_buffered(2) {
            Ok(buf) => Ok(read_u16_le(buf.as_slice())),
            Err(e) => Err(e),
        }
    }

    /// Reads a little-endian 24-bit value.
    pub fn read_u24(&mut self) -> (res: PaaResult<u32>)
        ensures
            final(self).data == old(self).data,
            old(self).pos + 3 <= old(self).data@.len() ==> res == Ok::<u32, PaaError>(
                le24_at(old(self).data@, old(self).pos as int),
            ) && final(self).pos == old(self).pos + 3,
            old(self).pos + 3 > old(self).data@.len() ==> res == Err::<u32, PaaError>(
                PaaError::UnexpectedEof,
            ) && final(self).pos == old(self).pos,
    {
        match self.read_exact_buffered(3) {
            Ok(buf) => Ok(read_u24_le(buf.as_slice())),
            Err(e) => Err(e),
        }
    }
}

} // verus!
