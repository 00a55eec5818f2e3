//! Fixed-width integers read from byte sequences.
//!
//! Godot writes its formats in the byte order of the machine that produced
//! them; the readers here decode in the byte order of the machine that runs
//! the code, as the game's own loader does.

use vstd::endian::endianness;
use vstd::endian::Endian;
use vstd::prelude::*;

verus! {

/// The little-endian value of two bytes.
pub open spec fn u16_le(b: Seq<u8>) -> u16 {
    ((b[0] as int) + 0x100 * (b[1] as int)) as u16
}

/// The big-endian value of two bytes.
pub open spec fn u16_be(b: Seq<u8>) -> u16 {
    ((b[1] as int) + 0x100 * (b[0] as int)) as u16
}

/// The little-endian value of four bytes.
pub open spec fn u32_le(b: Seq<u8>) -> u32 {
    ((b[0] as int) + 0x100 * (b[1] as int) + 0x1_0000 * (b[2] as int) + 0x100_0000 * (
    b[3] as int)) as u32
}

/// The big-endian value of four bytes.
pub open spec fn u32_be(b: Seq<u8>) -> u32 {
    ((b[3] as int) + 0x100 * (b[2] as int) + 0x1_0000 * (b[1] as int) + 0x100_0000 * (
    b[0] as int)) as u32
}

/// The little-endian value of eight bytes.
pub open spec fn u64_le(b: Seq<u8>) -> u64 {
    ((u32_le(b.subrange(0, 4)) as int) + 0x1_0000_0000 * (u32_le(b.subrange(4, 8)) as int)) as u64
}

/// The big-endian value of eight bytes.
pub open spec fn u64_be(b: Seq<u8>) -> u64 {
    ((u32_be(b.subrange(4, 8)) as int) + 0x1_0000_0000 * (u32_be(b.subrange(0, 4)) as int)) as u64
}

/// The value of two bytes in the byte order of the running machine.
pub open spec fn u16_ne(b: Seq<u8>) -> u16 {
    if endianness() is Little {
        u16_le(b)
    } else {
        u16_be(b)
    }
}

/// The value of four bytes in the byte order of the running machine.
pub open spec fn u32_ne(b: Seq<u8>) -> u32 {
    if endianness() is Little {
        u32_le(b)
    } else {
        u32_be(b)
    }
}

/// The value of eight bytes in the byte order of the running machine.
pub open spec fn u64_ne(b: Seq<u8>) -> u64 {
    if endianness() is Little {
        u64_le(b)
    } else {
        u64_be(b)
    }
}

/// The `n` bytes that start at `pos`, if the data holds them all.
pub open spec fn bytes_at(data: Seq<u8>, pos: int, n: int) -> Option<Seq<u8>> {
    if 0 <= pos && 0 <= n && pos + n <= data.len() {
        Some(data.subrange(pos, pos + n))
    } else {
        None
    }
}

pub open spec fn u16_ne_at(data: Seq<u8>, pos: int) -> Option<u16> {
    match bytes_at(data, pos, 2) {
        Some(b) => Some(u16_ne(b)),
        None => None,
    }
}

pub open spec fn u32_ne_at(data: Seq<u8>, pos: int) -> Option<u32> {
    match bytes_at(data, pos, 4) {
        Some(b) => Some(u32_ne(b)),
        None => None,
    }
}

pub open spec fn u32_be_at(data: Seq<u8>, pos: int) -> Option<u32> {
    match bytes_at(data, pos, 4) {
        Some(b) => Some(u32_be(b)),
        None => None,
    }
}

pub open spec fn u64_ne_at(data: Seq<u8>, pos: int) -> Option<u64> {
    match bytes_at(data, pos, 8) {
        Some(b) => Some(u64_ne(b)),
        None => None,
    }
}

/// `u16::from_ne_bytes`: the two bytes read in the byte order of the running machine.
#[verifier::external_body]
fn u16_from_ne_bytes(b: [u8; 2]) -> (r: u16)
    ensures
        r == u16_ne(b@),
{
    u16::from_ne_bytes(b)
}

/// `u32::from_ne_bytes`: the four bytes read in the byte order of the running machine.
#[verifier::external_body]
fn u32_from_ne_bytes(b: [u8; 4]) -> (r: u32)
    ensures
        r == u32_ne(b@),
{
    u32::from_ne_bytes(b)
}

/// `u64::from_ne_bytes`: the eight bytes read in the byte order of the running machine.
#[verifier::external_body]
fn u64_from_ne_bytes(b: [u8; 8]) -> (r: u64)
    ensures
        r == u64_ne(b@),
{
    u64::from_ne_bytes(b)
}

/// Whether `n` bytes starting at `pos` lie inside `data`.
pub fn has_bytes(data: &[u8], pos: u64, n: u64) -> (r: bool)
    ensures
        r == bytes_at(data@, pos as int, n as int).is_some(),
        r == (pos + n <= data@.len()),
{
    let len = data.len() as u64;
    pos <= len && n <= len - pos
}

/// The native-order `u16` at `pos`, or `None` past the end of the data.
pub fn read_u16_ne(data: &[u8], pos: u64) -> (r: Option<u16>)
    ensures
        r == u16_ne_at(data@, pos as int),
{
    if !has_bytes(data, pos, 2) {
        return None;
    }
    let p = pos as usize;
    let b = [data[p], data[p + 1]];
    assert(b@ =~= data@.subrange(pos as int, pos + 2));
    Some(u16_from_ne_bytes(b))
}

/// The native-order `u32` at `pos`, or `None` past the end of the data.
pub fn read_u32_ne(data: &[u8], pos: u64) -> (r: Option<u32>)
    ensures
        r == u32_ne_at(data@, pos as int),
{
    if !has_bytes(data, pos, 4) {
        return None;
    }
    let p = pos as usize;
    let b = [data[p], data[p + 1], data[p + 2], data[p + 3]];
    assert(b@ =~= data@.subrange(pos as int, pos + 4));
    Some(u32_from_ne_bytes(b))
}

/// The big-endian `u32` at `pos`, or `None` past the end of the data.
pub fn read_u32_be(data: &[u8], pos: u64) -> (r: Option<u32>)
    ensures
        r == u32_be_at(data@, pos as int),
{
    if !has_bytes(data, pos, 4) {
        return None;
    }
    let p = pos as usize;
    assert(p + 4 <= data@.len());
    let b0 = data[p] as u32;
    let b1 = data[p + 1] as u32;
    let b2 = data[p + 2] as u32;
    let b3 = data[p + 3] as u32;
    let v: u32 = b3 + 0x100 * b2 + 0x1_0000 * b1 + 0x100_0000 * b0;
    assert(data@.subrange(pos as int, pos + 4)[0] == data@[pos as int]);
    assert(data@.subrange(pos as int, pos + 4)[1] == data@[pos + 1]);
    assert(data@.subrange(pos as int, pos + 4)[2] == data@[pos + 2]);
    assert(data@.subrange(pos as int, pos + 4)[3] == data@[pos + 3]);
    Some(v)
}

/// The native-order `u64` at `pos`, or `None` past the end of the data.
pub fn read_u64_ne(data: &[u8], pos: u64) -> (r: Option<u64>)
    ensures
        r == u64_ne_at(data@, pos as int),
{
    if !has_bytes(data, pos, 8) {
        return None;
    }
    let p = pos as usize;
    let b = [
        data[p],
        data[p + 1],
        data[p + 2],
        data[p + 3],
        data[p + 4],
        data[p + 5],
        data[p + 6],
        data[p + 7],
    ];
    assert(b@ =~= data@.subrange(pos as int, pos + 8));
    Some(u64_from_ne_bytes(b))
}

pub open spec fn u16_le_at(data: Seq<u8>, pos: int) -> Option<u16> {
    match bytes_at(data, pos, 2) {
        Some(b) => Some(u16_le(b)),
        None => None,
    }
}

pub open spec fn u16_be_at(data: Seq<u8>, pos: int) -> Option<u16> {
    match bytes_at(data, pos, 2) {
        Some(b) => Some(u16_be(b)),
        None => None,
    }
}

pub open spec fn u32_le_at(data: Seq<u8>, pos: int) -> Option<u32> {
    match bytes_at(data, pos, 4) {
        Some(b) => Some(u32_le(b)),
        None => None,
    }
}

pub open spec fn u64_le_at(data: Seq<u8>, pos: int) -> Option<u64> {
    match bytes_at(data, pos, 8) {
        Some(b) => Some(u64_le(b)),
        None => None,
    }
}

pub open spec fn u64_be_at(data: Seq<u8>, pos: int) -> Option<u64> {
    match bytes_at(data, pos, 8) {
        Some(b) => Some(u64_be(b)),
        None => None,
    }
}

/// The byte at `pos`, or `None` past the end of the data (one byte reads the
/// same in every byte order).
pub fn read_u8(data: &[u8], pos: u64) -> (r: Option<u8>)
    ensures
        match bytes_at(data@, pos as int, 1) {
            Some(b) => r == Some(b[0]),
            None => r is None,
        },
{
    if !has_bytes(data, pos, 1) {
        return None;
    }
    Some(data[pos as usize])
}

/// The little-endian `u16` at `pos`, or `None` past the end of the data.
pub fn read_u16_le(data: &[u8], pos: u64) -> (r: Option<u16>)
    ensures
        r == u16_le_at(data@, pos as int),
{
    if !has_bytes(data, pos, 2) {
        return None;
    }
    let len = data.len();
    let p = pos as usize;
    assert(p + 2 <= len);
    let b0 = data[p] as u16;
    let b1 = data[p + 1] as u16;
    assert(data@.subrange(pos as int, pos + 2)[0] == data@[pos as int]);
    assert(data@.subrange(pos as int, pos + 2)[1] == data@[pos + 1]);
    Some(b0 + 0x100 * b1)
}

/// The big-endian `u16` at `pos`, or `None` past the end of the data.
pub fn read_u16_be(data: &[u8], pos: u64) -> (r: Option<u16>)
    ensures
        r == u16_be_at(data@, pos as int),
{
    if !has_bytes(data, pos, 2) {
        return None;
    }
    let len = data.len();
    let p = pos as usize;
    assert(p + 2 <= len);
    let b0 = data[p] as u16;
    let b1 = data[p + 1] as u16;
    assert(data@.subrange(pos as int, pos + 2)[0] == data@[pos as int]);
    assert(data@.subrange(pos as int, pos + 2)[1] == data@[pos + 1]);
    Some(b1 + 0x100 * b0)
}

/// The little-endian `u32` at `pos`, or `None` past the end of the data.
pub fn read_u32_le(data: &[u8], pos: u64) -> (r: Option<u32>)
    ensures
        r == u32_le_at(data@, pos as int),
{
    if !has_bytes(data, pos, 4) {
        return None;
    }
    let len = data.len();
    let p = pos as usize;
    assert(p + 4 <= len);
    let b0 = data[p] as u32;
    let b1 = data[p + 1] as u32;
    let b2 = data[p + 2] as u32;
    let b3 = data[p + 3] as u32;
    assert(data@.subrange(pos as int, pos + 4)[0] == data@[pos as int]);
    assert(data@.subrange(pos as int, pos + 4)[1] == data@[pos + 1]);
    assert(data@.subrange(pos as int, pos + 4)[2] == data@[pos + 2]);
    assert(data@.subrange(pos as int, pos + 4)[3] == data@[pos + 3]);
    Some(b0 + 0x100 * b1 + 0x1_0000 * b2 + 0x100_0000 * b3)
}

/// The little-endian `u64` at `pos`, or `None` past the end of the data.
pub fn read_u64_le(data: &[u8], pos: u64) -> (r: Option<u64>)
    ensures
        r == u64_le_at(data@, pos as int),
{
    if !has_bytes(data, pos, 8) {
        return None;
    }
    let len = data.len();
    assert(pos + 8 <= len);
    let lo = read_u32_le(data, pos).unwrap();
    let hi = read_u32_le(data, pos + 4).unwrap();
    assert(data@.subrange(pos as int, pos + 8).subrange(0, 4) =~= data@.subrange(pos as int, pos + 4));
    assert(data@.subrange(pos as int, pos + 8).subrange(4, 8) =~= data@.subrange(pos + 4, pos + 8));
    Some(lo as u64 + 0x1_0000_0000 * hi as u64)
}

/// The big-endian `u64` at `pos`, or `None` past the end of the data.
pub fn read_u64_be(data: &[u8], pos: u64) -> (r: Option<u64>)
    ensures
        r == u64_be_at(data@, pos as int),
{
    if !has_bytes(data, pos, 8) {
        return None;
    }
    let len = data.len();
    assert(pos + 8 <= len);
    let hi = read_u32_be(data, pos).unwrap();
    let lo = read_u32_be(data, pos + 4).unwrap();
    assert(data@.subrange(pos as int, pos + 8).subrange(0, 4) =~= data@.subrange(pos as int, pos + 4));
    assert(data@.subrange(pos as int, pos + 8).subrange(4, 8) =~= data@.subrange(pos + 4, pos + 8));
    Some(lo as u64 + 0x1_0000_0000 * hi as u64)
}

/// The `n` bytes at `pos` as a vector, or `None` past the end of the data.
pub fn read_bytes(data: &[u8], pos: u64, n: u64) -> (r: Option<Vec<u8>>)
    ensures
        match bytes_at(data@, pos as int, n as int) {
            Some(b) => r matches Some(v) && v@ == b,
            None => r is None,
        },
{
    if !has_bytes(data, pos, n) {
        return None;
    }
    let len = data.len();
    let p = pos as usize;
    assert(p + n <= len);
    let nn = n as usize;
    assert(nn == n);
    let e = p + nn;
    let mut out: Vec<u8> = Vec::new();
    let mut i = p;
    while i < e
        invariant
            p <= i <= e <= data@.len(),
            out@ =~= data@.subrange(p as int, i as int),
        decreases e - i,
    {
        out.push(data[i]);
        i += 1;
    }
    Some(out)
}

/// The four little-endian bytes of `x`.
pub open spec fn le_bytes_u32(x: u32) -> Seq<u8> {
    seq![(x % 0x100) as u8, ((x / 0x100) % 0x100) as u8, ((x / 0x1_0000) % 0x100) as u8, (x / 0x100_0000) as u8]
}

/// `x.to_le_bytes()`.
pub fn u32_to_le_bytes(x: u32) -> (r: [u8; 4])
    ensures
        r@ == le_bytes_u32(x),
        u32_le(r@) == x,
{
    let r = [(x % 0x100) as u8, ((x / 0x100) % 0x100) as u8, ((x / 0x1_0000) % 0x100) as u8, (x / 0x100_0000) as u8];
    assert(r@ =~= le_bytes_u32(x));
    r
}

/// The bytes of a region of `size` bytes at `start`, cut short where the
/// data ends (what a reader limited to `size` bytes gives after seeking to
/// `start`).
pub open spec fn clamped_bytes(data: Seq<u8>, start: int, size: int) -> Seq<u8> {
    let s = if start < data.len() {
        start
    } else {
        data.len() as int
    };
    let e = if start + size < data.len() {
        start + size
    } else {
        data.len() as int
    };
    data.subrange(s, e)
}

/// The bytes of the region of `size` bytes at `start`, cut short where the data ends.
pub fn slice_clamped(data: &[u8], start: u64, size: u64) -> (r: &[u8])
    ensures
        r@ == clamped_bytes(data@, start as int, size as int),
{
    let len = data.len();
    let s: usize = if start < len as u64 {
        start as usize
    } else {
        len
    };
    let e: usize = if size < len as u64 - s as u64 {
        s + size as usize
    } else {
        len
    };
    vstd::slice::slice_subrange(data, s, e)
}

} // verus!
