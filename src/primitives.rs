//! Big-endian decoders over byte slices, each reading at a given offset.
use vstd::prelude::*;

verus! {

/// The unsigned 16-bit big-endian value stored at `p`.
pub open spec fn u16_at(b: Seq<u8>, p: int) -> nat {
    (b[p] as nat) * 256 + (b[p + 1] as nat)
}

/// The unsigned 32-bit big-endian value stored at `p`.
pub open spec fn u32_at(b: Seq<u8>, p: int) -> nat {
    u16_at(b, p) * 65536 + u16_at(b, p + 2)
}

/// The unsigned 64-bit big-endian value stored at `p`.
pub open spec fn u64_at(b: Seq<u8>, p: int) -> nat {
    u32_at(b, p) * 4294967296 + u32_at(b, p + 4)
}

/// The two's-complement reading of a 32-bit pattern.
pub open spec fn signed32(v: nat) -> int {
    if v >= 0x8000_0000 {
        v - 0x1_0000_0000
    } else {
        v as int
    }
}

/// The two's-complement reading of a 16-bit pattern.
pub open spec fn signed16(v: nat) -> int {
    if v >= 0x8000 {
        v - 0x1_0000
    } else {
        v as int
    }
}

/// The two's-complement reading of an 8-bit pattern.
pub open spec fn signed8(v: nat) -> int {
    if v >= 0x80 {
        v - 0x100
    } else {
        v as int
    }
}

/// The two's-complement reading of a 64-bit pattern.
pub open spec fn signed64(v: nat) -> int {
    if v >= 0x8000_0000_0000_0000 {
        v - 0x1_0000_0000_0000_0000
    } else {
        v as int
    }
}

pub fn parse_u8(b: &[u8], p: usize) -> (r: u8)
    requires
        p < b@.len(),
    ensures
        r == b@[p as int],
{
    b[p]
}

pub fn parse_u16(b: &[u8], p: usize) -> (r: u16)
    requires
        p + 2 <= b@.len(),
    ensures
        r as nat == u16_at(b@, p as int),
{
    let hi = b[p] as u16;
    let lo = b[p + 1] as u16;
    hi * 256 + lo
}

pub fn parse_u32(b: &[u8], p: usize) -> (r: u32)
    requires
        p + 4 <= b@.len(),
    ensures
        r as nat == u32_at(b@, p as int),
{
    assert(b@.len() == b.len());
    let hi = parse_u16(b, p) as u32;
    let lo = parse_u16(b, p + 2) as u32;
    hi * 65536 + lo
}

pub fn parse_u64(b: &[u8], p: usize) -> (r: u64)
    requires
        p + 8 <= b@.len(),
    ensures
        r as nat == u64_at(b@, p as int),
{
    assert(b@.len() == b.len());
    let hi = parse_u32(b, p) as u64;
    let lo = parse_u32(b, p + 4) as u64;
    hi * 4294967296 + lo
}

pub fn parse_i8(b: &[u8], p: usize) -> (r: i8)
    requires
        p < b@.len(),
    ensures
        r as int == signed8(b@[p as int] as nat),
{
    let v = b[p];
    if v >= 0x80 {
        let m: u8 = v - 0x80;
        (m as i8) - 0x7f - 1
    } else {
        v as i8
    }
}

pub fn parse_i16(b: &[u8], p: usize) -> (r: i16)
    requires
        p + 2 <= b@.len(),
    ensures
        r as int == signed16(u16_at(b@, p as int)),
{
    let v = parse_u16(b, p);
    if v >= 0x8000 {
        let m: u16 = v - 0x8000;
        (m as i16) - 0x7fff - 1
    } else {
        v as i16
    }
}

pub fn parse_i32(b: &[u8], p: usize) -> (r: i32)
    requires
        p + 4 <= b@.len(),
    ensures
        r as int == signed32(u32_at(b@, p as int)),
{
    let v = parse_u32(b, p);
    if v >= 0x8000_0000 {
        let m: u32 = v - 0x8000_0000;
        (m as i32) - 0x7fff_ffff - 1
    } else {
        v as i32
    }
}

pub fn parse_i64(b: &[u8], p: usize) -> (r: i64)
    requires
        p + 8 <= b@.len(),
    ensures
        r as int == signed64(u64_at(b@, p as int)),
{
    let v = parse_u64(b, p);
    if v >= 0x8000_0000_0000_0000 {
        let m: u64 = v - 0x8000_0000_0000_0000;
        (m as i64) - 0x7fff_ffff_ffff_ffff - 1
    } else {
        v as i64
    }
}

} // verus!
