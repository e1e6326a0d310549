//! Machine words read from and written to raw memory, in the byte order of the
//! executing machine.

use vstd::endian::{endianness, Endian};
use vstd::prelude::*;

verus! {

/// Unsigned value of `b`, least significant byte first.
pub open spec fn le_value(b: Seq<u8>) -> nat
    decreases b.len(),
{
    if b.len() == 0 {
        0
    } else {
        b[0] as nat + 256 * le_value(b.drop_first())
    }
}

/// Unsigned value of `b` in the byte order of the executing machine.
pub open spec fn ne_value(b: Seq<u8>) -> nat {
    match endianness() {
        Endian::Little => le_value(b),
        Endian::Big => le_value(b.reverse()),
    }
}

/// Two's-complement reading of a 32-bit unsigned value.
pub open spec fn signed32(u: int) -> int {
    if u < 0x8000_0000 {
        u
    } else {
        u - 0x1_0000_0000
    }
}

/// Two's-complement reading of a 64-bit unsigned value.
pub open spec fn signed64(u: int) -> int {
    if u < 0x8000_0000_0000_0000 {
        u
    } else {
        u - 0x1_0000_0000_0000_0000
    }
}

/// The `i32` stored in the four bytes `b`.
pub open spec fn i32_of(b: Seq<u8>) -> int {
    signed32(ne_value(b) as int)
}

/// The `i64` stored in the eight bytes `b`.
pub open spec fn i64_of(b: Seq<u8>) -> int {
    signed64(ne_value(b) as int)
}

/// Relies on `u32::from_ne_bytes`: the value of four bytes in native byte order.
#[verifier::external_body]
fn u32_from_ne(b: &[u8]) -> (r: u32)
    requires
        b@.len() == 4,
    ensures
        r as nat == ne_value(b@),
{
    u32::from_ne_bytes([b[0], b[1], b[2], b[3]])
}

/// Relies on `u64::from_ne_bytes`: the value of eight bytes in native byte order.
#[verifier::external_body]
fn u64_from_ne(b: &[u8]) -> (r: u64)
    requires
        b@.len() == 8,
    ensures
        r as nat == ne_value(b@),
{
    u64::from_ne_bytes([b[0], b[1], b[2], b[3], b[4], b[5], b[6], b[7]])
}

/// Relies on `u32::to_ne_bytes`: the memory representation of `x`, which
/// `u32::from_ne_bytes` reads back as `x`.
#[verifier::external_body]
fn u32_to_ne(x: u32) -> (r: Vec<u8>)
    ensures
        r@.len() == 4,
        ne_value(r@) == x,
{
    x.to_ne_bytes().to_vec()
}

/// Relies on `u64::to_ne_bytes`: the memory representation of `x`, which
/// `u64::from_ne_bytes` reads back as `x`.
#[verifier::external_body]
fn u64_to_ne(x: u64) -> (r: Vec<u8>)
    ensures
        r@.len() == 8,
        ne_value(r@) == x,
{
    x.to_ne_bytes().to_vec()
}

/// Reads the unsigned 32-bit word at `mem[at..at + 4]`.
pub fn read_u32(mem: &[u8], at: usize) -> (r: u32)
    requires
        at + 4 <= mem@.len(),
    ensures
        r as nat == ne_value(mem@.subrange(at as int, at + 4)),
{
    let b: [u8; 4] = [mem[at], mem[at + 1], mem[at + 2], mem[at + 3]];
    assert(b@ =~= mem@.subrange(at as int, at + 4));
    u32_from_ne(&b)
}

/// Reads the unsigned 64-bit word at `mem[at..at + 8]`.
pub fn read_u64(mem: &[u8], at: usize) -> (r: u64)
    requires
        at + 8 <= mem@.len(),
    ensures
        r as nat == ne_value(mem@.subrange(at as int, at + 8)),
{
    let b: [u8; 8] = [
        mem[at],
        mem[at + 1],
        mem[at + 2],
        mem[at + 3],
        mem[at + 4],
        mem[at + 5],
        mem[at + 6],
        mem[at + 7],
    ];
    assert(b@ =~= mem@.subrange(at as int, at + 8));
    u64_from_ne(&b)
}

/// The `i32` whose two's-complement bits are `u`.
pub fn to_signed32(u: u32) -> (r: i32)
    ensures
        r == signed32(u as int),
{
    if u < 0x8000_0000 {
        u as i32
    } else {
        (u as i64 - 0x1_0000_0000i64) as i32
    }
}

/// The `i64` whose two's-complement bits are `u`.
pub fn to_signed64(u: u64) -> (r: i64)
    ensures
        r == signed64(u as int),
{
    if u < 0x8000_0000_0000_0000 {
        u as i64
    } else {
        -((u64::MAX - u) as i64) - 1
    }
}

/// Reads the `i32` stored at `mem[at..at + 4]`.
pub fn read_i32(mem: &[u8], at: usize) -> (r: i32)
    requires
        at + 4 <= mem@.len(),
    ensures
        r == i32_of(mem@.subrange(at as int, at + 4)),
{
    to_signed32(read_u32(mem, at))
}

/// Reads the `i64` stored at `mem[at..at + 8]`.
pub fn read_i64(mem: &[u8], at: usize) -> (r: i64)
    requires
        at + 8 <= mem@.len(),
    ensures
        r == i64_of(mem@.subrange(at as int, at + 8)),
{
    to_signed64(read_u64(mem, at))
}

/// The four bytes that store `v`.
pub fn i32_bytes(v: i32) -> (r: Vec<u8>)
    ensures
        r@.len() == 4,
        i32_of(r@) == v,
{
    let u: u32 = if v >= 0 {
        v as u32
    } else {
        (v as i64 + 0x1_0000_0000i64) as u32
    };
    u32_to_ne(u)
}

/// The eight bytes that store `v`.
pub fn i64_bytes(v: i64) -> (r: Vec<u8>)
    ensures
        r@.len() == 8,
        i64_of(r@) == v,
{
    let u: u64 = if v >= 0 {
        v as u64
    } else {
        u64::MAX - ((-(v + 1)) as u64)
    };
    u64_to_ne(u)
}

} // verus!
