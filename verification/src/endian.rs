//! Fixed-width little-endian integers, decoded by the `byteorder` crate.

use vstd::prelude::*;
use byteorder::{ByteOrder, LittleEndian};
use crate::reader::ByteReader;
use crate::wire::{le_u16_at, le_u32_at, le_u64_at};

verus! {

/// `LittleEndian::read_u16` of `byteorder`: the value of the first two
/// bytes of `buf`, least significant first. It panics on a shorter buffer.
#[verifier::external_body]
fn le_read_u16(buf: &[u8]) -> (r: u16)
    requires
        buf@.len() >= 2,
    ensures
        r == le_u16_at(buf@, 0),
{
    LittleEndian::read_u16(buf)
}

/// `LittleEndian::read_i16` of `byteorder`: the first two bytes of `buf`,
/// least significant first, read as two's complement.
#[verifier::external_body]
fn le_read_i16(buf: &[u8]) -> (r: i16)
    requires
        buf@.len() >= 2,
    ensures
        r == le_u16_at(buf@, 0) as i16,
{
    LittleEndian::read_i16(buf)
}

/// `LittleEndian::read_u32` of `byteorder`: the value of the first four
/// bytes of `buf`, least significant first. It panics on a shorter buffer.
#[verifier::external_body]
fn le_read_u32(buf: &[u8]) -> (r: u32)
    requires
        buf@.len() >= 4,
    ensures
        r == le_u32_at(buf@, 0),
{
    LittleEndian::read_u32(buf)
}

/// `LittleEndian::read_i32` of `byteorder`: the first four bytes of `buf`,
/// least significant first, read as two's complement.
#[verifier::external_body]
fn le_read_i32(buf: &[u8]) -> (r: i32)
    requires
        buf@.len() >= 4,
    ensures
        r == le_u32_at(buf@, 0) as i32,
{
    LittleEndian::read_i32(buf)
}

/// `LittleEndian::read_u64` of `byteorder`: the value of the first eight
/// bytes of `buf`, least significant first. It panics on a shorter buffer.
#[verifier::external_body]
fn le_read_u64(buf: &[u8]) -> (r: u64)
    requires
        buf@.len() >= 8,
    ensures
        r == le_u64_at(buf@, 0),
{
    LittleEndian::read_u64(buf)
}

/// `LittleEndian::read_i64` of `byteorder`: the first eight bytes of `buf`,
/// least significant first, read as two's complement.
#[verifier::external_body]
fn le_read_i64(buf: &[u8]) -> (r: i64)
    requires
        buf@.len() >= 8,
    ensures
        r == le_u64_at(buf@, 0) as i64,
{
    LittleEndian::read_i64(buf)
}

/// What a fixed-width read owes: with `width` bytes left, the value found
/// at the old position and a reader moved past it; with fewer, nothing, and
/// a reader that has not moved.
pub open spec fn fixed_read<T>(
    before: ByteReader,
    after: ByteReader,
    width: nat,
    got: Option<T>,
    value: T,
) -> bool {
    &&& after.wf()
    &&& after.source() == before.source()
    &&& if before.position() + width <= before.source().len() {
        got == Some(value) && after.position() == before.position() + width
    } else {
        got is None && after.position() == before.position()
    }
}

/// Reads one byte.
pub fn read_u8(reader: &mut ByteReader) -> (r: Option<u8>)
    requires
        old(reader).wf(),
    ensures
        fixed_read(
            *old(reader),
            *final(reader),
            1,
            r,
            old(reader).source()[old(reader).position() as int],
        ),
{
    match reader.take(1) {
        Some(run) => Some(run[0]),
        None => None,
    }
}

/// Reads one byte as a signed integer.
pub fn read_i8(reader: &mut ByteReader) -> (r: Option<i8>)
    requires
        old(reader).wf(),
    ensures
        fixed_read(
            *old(reader),
            *final(reader),
            1,
            r,
            old(reader).source()[old(reader).position() as int] as i8,
        ),
{
    match reader.take(1) {
        Some(run) => Some(#[verifier::truncate] (run[0] as i8)),
        None => None,
    }
}

/// Reads an unsigned 16-bit integer.
pub fn read_u16(reader: &mut ByteReader) -> (r: Option<u16>)
    requires
        old(reader).wf(),
    ensures
        fixed_read(
            *old(reader),
            *final(reader),
            2,
            r,
            le_u16_at(old(reader).source(), old(reader).position() as int),
        ),
{
    match reader.take(2) {
        Some(run) => Some(le_read_u16(run)),
        None => None,
    }
}

/// Reads a signed 16-bit integer.
pub fn read_i16(reader: &mut ByteReader) -> (r: Option<i16>)
    requires
        old(reader).wf(),
    ensures
        fixed_read(
            *old(reader),
            *final(reader),
            2,
            r,
            le_u16_at(old(reader).source(), old(reader).position() as int) as i16,
        ),
{
    match reader.take(2) {
        Some(run) => Some(le_read_i16(run)),
        None => None,
    }
}

/// Reads an unsigned 32-bit integer.
pub fn read_u32(reader: &mut ByteReader) -> (r: Option<u32>)
    requires
        old(reader).wf(),
    ensures
        fixed_read(
            *old(reader),
            *final(reader),
            4,
            r,
            le_u32_at(old(reader).source(), old(reader).position() as int),
        ),
{
    match reader.take(4) {
        Some(run) => Some(le_read_u32(run)),
        None => None,
    }
}

/// Reads a signed 32-bit integer.
pub fn read_i32(reader: &mut ByteReader) -> (r: Option<i32>)
    requires
        old(reader).wf(),
    ensures
        fixed_read(
            *old(reader),
            *final(reader),
            4,
            r,
            le_u32_at(old(reader).source(), old(reader).position() as int) as i32,
        ),
{
    match reader.take(4) {
        Some(run) => Some(le_read_i32(run)),
        None => None,
    }
}

/// Reads an unsigned 64-bit integer.
pub fn read_u64(reader: &mut ByteReader) -> (r: Option<u64>)
    requires
        old(reader).wf(),
    ensures
        fixed_read(
            *old(reader),
            *final(reader),
            8,
            r,
            le_u64_at(old(reader).source(), old(reader).position() as int),
        ),
{
    match reader.take(8) {
        Some(run) => Some(le_read_u64(run)),
        None => None,
    }
}

/// Reads a signed 64-bit integer.
pub fn read_i64(reader: &mut ByteReader) -> (r: Option<i64>)
    requires
        old(reader).wf(),
    ensures
        fixed_read(
            *old(reader),
            *final(reader),
            8,
            r,
            le_u64_at(old(reader).source(), old(reader).position() as int) as i64,
        ),
{
    match reader.take(8) {
        Some(run) => Some(le_read_i64(run)),
        None => None,
    }
}

} // verus!
