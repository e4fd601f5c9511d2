//! Byte-order-aware readers and writers for fixed-width integers: pure
//! functions from a byte window and a byte order to a value, with the
//! round-trip laws relating the two directions.
use vstd::arithmetic::div_mod::{lemma_div_denominator, lemma_fundamental_div_mod};
use vstd::prelude::*;

use crate::bits::ByteOrder;
use crate::value::Rational;

verus! {

/// The unsigned 16-bit value held by the first two bytes of `b` under the
/// given byte order.
pub open spec fn u16_of_bytes(b: Seq<u8>, order: ByteOrder) -> u16
    recommends
        b.len() >= 2,
{
    match order {
        ByteOrder::BigEndian => (b[0] * 0x100 + b[1]) as u16,
        ByteOrder::LittleEndian => (b[1] * 0x100 + b[0]) as u16,
    }
}

/// The signed 16-bit value held by the first two bytes of `b`: the unsigned
/// reading reinterpreted in two's complement.
pub open spec fn i16_of_bytes(b: Seq<u8>, order: ByteOrder) -> i16
    recommends
        b.len() >= 2,
{
    u16_of_bytes(b, order) as i16
}

/// The unsigned 32-bit value held by the first four bytes of `b` under the
/// given byte order.
pub open spec fn u32_of_bytes(b: Seq<u8>, order: ByteOrder) -> u32
    recommends
        b.len() >= 4,
{
    match order {
        ByteOrder::BigEndian => (b[0] * 0x1000000 + b[1] * 0x10000 + b[2] * 0x100 + b[3]) as u32,
        ByteOrder::LittleEndian => (b[3] * 0x1000000 + b[2] * 0x10000 + b[1] * 0x100 + b[0]) as u32,
    }
}

/// The signed 32-bit value held by the first four bytes of `b`: the unsigned
/// reading reinterpreted in two's complement.
pub open spec fn i32_of_bytes(b: Seq<u8>, order: ByteOrder) -> i32
    recommends
        b.len() >= 4,
{
    u32_of_bytes(b, order) as i32
}

/// The two-byte encoding of `v` under the given byte order.
pub open spec fn u16_to_bytes(v: u16, order: ByteOrder) -> Seq<u8> {
    match order {
        ByteOrder::BigEndian => seq![(v / 0x100) as u8, (v % 0x100) as u8],
        ByteOrder::LittleEndian => seq![(v % 0x100) as u8, (v / 0x100) as u8],
    }
}

/// The four-byte encoding of `v` under the given byte order.
pub open spec fn u32_to_bytes(v: u32, order: ByteOrder) -> Seq<u8> {
    match order {
        ByteOrder::BigEndian => seq![
            (v / 0x1000000) as u8,
            ((v / 0x10000) % 0x100) as u8,
            ((v / 0x100) % 0x100) as u8,
            (v % 0x100) as u8,
        ],
        ByteOrder::LittleEndian => seq![
            (v % 0x100) as u8,
            ((v / 0x100) % 0x100) as u8,
            ((v / 0x10000) % 0x100) as u8,
            (v / 0x1000000) as u8,
        ],
    }
}

/// Decoding inverts encoding for unsigned 16-bit values.
pub proof fn lemma_u16_of_to_bytes(v: u16, order: ByteOrder)
    ensures
        u16_of_bytes(u16_to_bytes(v, order), order) == v,
{
    lemma_fundamental_div_mod(v as int, 0x100);
}

/// Decoding inverts encoding for unsigned 32-bit values.
pub proof fn lemma_u32_of_to_bytes(v: u32, order: ByteOrder)
    ensures
        u32_of_bytes(u32_to_bytes(v, order), order) == v,
{
    let q1 = v as int / 0x100;
    let q2 = v as int / 0x10000;
    let q3 = v as int / 0x1000000;
    lemma_fundamental_div_mod(v as int, 0x100);
    lemma_fundamental_div_mod(q1, 0x100);
    lemma_fundamental_div_mod(q2, 0x100);
    lemma_div_denominator(v as int, 0x100, 0x100);
    lemma_div_denominator(v as int, 0x10000, 0x100);
    lemma_div_denominator(q1, 0x100, 0x100);
}

/// Read a single unsigned byte; byte-order-independent.
pub fn read_u8(buf: &[u8]) -> (r: u8)
    requires
        buf@.len() >= 1,
    ensures
        r == buf@[0],
{
    buf[0]
}

/// Read a single signed byte; byte-order-independent.
pub fn read_i8(buf: &[u8]) -> (r: i8)
    requires
        buf@.len() >= 1,
    ensures
        r == buf@[0] as i8,
{
    #[verifier::truncate] (buf[0] as i8)
}

/// Read an unsigned 16-bit value from the first two bytes of `buf`.
pub fn read_u16(buf: &[u8], order: ByteOrder) -> (r: u16)
    requires
        buf@.len() >= 2,
    ensures
        r == u16_of_bytes(buf@, order),
{
    match order {
        ByteOrder::BigEndian => buf[0] as u16 * 0x100 + buf[1] as u16,
        ByteOrder::LittleEndian => buf[1] as u16 * 0x100 + buf[0] as u16,
    }
}

/// Read a signed 16-bit value from the first two bytes of `buf`.
pub fn read_i16(buf: &[u8], order: ByteOrder) -> (r: i16)
    requires
        buf@.len() >= 2,
    ensures
        r == i16_of_bytes(buf@, order),
{
    #[verifier::truncate] (read_u16(buf, order) as i16)
}

/// Read an unsigned 32-bit value from the first four bytes of `buf`.
pub fn read_u32(buf: &[u8], order: ByteOrder) -> (r: u32)
    requires
        buf@.len() >= 4,
    ensures
        r == u32_of_bytes(buf@, order),
{
    match order {
        ByteOrder::BigEndian => {
            buf[0] as u32 * 0x1000000 + buf[1] as u32 * 0x10000 + buf[2] as u32 * 0x100
                + buf[3] as u32
        },
        ByteOrder::LittleEndian => {
            buf[3] as u32 * 0x1000000 + buf[2] as u32 * 0x10000 + buf[1] as u32 * 0x100
                + buf[0] as u32
        },
    }
}

/// Read a signed 32-bit value from the first four bytes of `buf`.
pub fn read_i32(buf: &[u8], order: ByteOrder) -> (r: i32)
    requires
        buf@.len() >= 4,
    ensures
        r == i32_of_bytes(buf@, order),
{
    #[verifier::truncate] (read_u32(buf, order) as i32)
}

/// Read an unsigned rational from the first eight bytes of `buf`:
/// numerator first, denominator second, each four bytes.
pub fn read_urational(buf: &[u8], order: ByteOrder) -> (r: Rational<u32>)
    requires
        buf@.len() >= 8,
    ensures
        r.0 == u32_of_bytes(buf@.subrange(0, 4), order),
        r.1 == u32_of_bytes(buf@.subrange(4, 8), order),
{
    let numerator = read_u32(&buf[0..4], order);
    let denominator = read_u32(&buf[4..8], order);
    Rational(numerator, denominator)
}

/// Read a signed rational from the first eight bytes of `buf`:
/// numerator first, denominator second, each four bytes.
pub fn read_irational(buf: &[u8], order: ByteOrder) -> (r: Rational<i32>)
    requires
        buf@.len() >= 8,
    ensures
        r.0 == i32_of_bytes(buf@.subrange(0, 4), order),
        r.1 == i32_of_bytes(buf@.subrange(4, 8), order),
{
    let numerator = read_i32(&buf[0..4], order);
    let denominator = read_i32(&buf[4..8], order);
    Rational(numerator, denominator)
}

/// Append the two-byte encoding of `v` to `out`.
pub fn push_u16(out: &mut Vec<u8>, v: u16, order: ByteOrder)
    ensures
        final(out)@ == old(out)@ + u16_to_bytes(v, order),
{
    match order {
        ByteOrder::BigEndian => {
            out.push((v / 0x100) as u8);
            out.push((v % 0x100) as u8);
        },
        ByteOrder::LittleEndian => {
            out.push((v % 0x100) as u8);
            out.push((v / 0x100) as u8);
        },
    }
    assert(final(out)@ =~= old(out)@ + u16_to_bytes(v, order));
}

/// Append the four-byte encoding of `v` to `out`.
pub fn push_u32(out: &mut Vec<u8>, v: u32, order: ByteOrder)
    ensures
        final(out)@ == old(out)@ + u32_to_bytes(v, order),
{
    match order {
        ByteOrder::BigEndian => {
            out.push((v / 0x1000000) as u8);
            out.push(((v / 0x10000) % 0x100) as u8);
            out.push(((v / 0x100) % 0x100) as u8);
            out.push((v % 0x100) as u8);
        },
        ByteOrder::LittleEndian => {
            out.push((v % 0x100) as u8);
            out.push(((v / 0x100) % 0x100) as u8);
            out.push(((v / 0x10000) % 0x100) as u8);
            out.push((v / 0x1000000) as u8);
        },
    }
    assert(final(out)@ =~= old(out)@ + u32_to_bytes(v, order));
}

} // verus!
