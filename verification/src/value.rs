//! Typed values decoded from raw tag bytes: the value model, and the
//! length-validated, byte-order-aware decoder from a raw byte slice,
//! a declared format and a declared component count.
use vstd::prelude::*;
use vstd::slice::slice_to_vec;
use vstd::utf8::{
    char_is_scalar, char_u32_cast, decode_utf8, encode_scalar, encode_utf8,
    encode_utf8_decode_utf8, encode_utf8_valid_utf8, is_scalar, valid_utf8,
};

use crate::ExifError;
use crate::bits::{ByteOrder, DataType, size_of_data_type};
use crate::codec::{
    i16_of_bytes, i32_of_bytes, lemma_u16_of_to_bytes, lemma_u32_of_to_bytes, push_u16, push_u32,
    read_i16, read_i32, read_i8, read_irational, read_u16, read_u32, read_urational, u16_of_bytes,
    u16_to_bytes, u32_of_bytes, u32_to_bytes,
};

verus! {

/// A rational number: a numerator and a denominator, stored without
/// reduction. Equality is structural, not numeric: `2/4` and `1/2` differ.
#[derive(Debug, PartialEq, Eq, Clone, Copy, Hash)]
pub struct Rational<T>(pub T, pub T);

impl<T: Copy> Rational<T> {
    /// Returns the numerator.
    pub fn numerator(&self) -> (r: T)
        ensures
            r == self.0,
    {
        self.0
    }

    /// Returns the denominator.
    pub fn denominator(&self) -> (r: T)
        ensures
            r == self.1,
    {
        self.1
    }
}

/// Decoded value of a tag entry.
///
/// Each variant corresponds to one variant of [`DataType`]; each holds one
/// decoded element per component of the entry it was decoded from.
#[derive(Debug, Clone, PartialEq)]
pub enum Value {
    /// Value interpreted as text.
    Text(String),
    /// Value interpreted as unsigned bytes.
    U8(Vec<u8>),
    /// Value interpreted as signed bytes.
    I8(Vec<i8>),
    /// Value interpreted as unsigned 16-bit integers.
    U16(Vec<u16>),
    /// Value interpreted as signed 16-bit integers.
    I16(Vec<i16>),
    /// Value interpreted as unsigned 32-bit integers.
    U32(Vec<u32>),
    /// Value interpreted as signed 32-bit integers.
    I32(Vec<i32>),
    /// Value interpreted as unsigned rational numbers.
    URational(Vec<Rational<u32>>),
    /// Value interpreted as signed rational numbers.
    IRational(Vec<Rational<i32>>),
    /// Value left as an uninterpreted sequence of bytes.
    Undefined(Vec<u8>),
}

/// The mathematical model of a [`Value`]: the same variants over sequences.
pub enum ValueView {
    Text(Seq<char>),
    U8(Seq<u8>),
    I8(Seq<i8>),
    U16(Seq<u16>),
    I16(Seq<i16>),
    U32(Seq<u32>),
    I32(Seq<i32>),
    URational(Seq<Rational<u32>>),
    IRational(Seq<Rational<i32>>),
    Undefined(Seq<u8>),
}

impl View for Value {
    type V = ValueView;

    open spec fn view(&self) -> ValueView {
        match self {
            Value::Text(s) => ValueView::Text(s@),
            Value::U8(v) => ValueView::U8(v@),
            Value::I8(v) => ValueView::I8(v@),
            Value::U16(v) => ValueView::U16(v@),
            Value::I16(v) => ValueView::I16(v@),
            Value::U32(v) => ValueView::U32(v@),
            Value::I32(v) => ValueView::I32(v@),
            Value::URational(v) => ValueView::URational(v@),
            Value::IRational(v) => ValueView::IRational(v@),
            Value::Undefined(v) => ValueView::Undefined(v@),
        }
    }
}

/// A decode result, seen at the level of the mathematical model.
pub open spec fn value_result_view(r: Result<Value, ExifError>) -> Result<ValueView, ExifError> {
    match r {
        Ok(v) => Ok(v@),
        Err(e) => Err(e),
    }
}

/// Index of the first zero byte of `b`, or `b.len()` if there is none.
pub open spec fn first_nul(b: Seq<u8>) -> int
    decreases b.len(),
{
    if b.len() == 0 {
        0
    } else if b[0] == 0 {
        0
    } else {
        1 + first_nul(b.drop_first())
    }
}

/// An index with only non-zero bytes before it and a zero byte (or the end
/// of the sequence) at it is exactly `first_nul`.
pub proof fn lemma_first_nul_at(b: Seq<u8>, i: int)
    requires
        0 <= i <= b.len(),
        forall|j: int| 0 <= j < i ==> b[j] != 0,
        i < b.len() ==> b[i] == 0,
    ensures
        first_nul(b) == i,
    decreases b.len(),
{
    if b.len() == 0 {
    } else if i == 0 {
    } else {
        assert(b[0] != 0);
        assert forall|j: int| 0 <= j < i - 1 implies b.drop_first()[j] != 0 by {
            assert(b.drop_first()[j] == b[j + 1]);
        }
        if i - 1 < b.drop_first().len() {
            assert(b.drop_first()[i - 1] == b[i]);
        }
        lemma_first_nul_at(b.drop_first(), i - 1);
    }
}

/// The text held by raw text bytes: the bytes up to (not including) the
/// first zero byte, read as UTF-8; bytes that are not valid UTF-8 are an
/// encoding error.
pub open spec fn text_of_bytes(raw: Seq<u8>) -> Result<Seq<char>, ExifError> {
    let t = raw.subrange(0, first_nul(raw));
    if valid_utf8(t) {
        Ok(decode_utf8(t))
    } else {
        Err(ExifError::Encoding)
    }
}

/// The signed bytes held by `raw`, one per byte.
pub open spec fn i8_seq_of_bytes(raw: Seq<u8>) -> Seq<i8> {
    Seq::new(raw.len(), |i: int| raw[i] as i8)
}

/// The unsigned 16-bit elements held by `raw`, two bytes each.
pub open spec fn u16_seq_of_bytes(raw: Seq<u8>, n: nat, order: ByteOrder) -> Seq<u16> {
    Seq::new(n, |i: int| u16_of_bytes(raw.subrange(2 * i, 2 * i + 2), order))
}

/// The signed 16-bit elements held by `raw`, two bytes each.
pub open spec fn i16_seq_of_bytes(raw: Seq<u8>, n: nat, order: ByteOrder) -> Seq<i16> {
    Seq::new(n, |i: int| i16_of_bytes(raw.subrange(2 * i, 2 * i + 2), order))
}

/// The unsigned 32-bit elements held by `raw`, four bytes each.
pub open spec fn u32_seq_of_bytes(raw: Seq<u8>, n: nat, order: ByteOrder) -> Seq<u32> {
    Seq::new(n, |i: int| u32_of_bytes(raw.subrange(4 * i, 4 * i + 4), order))
}

/// The signed 32-bit elements held by `raw`, four bytes each.
pub open spec fn i32_seq_of_bytes(raw: Seq<u8>, n: nat, order: ByteOrder) -> Seq<i32> {
    Seq::new(n, |i: int| i32_of_bytes(raw.subrange(4 * i, 4 * i + 4), order))
}

/// The unsigned rational elements held by `raw`, eight bytes each:
/// numerator first, then denominator.
pub open spec fn urational_seq_of_bytes(raw: Seq<u8>, n: nat, order: ByteOrder) -> Seq<
    Rational<u32>,
> {
    Seq::new(
        n,
        |i: int|
            Rational(
                u32_of_bytes(raw.subrange(8 * i, 8 * i + 4), order),
                u32_of_bytes(raw.subrange(8 * i + 4, 8 * i + 8), order),
            ),
    )
}

/// The signed rational elements held by `raw`, eight bytes each:
/// numerator first, then denominator.
pub open spec fn irational_seq_of_bytes(raw: Seq<u8>, n: nat, order: ByteOrder) -> Seq<
    Rational<i32>,
> {
    Seq::new(
        n,
        |i: int|
            Rational(
                i32_of_bytes(raw.subrange(8 * i, 8 * i + 4), order),
                i32_of_bytes(raw.subrange(8 * i + 4, 8 * i + 8), order),
            ),
    )
}

/// What decoding raw bytes under a declared format, component count and
/// byte order yields. A byte length other than `element size * count` is a
/// size mismatch; text that is not valid UTF-8 before its terminator is an
/// encoding error; everything else decodes to the matching variant, one
/// element per component, in order.
pub open spec fn extract_model(
    raw: Seq<u8>,
    data_type: DataType,
    components: nat,
    order: ByteOrder,
) -> Result<ValueView, ExifError> {
    if raw.len() != size_of_data_type(data_type) * components {
        Err(ExifError::SizeMismatch)
    } else {
        match data_type {
            DataType::Text => match text_of_bytes(raw) {
                Ok(t) => Ok(ValueView::Text(t)),
                Err(e) => Err(e),
            },
            DataType::U8 => Ok(ValueView::U8(raw)),
            DataType::I8 => Ok(ValueView::I8(i8_seq_of_bytes(raw))),
            DataType::U16 => Ok(ValueView::U16(u16_seq_of_bytes(raw, components, order))),
            DataType::I16 => Ok(ValueView::I16(i16_seq_of_bytes(raw, components, order))),
            DataType::U32 => Ok(ValueView::U32(u32_seq_of_bytes(raw, components, order))),
            DataType::I32 => Ok(ValueView::I32(i32_seq_of_bytes(raw, components, order))),
            DataType::URational => Ok(
                ValueView::URational(urational_seq_of_bytes(raw, components, order)),
            ),
            DataType::IRational => Ok(
                ValueView::IRational(irational_seq_of_bytes(raw, components, order)),
            ),
            DataType::Undefined => Ok(ValueView::Undefined(raw)),
        }
    }
}

/// Relies on `String::from_utf8`: it returns the decoded string exactly
/// when the bytes are valid UTF-8, and rejects them otherwise.
#[verifier::external_body]
fn string_from_utf8(bytes: Vec<u8>) -> (r: Option<String>)
    ensures
        match r {
            Some(s) => valid_utf8(bytes@) && s@ == decode_utf8(bytes@),
            None => !valid_utf8(bytes@),
        },
{
    String::from_utf8(bytes).ok()
}

fn decode_i8_vec(raw: &[u8]) -> (r: Vec<i8>)
    ensures
        r@ == i8_seq_of_bytes(raw@),
{
    let mut out: Vec<i8> = Vec::new();
    let mut i: usize = 0;
    while i < raw.len()
        invariant
            i <= raw@.len(),
            out@ == i8_seq_of_bytes(raw@.subrange(0, i as int)),
        decreases raw@.len() - i,
    {
        out.push(read_i8(&raw[i..raw.len()]));
        proof {
            assert(out@ =~= i8_seq_of_bytes(raw@.subrange(0, i + 1)));
        }
        i += 1;
    }
    proof {
        assert(raw@.subrange(0, raw@.len() as int) =~= raw@);
    }
    out
}

fn decode_u16_vec(raw: &[u8], n: usize, order: ByteOrder) -> (r: Vec<u16>)
    requires
        raw@.len() == 2 * n,
    ensures
        r@ == u16_seq_of_bytes(raw@, n as nat, order),
{
    let len: usize = raw.len();
    let mut out: Vec<u16> = Vec::new();
    let mut i: usize = 0;
    while i < n
        invariant
            i <= n,
            len == raw@.len(),
            raw@.len() == 2 * n,
            out@ == u16_seq_of_bytes(raw@, i as nat, order),
        decreases n - i,
    {
        out.push(read_u16(&raw[2 * i..2 * i + 2], order));
        proof {
            assert(out@ =~= u16_seq_of_bytes(raw@, (i + 1) as nat, order));
        }
        i += 1;
    }
    out
}

fn decode_i16_vec(raw: &[u8], n: usize, order: ByteOrder) -> (r: Vec<i16>)
    requires
        raw@.len() == 2 * n,
    ensures
        r@ == i16_seq_of_bytes(raw@, n as nat, order),
{
    let len: usize = raw.len();
    let mut out: Vec<i16> = Vec::new();
    let mut i: usize = 0;
    while i < n
        invariant
            i <= n,
            len == raw@.len(),
            raw@.len() == 2 * n,
            out@ == i16_seq_of_bytes(raw@, i as nat, order),
        decreases n - i,
    {
        out.push(read_i16(&raw[2 * i..2 * i + 2], order));
        proof {
            assert(out@ =~= i16_seq_of_bytes(raw@, (i + 1) as nat, order));
        }
        i += 1;
    }
    out
}

fn decode_u32_vec(raw: &[u8], n: usize, order: ByteOrder) -> (r: Vec<u32>)
    requires
        raw@.len() == 4 * n,
    ensures
        r@ == u32_seq_of_bytes(raw@, n as nat, order),
{
    let len: usize = raw.len();
    let mut out: Vec<u32> = Vec::new();
    let mut i: usize = 0;
    while i < n
        invariant
            i <= n,
            len == raw@.len(),
            raw@.len() == 4 * n,
            out@ == u32_seq_of_bytes(raw@, i as nat, order),
        decreases n - i,
    {
        out.push(read_u32(&raw[4 * i..4 * i + 4], order));
        proof {
            assert(out@ =~= u32_seq_of_bytes(raw@, (i + 1) as nat, order));
        }
        i += 1;
    }
    out
}

fn decode_i32_vec(raw: &[u8], n: usize, order: ByteOrder) -> (r: Vec<i32>)
    requires
        raw@.len() == 4 * n,
    ensures
        r@ == i32_seq_of_bytes(raw@, n as nat, order),
{
    let len: usize = raw.len();
    let mut out: Vec<i32> = Vec::new();
    let mut i: usize = 0;
    while i < n
        invariant
            i <= n,
            len == raw@.len(),
            raw@.len() == 4 * n,
            out@ == i32_seq_of_bytes(raw@, i as nat, order),
        decreases n - i,
    {
        out.push(read_i32(&raw[4 * i..4 * i + 4], order));
        proof {
            assert(out@ =~= i32_seq_of_bytes(raw@, (i + 1) as nat, order));
        }
        i += 1;
    }
    out
}

fn decode_urational_vec(raw: &[u8], n: usize, order: ByteOrder) -> (r: Vec<Rational<u32>>)
    requires
        raw@.len() == 8 * n,
    ensures
        r@ == urational_seq_of_bytes(raw@, n as nat, order),
{
    let len: usize = raw.len();
    let mut out: Vec<Rational<u32>> = Vec::new();
    let mut i: usize = 0;
    while i < n
        invariant
            i <= n,
            len == raw@.len(),
            raw@.len() == 8 * n,
            out@ == urational_seq_of_bytes(raw@, i as nat, order),
        decreases n - i,
    {
        let element = read_urational(&raw[8 * i..8 * i + 8], order);
        proof {
            assert(raw@.subrange(8 * i, 8 * i + 8).subrange(0, 4) =~= raw@.subrange(
                8 * i,
                8 * i + 4,
            ));
            assert(raw@.subrange(8 * i, 8 * i + 8).subrange(4, 8) =~= raw@.subrange(
                8 * i + 4,
                8 * i + 8,
            ));
        }
        out.push(element);
        proof {
            assert(out@ =~= urational_seq_of_bytes(raw@, (i + 1) as nat, order));
        }
        i += 1;
    }
    out
}

fn decode_irational_vec(raw: &[u8], n: usize, order: ByteOrder) -> (r: Vec<Rational<i32>>)
    requires
        raw@.len() == 8 * n,
    ensures
        r@ == irational_seq_of_bytes(raw@, n as nat, order),
{
    let len: usize = raw.len();
    let mut out: Vec<Rational<i32>> = Vec::new();
    let mut i: usize = 0;
    while i < n
        invariant
            i <= n,
            len == raw@.len(),
            raw@.len() == 8 * n,
            out@ == irational_seq_of_bytes(raw@, i as nat, order),
        decreases n - i,
    {
        let element = read_irational(&raw[8 * i..8 * i + 8], order);
        proof {
            assert(raw@.subrange(8 * i, 8 * i + 8).subrange(0, 4) =~= raw@.subrange(
                8 * i,
                8 * i + 4,
            ));
            assert(raw@.subrange(8 * i, 8 * i + 8).subrange(4, 8) =~= raw@.subrange(
                8 * i + 4,
                8 * i + 8,
            ));
        }
        out.push(element);
        proof {
            assert(out@ =~= irational_seq_of_bytes(raw@, (i + 1) as nat, order));
        }
        i += 1;
    }
    out
}

fn decode_text(raw: &[u8]) -> (r: Result<Value, ExifError>)
    ensures
        value_result_view(r) == match text_of_bytes(raw@) {
            Ok(t) => Ok::<ValueView, ExifError>(ValueView::Text(t)),
            Err(e) => Err::<ValueView, ExifError>(e),
        },
{
    let mut idx: usize = 0;
    while idx < raw.len() && raw[idx] != 0
        invariant
            idx <= raw@.len(),
            forall|j: int| 0 <= j < idx ==> raw@[j] != 0,
        decreases raw@.len() - idx,
    {
        idx += 1;
    }
    proof {
        lemma_first_nul_at(raw@, idx as int);
    }
    let prefix = slice_to_vec(&raw[0..idx]);
    match string_from_utf8(prefix) {
        Some(s) => Ok(Value::Text(s)),
        None => Err(ExifError::Encoding),
    }
}

impl Value {
    /// Decode raw tag bytes under the given format, component count and
    /// byte order.
    ///
    /// The byte length is validated against the declared count before any
    /// byte is read: a mismatch is a [`ExifError::SizeMismatch`], never a
    /// truncated or out-of-bounds decode.
    pub fn extract(
        raw_data: &[u8],
        data_type: DataType,
        components: usize,
        byte_order: ByteOrder,
    ) -> (r: Result<Value, ExifError>)
        ensures
            value_result_view(r) == extract_model(
                raw_data@,
                data_type,
                components as nat,
                byte_order,
            ),
    {
        let size = data_type.size();
        if components > raw_data.len() / size {
            proof {
                if raw_data@.len() == size_of_data_type(data_type) * components {
                    vstd::arithmetic::div_mod::lemma_fundamental_div_mod_converse_div(
                        raw_data@.len() as int,
                        size as int,
                        components as int,
                        0,
                    );
                }
            }
            return Err(ExifError::SizeMismatch);
        }
        proof {
            vstd::arithmetic::div_mod::lemma_fundamental_div_mod(
                raw_data@.len() as int,
                size as int,
            );
            vstd::arithmetic::mul::lemma_mul_inequality(
                components as int,
                raw_data@.len() as int / size as int,
                size as int,
            );
        }
        let expected = size * components;
        if raw_data.len() != expected {
            return Err(ExifError::SizeMismatch);
        }
        match data_type {
            DataType::Text => decode_text(raw_data),
            DataType::U8 => Ok(Value::U8(slice_to_vec(raw_data))),
            DataType::I8 => Ok(Value::I8(decode_i8_vec(raw_data))),
            DataType::U16 => Ok(Value::U16(decode_u16_vec(raw_data, components, byte_order))),
            DataType::I16 => Ok(Value::I16(decode_i16_vec(raw_data, components, byte_order))),
            DataType::U32 => Ok(Value::U32(decode_u32_vec(raw_data, components, byte_order))),
            DataType::I32 => Ok(Value::I32(decode_i32_vec(raw_data, components, byte_order))),
            DataType::URational => Ok(
                Value::URational(decode_urational_vec(raw_data, components, byte_order)),
            ),
            DataType::IRational => Ok(
                Value::IRational(decode_irational_vec(raw_data, components, byte_order)),
            ),
            DataType::Undefined => Ok(Value::Undefined(slice_to_vec(raw_data))),
        }
    }
}

/// A length other than `element size * count` always yields a size
/// mismatch, for every format, count and byte order: no mismatched input
/// decodes to a truncated or overrun value.
pub proof fn lemma_extract_size_mismatch(
    raw: Seq<u8>,
    data_type: DataType,
    components: nat,
    order: ByteOrder,
)
    requires
        raw.len() != size_of_data_type(data_type) * components,
    ensures
        extract_model(raw, data_type, components, order) == Err::<ValueView, ExifError>(
            ExifError::SizeMismatch,
        ),
{
}

/// The sequence of signed bytes `s`, reinterpreted as unsigned bytes.
pub open spec fn u8_seq_of_i8(s: Seq<i8>) -> Seq<u8> {
    Seq::new(s.len(), |i: int| s[i] as u8)
}

/// The signed 16-bit elements of `s`, reinterpreted as unsigned.
pub open spec fn u16_seq_of_i16(s: Seq<i16>) -> Seq<u16> {
    Seq::new(s.len(), |i: int| s[i] as u16)
}

/// The signed 32-bit elements of `s`, reinterpreted as unsigned.
pub open spec fn u32_seq_of_i32(s: Seq<i32>) -> Seq<u32> {
    Seq::new(s.len(), |i: int| s[i] as u32)
}

/// The signed rationals of `s`, with both fields reinterpreted as unsigned.
pub open spec fn urational_seq_of_irational(s: Seq<Rational<i32>>) -> Seq<Rational<u32>> {
    Seq::new(s.len(), |i: int| Rational(s[i].0 as u32, s[i].1 as u32))
}

/// The encoding of unsigned 16-bit elements, two bytes each, in order.
pub open spec fn u16_seq_to_bytes(s: Seq<u16>, order: ByteOrder) -> Seq<u8>
    decreases s.len(),
{
    if s.len() == 0 {
        Seq::empty()
    } else {
        u16_seq_to_bytes(s.drop_last(), order) + u16_to_bytes(s.last(), order)
    }
}

/// The encoding of unsigned 32-bit elements, four bytes each, in order.
pub open spec fn u32_seq_to_bytes(s: Seq<u32>, order: ByteOrder) -> Seq<u8>
    decreases s.len(),
{
    if s.len() == 0 {
        Seq::empty()
    } else {
        u32_seq_to_bytes(s.drop_last(), order) + u32_to_bytes(s.last(), order)
    }
}

/// The encoding of unsigned rationals, eight bytes each: each numerator
/// first, then its denominator.
pub open spec fn urational_seq_to_bytes(s: Seq<Rational<u32>>, order: ByteOrder) -> Seq<u8>
    decreases s.len(),
{
    if s.len() == 0 {
        Seq::empty()
    } else {
        urational_seq_to_bytes(s.drop_last(), order) + u32_to_bytes(s.last().0, order)
            + u32_to_bytes(s.last().1, order)
    }
}

/// The raw bytes that encode a value under the given byte order. Text is
/// encoded as UTF-8 followed by a single terminating zero byte; every
/// other variant is the concatenation of its elements' encodings.
pub open spec fn encode_model(v: ValueView, order: ByteOrder) -> Seq<u8> {
    match v {
        ValueView::Text(t) => encode_utf8(t) + seq![0u8],
        ValueView::U8(s) => s,
        ValueView::I8(s) => u8_seq_of_i8(s),
        ValueView::U16(s) => u16_seq_to_bytes(s, order),
        ValueView::I16(s) => u16_seq_to_bytes(u16_seq_of_i16(s), order),
        ValueView::U32(s) => u32_seq_to_bytes(s, order),
        ValueView::I32(s) => u32_seq_to_bytes(u32_seq_of_i32(s), order),
        ValueView::URational(s) => urational_seq_to_bytes(s, order),
        ValueView::IRational(s) => urational_seq_to_bytes(urational_seq_of_irational(s), order),
        ValueView::Undefined(s) => s,
    }
}

/// The format whose decoder yields this value variant.
pub open spec fn value_data_type(v: ValueView) -> DataType {
    match v {
        ValueView::Text(_) => DataType::Text,
        ValueView::U8(_) => DataType::U8,
        ValueView::I8(_) => DataType::I8,
        ValueView::U16(_) => DataType::U16,
        ValueView::I16(_) => DataType::I16,
        ValueView::U32(_) => DataType::U32,
        ValueView::I32(_) => DataType::I32,
        ValueView::URational(_) => DataType::URational,
        ValueView::IRational(_) => DataType::IRational,
        ValueView::Undefined(_) => DataType::Undefined,
    }
}

/// The component count of a value: one per element, and for text one per
/// encoded byte plus the terminating zero byte.
pub open spec fn value_components(v: ValueView) -> nat {
    match v {
        ValueView::Text(t) => encode_utf8(t).len() + 1,
        ValueView::U8(s) => s.len(),
        ValueView::I8(s) => s.len(),
        ValueView::U16(s) => s.len(),
        ValueView::I16(s) => s.len(),
        ValueView::U32(s) => s.len(),
        ValueView::I32(s) => s.len(),
        ValueView::URational(s) => s.len(),
        ValueView::IRational(s) => s.len(),
        ValueView::Undefined(s) => s.len(),
    }
}

/// True unless the value is a text holding an embedded zero character;
/// such a text is cut short by the terminator convention and cannot
/// survive an encode-decode round trip.
pub open spec fn value_nul_free(v: ValueView) -> bool {
    match v {
        ValueView::Text(t) => forall|i: int| 0 <= i < t.len() ==> t[i] != '\0',
        _ => true,
    }
}

proof fn lemma_u16_seq_to_bytes_len(s: Seq<u16>, order: ByteOrder)
    ensures
        u16_seq_to_bytes(s, order).len() == 2 * s.len(),
    decreases s.len(),
{
    if s.len() > 0 {
        lemma_u16_seq_to_bytes_len(s.drop_last(), order);
    }
}

proof fn lemma_u32_seq_to_bytes_len(s: Seq<u32>, order: ByteOrder)
    ensures
        u32_seq_to_bytes(s, order).len() == 4 * s.len(),
    decreases s.len(),
{
    if s.len() > 0 {
        lemma_u32_seq_to_bytes_len(s.drop_last(), order);
    }
}

proof fn lemma_urational_seq_to_bytes_len(s: Seq<Rational<u32>>, order: ByteOrder)
    ensures
        urational_seq_to_bytes(s, order).len() == 8 * s.len(),
    decreases s.len(),
{
    if s.len() > 0 {
        lemma_urational_seq_to_bytes_len(s.drop_last(), order);
    }
}

proof fn lemma_u16_seq_to_bytes_index(s: Seq<u16>, order: ByteOrder, i: int)
    requires
        0 <= i < s.len(),
    ensures
        u16_seq_to_bytes(s, order).subrange(2 * i, 2 * i + 2) == u16_to_bytes(s[i], order),
    decreases s.len(),
{
    lemma_u16_seq_to_bytes_len(s, order);
    lemma_u16_seq_to_bytes_len(s.drop_last(), order);
    if i == s.len() - 1 {
        assert(u16_seq_to_bytes(s, order).subrange(2 * i, 2 * i + 2) =~= u16_to_bytes(
            s[i],
            order,
        ));
    } else {
        lemma_u16_seq_to_bytes_index(s.drop_last(), order, i);
        assert(s.drop_last()[i] == s[i]);
        assert(u16_seq_to_bytes(s, order).subrange(2 * i, 2 * i + 2) =~= u16_seq_to_bytes(
            s.drop_last(),
            order,
        ).subrange(2 * i, 2 * i + 2));
    }
}

proof fn lemma_u32_seq_to_bytes_index(s: Seq<u32>, order: ByteOrder, i: int)
    requires
        0 <= i < s.len(),
    ensures
        u32_seq_to_bytes(s, order).subrange(4 * i, 4 * i + 4) == u32_to_bytes(s[i], order),
    decreases s.len(),
{
    lemma_u32_seq_to_bytes_len(s, order);
    lemma_u32_seq_to_bytes_len(s.drop_last(), order);
    if i == s.len() - 1 {
        assert(u32_seq_to_bytes(s, order).subrange(4 * i, 4 * i + 4) =~= u32_to_bytes(
            s[i],
            order,
        ));
    } else {
        lemma_u32_seq_to_bytes_index(s.drop_last(), order, i);
        assert(s.drop_last()[i] == s[i]);
        assert(u32_seq_to_bytes(s, order).subrange(4 * i, 4 * i + 4) =~= u32_seq_to_bytes(
            s.drop_last(),
            order,
        ).subrange(4 * i, 4 * i + 4));
    }
}

proof fn lemma_urational_seq_to_bytes_index(s: Seq<Rational<u32>>, order: ByteOrder, i: int)
    requires
        0 <= i < s.len(),
    ensures
        urational_seq_to_bytes(s, order).subrange(8 * i, 8 * i + 4) == u32_to_bytes(
            s[i].0,
            order,
        ),
        urational_seq_to_bytes(s, order).subrange(8 * i + 4, 8 * i + 8) == u32_to_bytes(
            s[i].1,
            order,
        ),
    decreases s.len(),
{
    lemma_urational_seq_to_bytes_len(s, order);
    lemma_urational_seq_to_bytes_len(s.drop_last(), order);
    if i == s.len() - 1 {
        assert(urational_seq_to_bytes(s, order).subrange(8 * i, 8 * i + 4) =~= u32_to_bytes(
            s[i].0,
            order,
        ));
        assert(urational_seq_to_bytes(s, order).subrange(8 * i + 4, 8 * i + 8) =~= u32_to_bytes(
            s[i].1,
            order,
        ));
    } else {
        lemma_urational_seq_to_bytes_index(s.drop_last(), order, i);
        assert(s.drop_last()[i] == s[i]);
        assert(urational_seq_to_bytes(s, order).subrange(8 * i, 8 * i + 4)
            =~= urational_seq_to_bytes(s.drop_last(), order).subrange(8 * i, 8 * i + 4));
        assert(urational_seq_to_bytes(s, order).subrange(8 * i + 4, 8 * i + 8)
            =~= urational_seq_to_bytes(s.drop_last(), order).subrange(8 * i + 4, 8 * i + 8));
    }
}

proof fn lemma_encode_scalar_nul_free(c: u32)
    requires
        is_scalar(c),
        c != 0,
    ensures
        forall|k: int| 0 <= k < encode_scalar(c).len() ==> encode_scalar(c)[k] != 0,
{
    if vstd::utf8::has_width_1_encoding(c) {
        assert((c & 0x7F) as u8 != 0) by (bit_vector)
            requires
                c <= 0x7F && c != 0,
        ;
    } else {
        let b2 = ((c >> 6) & 0x1F) as u8;
        let b3 = ((c >> 12) & 0x0F) as u8;
        let b4 = ((c >> 18) & 0x7) as u8;
        let c1 = (c & 0x3F) as u8;
        let c2 = ((c >> 6) & 0x3F) as u8;
        let c3 = ((c >> 12) & 0x3F) as u8;
        assert(0xC0 | b2 != 0 && 0xE0 | b3 != 0 && 0xF0 | b4 != 0) by (bit_vector);
        assert(0x80 | c1 != 0 && 0x80 | c2 != 0 && 0x80 | c3 != 0) by (bit_vector);
    }
}

proof fn lemma_encode_utf8_nul_free(t: Seq<char>)
    requires
        forall|i: int| 0 <= i < t.len() ==> t[i] != '\0',
    ensures
        forall|k: int| 0 <= k < encode_utf8(t).len() ==> encode_utf8(t)[k] != 0,
    decreases t.len(),
{
    if t.len() > 0 {
        let c = t[0] as u32;
        char_is_scalar(t[0]);
        if c == 0 {
            char_u32_cast(t[0], 0);
            char_u32_cast('\0', 0);
            assert(false);
        }
        lemma_encode_scalar_nul_free(c);
        assert forall|i: int| 0 <= i < t.drop_first().len() implies t.drop_first()[i]
            != '\0' by {
            assert(t.drop_first()[i] == t[i + 1]);
        }
        lemma_encode_utf8_nul_free(t.drop_first());
        assert forall|k: int| 0 <= k < encode_utf8(t).len() implies encode_utf8(t)[k] != 0 by {
            let head = encode_scalar(c);
            if k >= head.len() {
                assert(encode_utf8(t)[k] == encode_utf8(t.drop_first())[k - head.len()]);
            }
        }
    }
}

/// Round trip: encoding a value's elements into raw bytes and decoding
/// them again, under the same format, component count and byte order,
/// reproduces the value exactly — for every variant and both byte orders.
/// A text value must hold no embedded zero character, since decoding cuts
/// text at the first zero byte.
pub proof fn lemma_extract_encode_round_trip(v: ValueView, order: ByteOrder)
    requires
        value_nul_free(v),
    ensures
        extract_model(encode_model(v, order), value_data_type(v), value_components(v), order)
            == Ok::<ValueView, ExifError>(v),
{
    let raw = encode_model(v, order);
    let n = value_components(v);
    match v {
        ValueView::Text(t) => {
            let e = encode_utf8(t);
            lemma_encode_utf8_nul_free(t);
            assert(raw.len() == e.len() + 1);
            assert(size_of_data_type(DataType::Text) * n == n);
            assert forall|j: int| 0 <= j < e.len() implies raw[j] != 0 by {
                assert(raw[j] == e[j]);
            }
            assert(raw[e.len() as int] == 0);
            lemma_first_nul_at(raw, e.len() as int);
            assert(raw.subrange(0, e.len() as int) =~= e);
            encode_utf8_valid_utf8(t);
            encode_utf8_decode_utf8(t);
        },
        ValueView::U8(s) => {
            assert(size_of_data_type(DataType::U8) * n == n);
        },
        ValueView::I8(s) => {
            assert(size_of_data_type(DataType::I8) * n == n);
            assert forall|i: int| 0 <= i < s.len() implies i8_seq_of_bytes(raw)[i] == s[i] by {
                let x = s[i];
                assert((x as u8) as i8 == x) by (bit_vector);
            }
            assert(i8_seq_of_bytes(raw) =~= s);
        },
        ValueView::U16(s) => {
            lemma_u16_seq_to_bytes_len(s, order);
            assert forall|i: int| 0 <= i < s.len() implies u16_seq_of_bytes(raw, n, order)[i]
                == s[i] by {
                lemma_u16_seq_to_bytes_index(s, order, i);
                lemma_u16_of_to_bytes(s[i], order);
            }
            assert(u16_seq_of_bytes(raw, n, order) =~= s);
        },
        ValueView::I16(s) => {
            let m = u16_seq_of_i16(s);
            lemma_u16_seq_to_bytes_len(m, order);
            assert forall|i: int| 0 <= i < s.len() implies i16_seq_of_bytes(raw, n, order)[i]
                == s[i] by {
                lemma_u16_seq_to_bytes_index(m, order, i);
                lemma_u16_of_to_bytes(m[i], order);
                let x = s[i];
                assert((x as u16) as i16 == x) by (bit_vector);
            }
            assert(i16_seq_of_bytes(raw, n, order) =~= s);
        },
        ValueView::U32(s) => {
            lemma_u32_seq_to_bytes_len(s, order);
            assert forall|i: int| 0 <= i < s.len() implies u32_seq_of_bytes(raw, n, order)[i]
                == s[i] by {
                lemma_u32_seq_to_bytes_index(s, order, i);
                lemma_u32_of_to_bytes(s[i], order);
            }
            assert(u32_seq_of_bytes(raw, n, order) =~= s);
        },
        ValueView::I32(s) => {
            let m = u32_seq_of_i32(s);
            lemma_u32_seq_to_bytes_len(m, order);
            assert forall|i: int| 0 <= i < s.len() implies i32_seq_of_bytes(raw, n, order)[i]
                == s[i] by {
                lemma_u32_seq_to_bytes_index(m, order, i);
                lemma_u32_of_to_bytes(m[i], order);
                let x = s[i];
                assert((x as u32) as i32 == x) by (bit_vector);
            }
            assert(i32_seq_of_bytes(raw, n, order) =~= s);
        },
        ValueView::URational(s) => {
            lemma_urational_seq_to_bytes_len(s, order);
            assert forall|i: int| 0 <= i < s.len() implies urational_seq_of_bytes(raw, n, order)[i]
                == s[i] by {
                lemma_urational_seq_to_bytes_index(s, order, i);
                lemma_u32_of_to_bytes(s[i].0, order);
                lemma_u32_of_to_bytes(s[i].1, order);
            }
            assert(urational_seq_of_bytes(raw, n, order) =~= s);
        },
        ValueView::IRational(s) => {
            let m = urational_seq_of_irational(s);
            lemma_urational_seq_to_bytes_len(m, order);
            assert forall|i: int| 0 <= i < s.len() implies irational_seq_of_bytes(raw, n, order)[i]
                == s[i] by {
                lemma_urational_seq_to_bytes_index(m, order, i);
                lemma_u32_of_to_bytes(m[i].0, order);
                lemma_u32_of_to_bytes(m[i].1, order);
                let x = s[i].0;
                let y = s[i].1;
                assert((x as u32) as i32 == x) by (bit_vector);
                assert((y as u32) as i32 == y) by (bit_vector);
            }
            assert(irational_seq_of_bytes(raw, n, order) =~= s);
        },
        ValueView::Undefined(s) => {
            assert(size_of_data_type(DataType::Undefined) * n == n);
        },
    }
}

fn encode_u16_vec(vals: &Vec<u16>, order: ByteOrder) -> (r: Vec<u8>)
    ensures
        r@ == u16_seq_to_bytes(vals@, order),
{
    let mut out: Vec<u8> = Vec::new();
    let mut i: usize = 0;
    while i < vals.len()
        invariant
            i <= vals@.len(),
            out@ == u16_seq_to_bytes(vals@.subrange(0, i as int), order),
        decreases vals@.len() - i,
    {
        push_u16(&mut out, vals[i], order);
        proof {
            assert(vals@.subrange(0, i + 1).drop_last() =~= vals@.subrange(0, i as int));
            assert(vals@.subrange(0, i + 1).last() == vals@[i as int]);
        }
        i += 1;
    }
    proof {
        assert(vals@.subrange(0, vals@.len() as int) =~= vals@);
    }
    out
}

fn encode_i16_vec(vals: &Vec<i16>, order: ByteOrder) -> (r: Vec<u8>)
    ensures
        r@ == u16_seq_to_bytes(u16_seq_of_i16(vals@), order),
{
    let mut out: Vec<u8> = Vec::new();
    let mut i: usize = 0;
    while i < vals.len()
        invariant
            i <= vals@.len(),
            out@ == u16_seq_to_bytes(u16_seq_of_i16(vals@).subrange(0, i as int), order),
        decreases vals@.len() - i,
    {
        push_u16(&mut out, #[verifier::truncate] (vals[i] as u16), order);
        proof {
            let m = u16_seq_of_i16(vals@);
            assert(m.subrange(0, i + 1).drop_last() =~= m.subrange(0, i as int));
            assert(m.subrange(0, i + 1).last() == m[i as int]);
        }
        i += 1;
    }
    proof {
        let m = u16_seq_of_i16(vals@);
        assert(m.subrange(0, m.len() as int) =~= m);
    }
    out
}

fn encode_u32_vec(vals: &Vec<u32>, order: ByteOrder) -> (r: Vec<u8>)
    ensures
        r@ == u32_seq_to_bytes(vals@, order),
{
    let mut out: Vec<u8> = Vec::new();
    let mut i: usize = 0;
    while i < vals.len()
        invariant
            i <= vals@.len(),
            out@ == u32_seq_to_bytes(vals@.subrange(0, i as int), order),
        decreases vals@.len() - i,
    {
        push_u32(&mut out, vals[i], order);
        proof {
            assert(vals@.subrange(0, i + 1).drop_last() =~= vals@.subrange(0, i as int));
            assert(vals@.subrange(0, i + 1).last() == vals@[i as int]);
        }
        i += 1;
    }
    proof {
        assert(vals@.subrange(0, vals@.len() as int) =~= vals@);
    }
    out
}

fn encode_i32_vec(vals: &Vec<i32>, order: ByteOrder) -> (r: Vec<u8>)
    ensures
        r@ == u32_seq_to_bytes(u32_seq_of_i32(vals@), order),
{
    let mut out: Vec<u8> = Vec::new();
    let mut i: usize = 0;
    while i < vals.len()
        invariant
            i <= vals@.len(),
            out@ == u32_seq_to_bytes(u32_seq_of_i32(vals@).subrange(0, i as int), order),
        decreases vals@.len() - i,
    {
        push_u32(&mut out, #[verifier::truncate] (vals[i] as u32), order);
        proof {
            let m = u32_seq_of_i32(vals@);
            assert(m.subrange(0, i + 1).drop_last() =~= m.subrange(0, i as int));
            assert(m.subrange(0, i + 1).last() == m[i as int]);
        }
        i += 1;
    }
    proof {
        let m = u32_seq_of_i32(vals@);
        assert(m.subrange(0, m.len() as int) =~= m);
    }
    out
}

fn encode_urational_vec(vals: &Vec<Rational<u32>>, order: ByteOrder) -> (r: Vec<u8>)
    ensures
        r@ == urational_seq_to_bytes(vals@, order),
{
    let mut out: Vec<u8> = Vec::new();
    let mut i: usize = 0;
    while i < vals.len()
        invariant
            i <= vals@.len(),
            out@ == urational_seq_to_bytes(vals@.subrange(0, i as int), order),
        decreases vals@.len() - i,
    {
        push_u32(&mut out, vals[i].0, order);
        push_u32(&mut out, vals[i].1, order);
        proof {
            assert(vals@.subrange(0, i + 1).drop_last() =~= vals@.subrange(0, i as int));
            assert(vals@.subrange(0, i + 1).last() == vals@[i as int]);
        }
        i += 1;
    }
    proof {
        assert(vals@.subrange(0, vals@.len() as int) =~= vals@);
    }
    out
}

fn encode_irational_vec(vals: &Vec<Rational<i32>>, order: ByteOrder) -> (r: Vec<u8>)
    ensures
        r@ == urational_seq_to_bytes(urational_seq_of_irational(vals@), order),
{
    let mut out: Vec<u8> = Vec::new();
    let mut i: usize = 0;
    while i < vals.len()
        invariant
            i <= vals@.len(),
            out@ == urational_seq_to_bytes(
                urational_seq_of_irational(vals@).subrange(0, i as int),
                order,
            ),
        decreases vals@.len() - i,
    {
        push_u32(&mut out, #[verifier::truncate] (vals[i].0 as u32), order);
        push_u32(&mut out, #[verifier::truncate] (vals[i].1 as u32), order);
        proof {
            let m = urational_seq_of_irational(vals@);
            assert(m.subrange(0, i + 1).drop_last() =~= m.subrange(0, i as int));
            assert(m.subrange(0, i + 1).last() == m[i as int]);
        }
        i += 1;
    }
    proof {
        let m = urational_seq_of_irational(vals@);
        assert(m.subrange(0, m.len() as int) =~= m);
    }
    out
}

fn encode_i8_vec(vals: &Vec<i8>) -> (r: Vec<u8>)
    ensures
        r@ == u8_seq_of_i8(vals@),
{
    let mut out: Vec<u8> = Vec::new();
    let mut i: usize = 0;
    while i < vals.len()
        invariant
            i <= vals@.len(),
            out@ == u8_seq_of_i8(vals@).subrange(0, i as int),
        decreases vals@.len() - i,
    {
        out.push(#[verifier::truncate] (vals[i] as u8));
        proof {
            assert(out@ =~= u8_seq_of_i8(vals@).subrange(0, i + 1));
        }
        i += 1;
    }
    proof {
        assert(u8_seq_of_i8(vals@).subrange(0, vals@.len() as int) =~= u8_seq_of_i8(vals@));
    }
    out
}

impl Value {
    /// Encode this value into the raw bytes that [`Value::extract`] decodes
    /// it from, under the given byte order. Text gains its terminating zero
    /// byte; every other variant is its elements' encodings, in order.
    pub fn encode(&self, byte_order: ByteOrder) -> (r: Vec<u8>)
        ensures
            r@ == encode_model(self@, byte_order),
    {
        match self {
            Value::Text(s) => {
                let mut out = slice_to_vec(s.as_str().as_bytes());
                out.push(0);
                proof {
                    assert(out@ =~= encode_utf8(s@) + seq![0u8]);
                }
                out
            },
            Value::U8(v) => slice_to_vec(v.as_slice()),
            Value::I8(v) => encode_i8_vec(v),
            Value::U16(v) => encode_u16_vec(v, byte_order),
            Value::I16(v) => encode_i16_vec(v, byte_order),
            Value::U32(v) => encode_u32_vec(v, byte_order),
            Value::I32(v) => encode_i32_vec(v, byte_order),
            Value::URational(v) => encode_urational_vec(v, byte_order),
            Value::IRational(v) => encode_irational_vec(v, byte_order),
            Value::Undefined(v) => slice_to_vec(v.as_slice()),
        }
    }
}

} // verus!
