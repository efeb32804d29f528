//! The tagged value model: a closed sum type with one variant per supported
//! scalar kind, its spec-level view, and the error reported when a value is
//! narrowed to the wrong static type.

use vstd::prelude::*;

verus! {

/// Spec-level model of a tagged value.
///
/// The two floating-point variants carry the raw IEEE 754 bit pattern of
/// the value as an unsigned integer of the same width: the container only
/// moves bytes, so the bit pattern is the whole story at this layer.
/// The text variant carries the byte string of a NUL-free C string, without
/// its terminator.
pub enum ValueView {
    Int8(i8),
    Int16(i16),
    Int32(i32),
    Int64(i64),
    UInt8(u8),
    UInt16(u16),
    UInt32(u32),
    UInt64(u64),
    Float32(u32),
    Float64(u64),
    Bool(bool),
    Str(Seq<u8>),
}

/// The raw bit pattern of a single-precision floating-point value, as
/// `to_bits` of the standard library yields it.
///
/// The container carries such a value opaquely: it never does arithmetic on
/// it, so only the bits travel through this crate.
#[derive(Clone, Copy, Debug, PartialEq, Eq, Structural)]
pub struct Float32Bits(pub u32);

/// The raw bit pattern of a double-precision floating-point value.
#[derive(Clone, Copy, Debug, PartialEq, Eq, Structural)]
pub struct Float64Bits(pub u64);

impl View for Float32Bits {
    type V = Float32Bits;

    open spec fn view(&self) -> Float32Bits {
        *self
    }
}

impl View for Float64Bits {
    type V = Float64Bits;

    open spec fn view(&self) -> Float64Bits {
        *self
    }
}

/// A runtime tagged value: what a read from the container yields, and what
/// a write to the container boxes a host value into.
///
/// A text value owns its bytes.  A read copies the stored payload out of
/// the container, so the value stays valid however the container is
/// mutated or dropped afterwards.
#[derive(Debug)]
#[non_exhaustive]
pub enum BinnValue {
    Int8(i8),
    Int16(i16),
    Int32(i32),
    Int64(i64),
    UInt8(u8),
    UInt16(u16),
    UInt32(u32),
    UInt64(u64),
    Float32(Float32Bits),
    Float64(Float64Bits),
    Bool(bool),
    Str(Vec<u8>),
}

impl View for BinnValue {
    type V = ValueView;

    open spec fn view(&self) -> ValueView {
        match self {
            BinnValue::Int8(x) => ValueView::Int8(*x),
            BinnValue::Int16(x) => ValueView::Int16(*x),
            BinnValue::Int32(x) => ValueView::Int32(*x),
            BinnValue::Int64(x) => ValueView::Int64(*x),
            BinnValue::UInt8(x) => ValueView::UInt8(*x),
            BinnValue::UInt16(x) => ValueView::UInt16(*x),
            BinnValue::UInt32(x) => ValueView::UInt32(*x),
            BinnValue::UInt64(x) => ValueView::UInt64(*x),
            BinnValue::Float32(x) => ValueView::Float32(x.0),
            BinnValue::Float64(x) => ValueView::Float64(x.0),
            BinnValue::Bool(x) => ValueView::Bool(*x),
            BinnValue::Str(s) => ValueView::Str(s@),
        }
    }
}

/// Reported when a tagged value is narrowed to a static type whose variant
/// it does not hold.
#[derive(Debug)]
pub struct WrongBinnValue;

} // verus!
