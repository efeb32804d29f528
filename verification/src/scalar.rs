//! The typed accessors' single source of truth: one trait implementation
//! per supported scalar type, carrying both directions of the type-tag
//! dispatch — boxing a host value into a tagged value, and narrowing a
//! tagged value back to the host type.
//!
//! Each implementation must also prove the two laws that keep the
//! directions in lockstep: narrowing a freshly boxed value yields the value
//! back, and narrowing succeeds exactly on the variant with the type's own
//! wire tag.

use vstd::prelude::*;

use crate::codec::spec_tag_of;
use crate::codec::{
    TAG_BOOL, TAG_FLOAT32, TAG_FLOAT64, TAG_INT16, TAG_INT32, TAG_INT64, TAG_INT8, TAG_STRING,
    TAG_UINT16, TAG_UINT32, TAG_UINT64, TAG_UINT8,
};
use crate::value::{BinnValue, Float32Bits, Float64Bits, ValueView, WrongBinnValue};

verus! {

/// A host type the container can store and retrieve.
///
/// `value_view` and `narrowed` are the two directions of the dispatch
/// table; `into_value` and `try_from_value` are their executable sides.
/// The two lemmas are the table's lockstep laws: every implementation has
/// to prove them, so a type that can be stored but not retrieved — or
/// retrieved as something else — cannot be written.
pub trait BinnScalar: View + Sized {
    /// The wire tag of values of this type.
    spec fn wire_tag() -> u32;

    /// The tagged value that boxing a host value yields.
    spec fn value_view(self) -> ValueView;

    /// The narrow direction: the host value a tagged value denotes, if the
    /// variant matches this type.
    spec fn narrowed(v: ValueView) -> Option<Self::V>;

    /// Boxes a host value into its tagged value.
    fn into_value(self) -> (r: BinnValue)
        ensures
            r@ == self.value_view(),
    ;

    /// Narrows a tagged value to this type, reporting a mismatch cleanly.
    fn try_from_value(v: BinnValue) -> (r: Result<Self, WrongBinnValue>)
        ensures
            match r {
                Ok(x) => Self::narrowed(v@) == Some(x@),
                Err(_) => Self::narrowed(v@) is None,
            },
    ;

    /// Narrowing a boxed value yields the value back.
    proof fn lemma_narrow_roundtrip(x: Self)
        ensures
            Self::narrowed(x.value_view()) == Some(x@),
    ;

    /// Narrowing succeeds exactly on the variant carrying this type's own
    /// wire tag.
    proof fn lemma_narrow_iff_tag(v: ValueView)
        ensures
            (Self::narrowed(v) is Some) <==> spec_tag_of(v) == Self::wire_tag(),
    ;
}

impl BinnScalar for i8 {
    open spec fn wire_tag() -> u32 {
        TAG_INT8
    }

    open spec fn value_view(self) -> ValueView {
        ValueView::Int8(self)
    }

    open spec fn narrowed(v: ValueView) -> Option<i8> {
        match v {
            ValueView::Int8(x) => Some(x),
            _ => None,
        }
    }

    fn into_value(self) -> (r: BinnValue) {
        BinnValue::Int8(self)
    }

    fn try_from_value(v: BinnValue) -> (r: Result<Self, WrongBinnValue>) {
        match v {
            BinnValue::Int8(x) => Ok(x),
            _ => Err(WrongBinnValue),
        }
    }

    proof fn lemma_narrow_roundtrip(x: Self) {
    }

    proof fn lemma_narrow_iff_tag(v: ValueView) {
    }
}

impl BinnScalar for i16 {
    open spec fn wire_tag() -> u32 {
        TAG_INT16
    }

    open spec fn value_view(self) -> ValueView {
        ValueView::Int16(self)
    }

    open spec fn narrowed(v: ValueView) -> Option<i16> {
        match v {
            ValueView::Int16(x) => Some(x),
            _ => None,
        }
    }

    fn into_value(self) -> (r: BinnValue) {
        BinnValue::Int16(self)
    }

    fn try_from_value(v: BinnValue) -> (r: Result<Self, WrongBinnValue>) {
        match v {
            BinnValue::Int16(x) => Ok(x),
            _ => Err(WrongBinnValue),
        }
    }

    proof fn lemma_narrow_roundtrip(x: Self) {
    }

    proof fn lemma_narrow_iff_tag(v: ValueView) {
    }
}

impl BinnScalar for i32 {
    open spec fn wire_tag() -> u32 {
        TAG_INT32
    }

    open spec fn value_view(self) -> ValueView {
        ValueView::Int32(self)
    }

    open spec fn narrowed(v: ValueView) -> Option<i32> {
        match v {
            ValueView::Int32(x) => Some(x),
            _ => None,
        }
    }

    fn into_value(self) -> (r: BinnValue) {
        BinnValue::Int32(self)
    }

    fn try_from_value(v: BinnValue) -> (r: Result<Self, WrongBinnValue>) {
        match v {
            BinnValue::Int32(x) => Ok(x),
            _ => Err(WrongBinnValue),
        }
    }

    proof fn lemma_narrow_roundtrip(x: Self) {
    }

    proof fn lemma_narrow_iff_tag(v: ValueView) {
    }
}

impl BinnScalar for i64 {
    open spec fn wire_tag() -> u32 {
        TAG_INT64
    }

    open spec fn value_view(self) -> ValueView {
        ValueView::Int64(self)
    }

    open spec fn narrowed(v: ValueView) -> Option<i64> {
        match v {
            ValueView::Int64(x) => Some(x),
            _ => None,
        }
    }

    fn into_value(self) -> (r: BinnValue) {
        BinnValue::Int64(self)
    }

    fn try_from_value(v: BinnValue) -> (r: Result<Self, WrongBinnValue>) {
        match v {
            BinnValue::Int64(x) => Ok(x),
            _ => Err(WrongBinnValue),
        }
    }

    proof fn lemma_narrow_roundtrip(x: Self) {
    }

    proof fn lemma_narrow_iff_tag(v: ValueView) {
    }
}

impl BinnScalar for u8 {
    open spec fn wire_tag() -> u32 {
        TAG_UINT8
    }

    open spec fn value_view(self) -> ValueView {
        ValueView::UInt8(self)
    }

    open spec fn narrowed(v: ValueView) -> Option<u8> {
        match v {
            ValueView::UInt8(x) => Some(x),
            _ => None,
        }
    }

    fn into_value(self) -> (r: BinnValue) {
        BinnValue::UInt8(self)
    }

    fn try_from_value(v: BinnValue) -> (r: Result<Self, WrongBinnValue>) {
        match v {
            BinnValue::UInt8(x) => Ok(x),
            _ => Err(WrongBinnValue),
        }
    }

    proof fn lemma_narrow_roundtrip(x: Self) {
    }

    proof fn lemma_narrow_iff_tag(v: ValueView) {
    }
}

impl BinnScalar for u16 {
    open spec fn wire_tag() -> u32 {
        TAG_UINT16
    }

    open spec fn value_view(self) -> ValueView {
        ValueView::UInt16(self)
    }

    open spec fn narrowed(v: ValueView) -> Option<u16> {
        match v {
            ValueView::UInt16(x) => Some(x),
            _ => None,
        }
    }

    fn into_value(self) -> (r: BinnValue) {
        BinnValue::UInt16(self)
    }

    fn try_from_value(v: BinnValue) -> (r: Result<Self, WrongBinnValue>) {
        match v {
            BinnValue::UInt16(x) => Ok(x),
            _ => Err(WrongBinnValue),
        }
    }

    proof fn lemma_narrow_roundtrip(x: Self) {
    }

    proof fn lemma_narrow_iff_tag(v: ValueView) {
    }
}

impl BinnScalar for u32 {
    open spec fn wire_tag() -> u32 {
        TAG_UINT32
    }

    open spec fn value_view(self) -> ValueView {
        ValueView::UInt32(self)
    }

    open spec fn narrowed(v: ValueView) -> Option<u32> {
        match v {
            ValueView::UInt32(x) => Some(x),
            _ => None,
        }
    }

    fn into_value(self) -> (r: BinnValue) {
        BinnValue::UInt32(self)
    }

    fn try_from_value(v: BinnValue) -> (r: Result<Self, WrongBinnValue>) {
        match v {
            BinnValue::UInt32(x) => Ok(x),
            _ => Err(WrongBinnValue),
        }
    }

    proof fn lemma_narrow_roundtrip(x: Self) {
    }

    proof fn lemma_narrow_iff_tag(v: ValueView) {
    }
}

impl BinnScalar for u64 {
    open spec fn wire_tag() -> u32 {
        TAG_UINT64
    }

    open spec fn value_view(self) -> ValueView {
        ValueView::UInt64(self)
    }

    open spec fn narrowed(v: ValueView) -> Option<u64> {
        match v {
            ValueView::UInt64(x) => Some(x),
            _ => None,
        }
    }

    fn into_value(self) -> (r: BinnValue) {
        BinnValue::UInt64(self)
    }

    fn try_from_value(v: BinnValue) -> (r: Result<Self, WrongBinnValue>) {
        match v {
            BinnValue::UInt64(x) => Ok(x),
            _ => Err(WrongBinnValue),
        }
    }

    proof fn lemma_narrow_roundtrip(x: Self) {
    }

    proof fn lemma_narrow_iff_tag(v: ValueView) {
    }
}

impl BinnScalar for Float32Bits {
    open spec fn wire_tag() -> u32 {
        TAG_FLOAT32
    }

    open spec fn value_view(self) -> ValueView {
        ValueView::Float32(self.0)
    }

    open spec fn narrowed(v: ValueView) -> Option<Float32Bits> {
        match v {
            ValueView::Float32(b) => Some(Float32Bits(b)),
            _ => None,
        }
    }

    fn into_value(self) -> (r: BinnValue) {
        BinnValue::Float32(self)
    }

    fn try_from_value(v: BinnValue) -> (r: Result<Self, WrongBinnValue>) {
        match v {
            BinnValue::Float32(b) => Ok(b),
            _ => Err(WrongBinnValue),
        }
    }

    proof fn lemma_narrow_roundtrip(x: Self) {
    }

    proof fn lemma_narrow_iff_tag(v: ValueView) {
    }
}

impl BinnScalar for Float64Bits {
    open spec fn wire_tag() -> u32 {
        TAG_FLOAT64
    }

    open spec fn value_view(self) -> ValueView {
        ValueView::Float64(self.0)
    }

    open spec fn narrowed(v: ValueView) -> Option<Float64Bits> {
        match v {
            ValueView::Float64(b) => Some(Float64Bits(b)),
            _ => None,
        }
    }

    fn into_value(self) -> (r: BinnValue) {
        BinnValue::Float64(self)
    }

    fn try_from_value(v: BinnValue) -> (r: Result<Self, WrongBinnValue>) {
        match v {
            BinnValue::Float64(b) => Ok(b),
            _ => Err(WrongBinnValue),
        }
    }

    proof fn lemma_narrow_roundtrip(x: Self) {
    }

    proof fn lemma_narrow_iff_tag(v: ValueView) {
    }
}

impl BinnScalar for bool {
    open spec fn wire_tag() -> u32 {
        TAG_BOOL
    }

    open spec fn value_view(self) -> ValueView {
        ValueView::Bool(self)
    }

    open spec fn narrowed(v: ValueView) -> Option<bool> {
        match v {
            ValueView::Bool(b) => Some(b),
            _ => None,
        }
    }

    fn into_value(self) -> (r: BinnValue) {
        BinnValue::Bool(self)
    }

    fn try_from_value(v: BinnValue) -> (r: Result<Self, WrongBinnValue>) {
        match v {
            BinnValue::Bool(b) => Ok(b),
            _ => Err(WrongBinnValue),
        }
    }

    proof fn lemma_narrow_roundtrip(x: Self) {
    }

    proof fn lemma_narrow_iff_tag(v: ValueView) {
    }
}

impl BinnScalar for Vec<u8> {
    open spec fn wire_tag() -> u32 {
        TAG_STRING
    }

    open spec fn value_view(self) -> ValueView {
        ValueView::Str(self@)
    }

    open spec fn narrowed(v: ValueView) -> Option<Seq<u8>> {
        match v {
            ValueView::Str(s) => Some(s),
            _ => None,
        }
    }

    fn into_value(self) -> (r: BinnValue) {
        BinnValue::Str(self)
    }

    fn try_from_value(v: BinnValue) -> (r: Result<Self, WrongBinnValue>) {
        match v {
            BinnValue::Str(s) => Ok(s),
            _ => Err(WrongBinnValue),
        }
    }

    proof fn lemma_narrow_roundtrip(x: Self) {
    }

    proof fn lemma_narrow_iff_tag(v: ValueView) {
    }
}

} // verus!
