//! Typed, memory-safe access to a compact, self-describing container of
//! tagged scalar values.
//!
//! A [`BinnObject`] stores values of fixed-width integer types, booleans,
//! floating-point bit patterns and NUL-free byte strings under non-empty
//! string keys.  Every stored value is kept in serialized form: a wire
//! type tag together with a little-endian byte payload.  The typed
//! accessors [`BinnObject::set`] and [`BinnObject::get_as`] bridge that
//! dynamically tagged representation and the statically typed host
//! language: `set` boxes a host value into its `(tag, payload)` pair,
//! `get_as` unboxes the pair and narrows it back to the requested static
//! type, yielding `None` on a missing key or a type mismatch.
//!
//! The contracts speak of a mathematical view: a map from key byte
//! strings to [`ValueView`]s, the spec-level model of a tagged value.
//! The laws in [`laws`] relate sequences of typed calls over that view.

pub mod bytes;
pub mod codec;
pub mod laws;
pub mod object;
pub mod scalar;
pub mod value;

pub use codec::{
    TAG_BOOL, TAG_FLOAT32, TAG_FLOAT64, TAG_INT16, TAG_INT32, TAG_INT64, TAG_INT8, TAG_STRING,
    TAG_UINT16, TAG_UINT32, TAG_UINT64, TAG_UINT8,
};
pub use object::BinnObject;
pub use scalar::BinnScalar;
pub use value::{BinnValue, Float32Bits, Float64Bits, ValueView, WrongBinnValue};
