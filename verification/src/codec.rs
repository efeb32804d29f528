//! The wire codec: the type-tag enumeration, and the boxing of a tagged
//! value into a `(tag, payload)` pair and back.
//!
//! The tag constants are the type tags of the binn wire format.  A
//! fixed-width value's payload is its little-endian byte string of the
//! tag's intrinsic size; a boolean's payload is one byte, zero or one; a
//! text value's payload is its NUL-free byte string.
//!
//! [`lemma_decode_encode`] is the keystone: decoding what was encoded
//! yields the value back, for every well-formed value.

use vstd::prelude::*;

use crate::bytes::{
    i16_from_u16, i16_of_u16, i32_from_u32, i32_of_u32, i64_from_u64, i64_of_u64, i8_from_u8,
    i8_of_u8, le_bytes, le_decode, le_encode, le_val, lemma_i16_bits, lemma_i32_bits,
    lemma_i64_bits, lemma_i8_bits, lemma_le_bytes_len, lemma_le_bytes_val, lemma_le_val_bound,
    lemma_pow256_values, pow256, u16_from_i16, u16_of_i16, u32_from_i32, u32_of_i32, u64_from_i64,
    u64_of_i64, u8_from_i8, u8_of_i8,
};
use crate::value::{BinnValue, Float32Bits, Float64Bits, ValueView};

verus! {

pub const TAG_UINT8: u32 = 0x20;

pub const TAG_INT8: u32 = 0x21;

pub const TAG_UINT16: u32 = 0x40;

pub const TAG_INT16: u32 = 0x41;

pub const TAG_UINT32: u32 = 0x60;

pub const TAG_INT32: u32 = 0x61;

pub const TAG_FLOAT32: u32 = 0x62;

pub const TAG_UINT64: u32 = 0x80;

pub const TAG_INT64: u32 = 0x81;

pub const TAG_FLOAT64: u32 = 0x82;

pub const TAG_STRING: u32 = 0xa0;

pub const TAG_BOOL: u32 = 0x80061;

/// Whether a byte string holds no NUL byte: what a C string can carry.
pub open spec fn nul_free(s: Seq<u8>) -> bool {
    forall|i: int| 0 <= i < s.len() ==> s[i] != 0
}

/// A key is non-empty, NUL-free text: what a non-empty C string can hold.
pub open spec fn valid_key(k: Seq<u8>) -> bool {
    k.len() > 0 && nul_free(k)
}

/// A value is well formed when its text, if any, is NUL-free.
pub open spec fn valid_value(v: ValueView) -> bool {
    match v {
        ValueView::Str(s) => nul_free(s),
        _ => true,
    }
}

/// The wire tag of a tagged value: the encode direction of the dispatch
/// table.
pub open spec fn spec_tag_of(v: ValueView) -> u32 {
    match v {
        ValueView::Int8(_) => TAG_INT8,
        ValueView::Int16(_) => TAG_INT16,
        ValueView::Int32(_) => TAG_INT32,
        ValueView::Int64(_) => TAG_INT64,
        ValueView::UInt8(_) => TAG_UINT8,
        ValueView::UInt16(_) => TAG_UINT16,
        ValueView::UInt32(_) => TAG_UINT32,
        ValueView::UInt64(_) => TAG_UINT64,
        ValueView::Float32(_) => TAG_FLOAT32,
        ValueView::Float64(_) => TAG_FLOAT64,
        ValueView::Bool(_) => TAG_BOOL,
        ValueView::Str(_) => TAG_STRING,
    }
}

/// The byte payload of a tagged value.
pub open spec fn spec_payload_of(v: ValueView) -> Seq<u8> {
    match v {
        ValueView::Int8(x) => le_bytes(u8_of_i8(x) as nat, 1),
        ValueView::Int16(x) => le_bytes(u16_of_i16(x) as nat, 2),
        ValueView::Int32(x) => le_bytes(u32_of_i32(x) as nat, 4),
        ValueView::Int64(x) => le_bytes(u64_of_i64(x) as nat, 8),
        ValueView::UInt8(x) => le_bytes(x as nat, 1),
        ValueView::UInt16(x) => le_bytes(x as nat, 2),
        ValueView::UInt32(x) => le_bytes(x as nat, 4),
        ValueView::UInt64(x) => le_bytes(x as nat, 8),
        ValueView::Float32(b) => le_bytes(b as nat, 4),
        ValueView::Float64(b) => le_bytes(b as nat, 8),
        ValueView::Bool(b) => seq![if b { 1u8 } else { 0u8 }],
        ValueView::Str(s) => s,
    }
}

/// The decode direction of the dispatch table: which value, if any, a
/// `(tag, payload)` pair denotes.  An unknown tag denotes nothing, as does
/// a payload whose size does not match the tag's intrinsic size.
pub open spec fn spec_decode(tag: u32, p: Seq<u8>) -> Option<ValueView> {
    if tag == TAG_INT8 {
        if p.len() == 1 {
            Some(ValueView::Int8(i8_of_u8(le_val(p) as u8)))
        } else {
            None
        }
    } else if tag == TAG_INT16 {
        if p.len() == 2 {
            Some(ValueView::Int16(i16_of_u16(le_val(p) as u16)))
        } else {
            None
        }
    } else if tag == TAG_INT32 {
        if p.len() == 4 {
            Some(ValueView::Int32(i32_of_u32(le_val(p) as u32)))
        } else {
            None
        }
    } else if tag == TAG_INT64 {
        if p.len() == 8 {
            Some(ValueView::Int64(i64_of_u64(le_val(p) as u64)))
        } else {
            None
        }
    } else if tag == TAG_UINT8 {
        if p.len() == 1 {
            Some(ValueView::UInt8(le_val(p) as u8))
        } else {
            None
        }
    } else if tag == TAG_UINT16 {
        if p.len() == 2 {
            Some(ValueView::UInt16(le_val(p) as u16))
        } else {
            None
        }
    } else if tag == TAG_UINT32 {
        if p.len() == 4 {
            Some(ValueView::UInt32(le_val(p) as u32))
        } else {
            None
        }
    } else if tag == TAG_UINT64 {
        if p.len() == 8 {
            Some(ValueView::UInt64(le_val(p) as u64))
        } else {
            None
        }
    } else if tag == TAG_FLOAT32 {
        if p.len() == 4 {
            Some(ValueView::Float32(le_val(p) as u32))
        } else {
            None
        }
    } else if tag == TAG_FLOAT64 {
        if p.len() == 8 {
            Some(ValueView::Float64(le_val(p) as u64))
        } else {
            None
        }
    } else if tag == TAG_BOOL {
        if p.len() == 1 {
            Some(ValueView::Bool(p[0] != 0))
        } else {
            None
        }
    } else if tag == TAG_STRING {
        if nul_free(p) {
            Some(ValueView::Str(p))
        } else {
            None
        }
    } else {
        None
    }
}

/// Boxes a tagged value into its wire pair.
pub fn encode_value(v: BinnValue) -> (r: (u32, Vec<u8>))
    ensures
        r.0 == spec_tag_of(v@),
        r.1@ == spec_payload_of(v@),
{
    proof {
        lemma_pow256_values();
    }
    match v {
        BinnValue::Int8(x) => (TAG_INT8, le_encode(u8_from_i8(x) as u64, 1)),
        BinnValue::Int16(x) => (TAG_INT16, le_encode(u16_from_i16(x) as u64, 2)),
        BinnValue::Int32(x) => (TAG_INT32, le_encode(u32_from_i32(x) as u64, 4)),
        BinnValue::Int64(x) => (TAG_INT64, le_encode(u64_from_i64(x), 8)),
        BinnValue::UInt8(x) => (TAG_UINT8, le_encode(x as u64, 1)),
        BinnValue::UInt16(x) => (TAG_UINT16, le_encode(x as u64, 2)),
        BinnValue::UInt32(x) => (TAG_UINT32, le_encode(x as u64, 4)),
        BinnValue::UInt64(x) => (TAG_UINT64, le_encode(x, 8)),
        BinnValue::Float32(b) => (TAG_FLOAT32, le_encode(b.0 as u64, 4)),
        BinnValue::Float64(b) => (TAG_FLOAT64, le_encode(b.0, 8)),
        BinnValue::Bool(b) => {
            let mut p: Vec<u8> = Vec::new();
            if b {
                p.push(1);
            } else {
                p.push(0);
            }
            proof {
                assert(p@ =~= spec_payload_of(ValueView::Bool(b)));
            }
            (TAG_BOOL, p)
        },
        BinnValue::Str(s) => (TAG_STRING, s),
    }
}

/// Whether the byte string holds a NUL byte.
pub fn contains_nul(s: &[u8]) -> (r: bool)
    ensures
        r <==> exists|i: int| 0 <= i < s@.len() && s@[i] == 0,
{
    let n: usize = s.len();
    let mut i: usize = 0;
    while i < n
        invariant
            i <= n,
            n == s@.len(),
            forall|j: int| 0 <= j < i ==> s@[j] != 0,
        decreases n - i,
    {
        if s[i] == 0 {
            return true;
        }
        i = i + 1;
    }
    false
}

/// Unboxes a wire pair back into a tagged value; yields nothing on an
/// unknown tag or a payload that does not fit the tag.
pub fn decode_value(tag: u32, payload: &[u8]) -> (r: Option<BinnValue>)
    ensures
        match r {
            Some(bv) => spec_decode(tag, payload@) == Some(bv@),
            None => spec_decode(tag, payload@) is None,
        },
{
    proof {
        lemma_le_val_bound(payload@);
        lemma_pow256_values();
    }
    if tag == TAG_INT8 {
        if payload.len() == 1 {
            Some(BinnValue::Int8(i8_from_u8(le_decode(payload) as u8)))
        } else {
            None
        }
    } else if tag == TAG_INT16 {
        if payload.len() == 2 {
            Some(BinnValue::Int16(i16_from_u16(le_decode(payload) as u16)))
        } else {
            None
        }
    } else if tag == TAG_INT32 {
        if payload.len() == 4 {
            Some(BinnValue::Int32(i32_from_u32(le_decode(payload) as u32)))
        } else {
            None
        }
    } else if tag == TAG_INT64 {
        if payload.len() == 8 {
            Some(BinnValue::Int64(i64_from_u64(le_decode(payload))))
        } else {
            None
        }
    } else if tag == TAG_UINT8 {
        if payload.len() == 1 {
            Some(BinnValue::UInt8(le_decode(payload) as u8))
        } else {
            None
        }
    } else if tag == TAG_UINT16 {
        if payload.len() == 2 {
            Some(BinnValue::UInt16(le_decode(payload) as u16))
        } else {
            None
        }
    } else if tag == TAG_UINT32 {
        if payload.len() == 4 {
            Some(BinnValue::UInt32(le_decode(payload) as u32))
        } else {
            None
        }
    } else if tag == TAG_UINT64 {
        if payload.len() == 8 {
            Some(BinnValue::UInt64(le_decode(payload)))
        } else {
            None
        }
    } else if tag == TAG_FLOAT32 {
        if payload.len() == 4 {
            Some(BinnValue::Float32(Float32Bits(le_decode(payload) as u32)))
        } else {
            None
        }
    } else if tag == TAG_FLOAT64 {
        if payload.len() == 8 {
            Some(BinnValue::Float64(Float64Bits(le_decode(payload))))
        } else {
            None
        }
    } else if tag == TAG_BOOL {
        if payload.len() == 1 {
            Some(BinnValue::Bool(payload[0] != 0))
        } else {
            None
        }
    } else if tag == TAG_STRING {
        if contains_nul(payload) {
            None
        } else {
            Some(BinnValue::Str(vstd::slice::slice_to_vec(payload)))
        }
    } else {
        None
    }
}

/// Decoding what was encoded yields the value back: the two directions of
/// the dispatch table are in lockstep.
pub proof fn lemma_decode_encode(v: ValueView)
    requires
        valid_value(v),
    ensures
        spec_decode(spec_tag_of(v), spec_payload_of(v)) == Some(v),
{
    lemma_pow256_values();
    match v {
        ValueView::Int8(x) => {
            lemma_le_bytes_len(u8_of_i8(x) as nat, 1);
            lemma_le_bytes_val(u8_of_i8(x) as nat, 1);
            lemma_i8_bits(x);
        },
        ValueView::Int16(x) => {
            lemma_le_bytes_len(u16_of_i16(x) as nat, 2);
            lemma_le_bytes_val(u16_of_i16(x) as nat, 2);
            lemma_i16_bits(x);
        },
        ValueView::Int32(x) => {
            lemma_le_bytes_len(u32_of_i32(x) as nat, 4);
            lemma_le_bytes_val(u32_of_i32(x) as nat, 4);
            lemma_i32_bits(x);
        },
        ValueView::Int64(x) => {
            lemma_le_bytes_len(u64_of_i64(x) as nat, 8);
            lemma_le_bytes_val(u64_of_i64(x) as nat, 8);
            lemma_i64_bits(x);
        },
        ValueView::UInt8(x) => {
            lemma_le_bytes_len(x as nat, 1);
            lemma_le_bytes_val(x as nat, 1);
        },
        ValueView::UInt16(x) => {
            lemma_le_bytes_len(x as nat, 2);
            lemma_le_bytes_val(x as nat, 2);
        },
        ValueView::UInt32(x) => {
            lemma_le_bytes_len(x as nat, 4);
            lemma_le_bytes_val(x as nat, 4);
        },
        ValueView::UInt64(x) => {
            lemma_le_bytes_len(x as nat, 8);
            lemma_le_bytes_val(x as nat, 8);
        },
        ValueView::Float32(b) => {
            lemma_le_bytes_len(b as nat, 4);
            lemma_le_bytes_val(b as nat, 4);
        },
        ValueView::Float64(b) => {
            lemma_le_bytes_len(b as nat, 8);
            lemma_le_bytes_val(b as nat, 8);
        },
        ValueView::Bool(_) => {
        },
        ValueView::Str(_) => {
        },
    }
}

} // verus!
