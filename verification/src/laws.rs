//! The container's laws, stated over its mathematical view — the map from
//! key byte strings to tagged values — and over the typed dispatch table.
//!
//! Together with the contracts of [`crate::object::BinnObject`] these
//! connect a sequence of typed calls to what each later read yields.

use vstd::prelude::*;

use crate::codec::spec_tag_of;
use crate::scalar::BinnScalar;
use crate::value::ValueView;

verus! {

/// Round trip: after a value of a supported scalar type is stored under a
/// key, reading that key back at the same type yields exactly the stored
/// value.
pub proof fn lemma_set_then_get<T: BinnScalar>(m: Map<Seq<u8>, ValueView>, k: Seq<u8>, x: T)
    ensures
        m.insert(k, x.value_view()).dom().contains(k),
        T::narrowed(m.insert(k, x.value_view())[k]) == Some(x@),
{
    T::lemma_narrow_roundtrip(x);
}

/// Absence: a freshly constructed container holds nothing, so reading any
/// key of it, at any type, yields nothing.
pub proof fn lemma_get_absent(k: Seq<u8>)
    ensures
        !Map::<Seq<u8>, ValueView>::empty().dom().contains(k),
{
}

/// Type mismatch: narrowing a tagged value to a type whose wire tag
/// differs from the value's own yields nothing.
pub proof fn lemma_narrow_wrong_type<T: BinnScalar>(v: ValueView)
    requires
        spec_tag_of(v) != T::wire_tag(),
    ensures
        T::narrowed(v) is None,
{
    T::lemma_narrow_iff_tag(v);
}

/// Type mismatch after a store: a value stored at one scalar type reads
/// back as nothing at every scalar type with a different wire tag.
pub proof fn lemma_set_then_get_wrong_type<T: BinnScalar, U: BinnScalar>(
    m: Map<Seq<u8>, ValueView>,
    k: Seq<u8>,
    x: T,
)
    requires
        T::wire_tag() != U::wire_tag(),
    ensures
        U::narrowed(m.insert(k, x.value_view())[k]) is None,
{
    T::lemma_narrow_roundtrip(x);
    T::lemma_narrow_iff_tag(x.value_view());
    U::lemma_narrow_iff_tag(x.value_view());
}

/// Overwrite: storing twice under one key leaves exactly the second value,
/// as if the first store had never happened.
pub proof fn lemma_overwrite(m: Map<Seq<u8>, ValueView>, k: Seq<u8>, v1: ValueView, v2: ValueView)
    ensures
        m.insert(k, v1).insert(k, v2) == m.insert(k, v2),
{
    assert(m.insert(k, v1).insert(k, v2) =~= m.insert(k, v2));
}

/// Multi-key independence: a store under one key neither adds, removes nor
/// changes the binding of any other key.
pub proof fn lemma_other_key_unchanged(
    m: Map<Seq<u8>, ValueView>,
    ka: Seq<u8>,
    kb: Seq<u8>,
    v: ValueView,
)
    requires
        ka != kb,
    ensures
        m.insert(ka, v).dom().contains(kb) == m.dom().contains(kb),
        m.dom().contains(kb) ==> m.insert(ka, v)[kb] == m[kb],
{
}

} // verus!
