//! The typed container: a growable object that stores tagged scalar values
//! in serialized form under string keys, with statically typed set/get
//! entry points on top of the dynamically tagged store.
//!
//! The container's view is a map from key byte strings to [`ValueView`]s.
//! Internally every value is kept as its wire pair — a type tag and a byte
//! payload — so each `set` runs the encode direction of the codec and each
//! `get` runs the decode direction; the container's invariant is that every
//! stored pair decodes.

use vstd::prelude::*;

use crate::codec::{
    contains_nul, decode_value, encode_value, lemma_decode_encode, nul_free, spec_decode,
    valid_key, valid_value,
};
use crate::scalar::BinnScalar;
use crate::value::{BinnValue, ValueView};

verus! {

/// One stored binding: a key and the wire pair of its value.
#[derive(Debug)]
struct Entry {
    key: Vec<u8>,
    tag: u32,
    payload: Vec<u8>,
}

spec fn entry_value(e: Entry) -> ValueView {
    spec_decode(e.tag, e.payload@).unwrap()
}

spec fn entry_wf(e: Entry) -> bool {
    valid_key(e.key@) && spec_decode(e.tag, e.payload@) is Some
}

spec fn entries_wf(s: Seq<Entry>) -> bool {
    (forall|i: int| 0 <= i < s.len() ==> entry_wf(#[trigger] s[i])) && (forall|i: int, j: int|
        0 <= i < j < s.len() ==> (#[trigger] s[i].key@) != (#[trigger] s[j].key@))
}

spec fn entries_map(s: Seq<Entry>) -> Map<Seq<u8>, ValueView>
    decreases s.len(),
{
    if s.len() == 0 {
        Map::empty()
    } else {
        entries_map(s.drop_last()).insert(s.last().key@, entry_value(s.last()))
    }
}

proof fn lemma_map_contains_index(s: Seq<Entry>, i: int)
    requires
        0 <= i < s.len(),
    ensures
        entries_map(s).dom().contains(s[i].key@),
    decreases s.len(),
{
    if i < s.len() - 1 {
        lemma_map_contains_index(s.drop_last(), i);
        assert(s.drop_last()[i] == s[i]);
    }
}

proof fn lemma_map_key_has_index(s: Seq<Entry>, k: Seq<u8>)
    requires
        entries_map(s).dom().contains(k),
    ensures
        exists|i: int| 0 <= i < s.len() && (#[trigger] s[i].key@) == k,
    decreases s.len(),
{
    if s.len() > 0 {
        if s.last().key@ == k {
            assert(s[s.len() - 1].key@ == k);
        } else {
            lemma_map_key_has_index(s.drop_last(), k);
            let i = choose|i: int| 0 <= i < s.drop_last().len() && (#[trigger] s.drop_last()[i].key@) == k;
            assert(s[i] == s.drop_last()[i]);
        }
    }
}

proof fn lemma_map_index(s: Seq<Entry>, i: int)
    requires
        entries_wf(s),
        0 <= i < s.len(),
    ensures
        entries_map(s).dom().contains(s[i].key@),
        entries_map(s)[s[i].key@] == entry_value(s[i]),
    decreases s.len(),
{
    lemma_map_contains_index(s, i);
    if i < s.len() - 1 {
        assert(entries_wf(s.drop_last())) by {
            assert(forall|j: int| 0 <= j < s.drop_last().len() ==> s.drop_last()[j] == s[j]);
        };
        lemma_map_index(s.drop_last(), i);
        assert(s.drop_last()[i] == s[i]);
        assert(s[i].key@ != s.last().key@);
    }
}

proof fn lemma_map_push(s: Seq<Entry>, e: Entry)
    ensures
        entries_map(s.push(e)) == entries_map(s).insert(e.key@, entry_value(e)),
{
    assert(s.push(e).drop_last() =~= s);
    assert(s.push(e).last() == e);
}

proof fn lemma_map_update(s: Seq<Entry>, i: int, e: Entry)
    requires
        entries_wf(s),
        0 <= i < s.len(),
        e.key@ == s[i].key@,
    ensures
        entries_map(s.update(i, e)) == entries_map(s).insert(e.key@, entry_value(e)),
    decreases s.len(),
{
    let u = s.update(i, e);
    if i == s.len() - 1 {
        assert(u.drop_last() =~= s.drop_last());
        assert(u.last() == e);
        assert(entries_map(s).insert(e.key@, entry_value(e)) =~= entries_map(s.drop_last()).insert(
            e.key@,
            entry_value(e),
        ));
    } else {
        assert(entries_wf(s.drop_last())) by {
            assert(forall|j: int| 0 <= j < s.drop_last().len() ==> s.drop_last()[j] == s[j]);
        };
        assert(s.drop_last()[i] == s[i]);
        lemma_map_update(s.drop_last(), i, e);
        assert(u.drop_last() =~= s.drop_last().update(i, e));
        assert(u.last() == s.last());
        assert(e.key@ != s.last().key@);
        assert(entries_map(s.drop_last()).insert(e.key@, entry_value(e)).insert(
            s.last().key@,
            entry_value(s.last()),
        ) =~= entries_map(s).insert(e.key@, entry_value(e)));
    }
}

/// Whether a byte string can serve as a key.
fn key_is_valid(key: &[u8]) -> (r: bool)
    ensures
        r == valid_key(key@),
{
    if key.len() == 0 {
        return false;
    }
    let has = contains_nul(key);
    proof {
        if has {
            let i = choose|i: int| 0 <= i < key@.len() && key@[i] == 0;
            assert(!nul_free(key@));
        }
    }
    !has
}

/// Whether a tagged value is well formed.
fn value_is_valid(v: &BinnValue) -> (r: bool)
    ensures
        r == valid_value(v@),
{
    match v {
        BinnValue::Str(s) => {
            let has = contains_nul(s.as_slice());
            proof {
                if has {
                    assert(v@ == ValueView::Str(s@));
                    let i = choose|i: int| 0 <= i < s@.len() && s@[i] == 0;
                    assert(!nul_free(s@));
                }
            }
            !has
        },
        _ => true,
    }
}

/// Compares two byte strings by contents.
fn bytes_eq(a: &[u8], b: &[u8]) -> (r: bool)
    ensures
        r == (a@ == b@),
{
    let n: usize = a.len();
    if n != b.len() {
        return false;
    }
    let mut i: usize = 0;
    while i < n
        invariant
            i <= n,
            n == a@.len(),
            n == b@.len(),
            forall|j: int| 0 <= j < i ==> a@[j] == b@[j],
        decreases n - i,
    {
        if a[i] != b[i] {
            return false;
        }
        i = i + 1;
    }
    proof {
        assert(a@ =~= b@);
    }
    true
}

/// The typed container.  It owns its whole store exclusively; it is
/// created empty, every mutation goes through [`BinnObject::set`], and its
/// storage is released when it is dropped.
#[derive(Debug)]
pub struct BinnObject {
    entries: Vec<Entry>,
}

impl View for BinnObject {
    type V = Map<Seq<u8>, ValueView>;

    closed spec fn view(&self) -> Map<Seq<u8>, ValueView> {
        entries_map(self.entries@)
    }
}

impl BinnObject {
    /// The container's invariant: keys are distinct and well formed, and
    /// every stored wire pair decodes to a value.
    pub closed spec fn wf(&self) -> bool {
        entries_wf(self.entries@)
    }

    /// Creates an empty container.
    pub fn new() -> (r: Self)
        ensures
            r.wf(),
            r@ == Map::<Seq<u8>, ValueView>::empty(),
    {
        let r = BinnObject { entries: Vec::new() };
        proof {
            assert(r@ =~= Map::<Seq<u8>, ValueView>::empty());
        }
        r
    }

    fn find_index(&self, key: &[u8]) -> (r: Option<usize>)
        ensures
            match r {
                Some(i) => i < self.entries@.len() && self.entries@[i as int].key@ == key@,
                None => forall|i: int|
                    0 <= i < self.entries@.len() ==> (#[trigger] self.entries@[i].key@) != key@,
            },
    {
        let n: usize = self.entries.len();
        let mut i: usize = 0;
        while i < n
            invariant
                i <= n,
                n == self.entries@.len(),
                forall|j: int| 0 <= j < i ==> (#[trigger] self.entries@[j].key@) != key@,
            decreases n - i,
        {
            let e = &self.entries[i];
            if bytes_eq(e.key.as_slice(), key) {
                return Some(i);
            }
            i = i + 1;
        }
        None
    }

    /// Stores a wire pair under a key: the engine-level keyed write.
    fn set_object(&mut self, key: &[u8], tag: u32, payload: Vec<u8>)
        requires
            old(self).wf(),
            valid_key(key@),
            spec_decode(tag, payload@) is Some,
        ensures
            final(self).wf(),
            final(self)@ == old(self)@.insert(key@, spec_decode(tag, payload@).unwrap()),
    {
        let key_vec: Vec<u8> = vstd::slice::slice_to_vec(key);
        let entry = Entry { key: key_vec, tag, payload };
        let ghost olds = self.entries@;
        match self.find_index(key) {
            Some(i) => {
                self.entries[i] = entry;
                proof {
                    let e = self.entries@[i as int];
                    assert(self.entries@ =~= olds.update(i as int, e));
                    lemma_map_update(olds, i as int, e);
                    assert(entries_wf(self.entries@)) by {
                        assert(forall|j: int|
                            0 <= j < olds.len() && j != i ==> self.entries@[j] == olds[j]);
                    };
                }
            },
            None => {
                self.entries.push(entry);
                proof {
                    let e = self.entries@.last();
                    assert(self.entries@ =~= olds.push(e));
                    lemma_map_push(olds, e);
                    assert(entries_wf(self.entries@)) by {
                        assert(forall|j: int| 0 <= j < olds.len() ==> self.entries@[j] == olds[j]);
                    };
                }
            },
        }
    }

    /// Stores a host value under a key.
    ///
    /// The key must be non-empty, NUL-free text and a text value must be
    /// NUL-free; a write that breaks either rule leaves the container
    /// unchanged, as the underlying format could not represent it.
    /// Otherwise the binding for the key — new or overwritten — is the
    /// boxed value.
    pub fn set<T: BinnScalar>(&mut self, key: &[u8], value: T)
        requires
            old(self).wf(),
        ensures
            final(self).wf(),
            final(self)@ == (if valid_key(key@) && valid_value(value.value_view()) {
                old(self)@.insert(key@, value.value_view())
            } else {
                old(self)@
            }),
    {
        let bv = value.into_value();
        let ghost vv = bv@;
        let key_ok = key_is_valid(key);
        let value_ok = value_is_valid(&bv);
        if !key_ok || !value_ok {
            return ;
        }
        proof {
            lemma_decode_encode(vv);
        }
        let (tag, payload) = encode_value(bv);
        self.set_object(key, tag, payload);
    }

    /// Reads the tagged value stored under a key, or nothing when the key
    /// is absent.
    pub fn get(&self, key: &[u8]) -> (r: Option<BinnValue>)
        requires
            self.wf(),
        ensures
            match r {
                Some(v) => self@.dom().contains(key@) && v@ == self@[key@],
                None => !self@.dom().contains(key@),
            },
    {
        match self.find_index(key) {
            Some(i) => {
                proof {
                    lemma_map_index(self.entries@, i as int);
                }
                let e = &self.entries[i];
                decode_value(e.tag, e.payload.as_slice())
            },
            None => {
                proof {
                    if self@.dom().contains(key@) {
                        lemma_map_key_has_index(self.entries@, key@);
                    }
                }
                None
            },
        }
    }

    /// Reads the value stored under a key and narrows it to the requested
    /// static type.  Yields nothing when the key is absent or the stored
    /// variant does not match the type: at this entry point the two are
    /// observably indistinguishable, by design; a caller who needs to tell
    /// them apart can [`BinnObject::get`] the tagged value and narrow it
    /// itself.
    pub fn get_as<T: BinnScalar>(&self, key: &[u8]) -> (r: Option<T>)
        requires
            self.wf(),
        ensures
            match r {
                Some(x) => self@.dom().contains(key@) && T::narrowed(self@[key@]) == Some(x@),
                None => !self@.dom().contains(key@) || T::narrowed(self@[key@]) is None,
            },
    {
        match self.get(key) {
            Some(v) => match T::try_from_value(v) {
                Ok(x) => Some(x),
                Err(_) => None,
            },
            None => None,
        }
    }
}

impl Default for BinnObject {
    /// Same as [`BinnObject::new`].
    fn default() -> (r: Self)
        ensures
            r.wf(),
            r@ == Map::<Seq<u8>, ValueView>::empty(),
    {
        BinnObject::new()
    }
}

} // verus!
