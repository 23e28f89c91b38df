//! A map that uses a closed enumeration as its keys, backed by a dense
//! array indexed by the enumeration's stable ordinal and built by a total
//! initializer function. The per-kind texture cache of the rendering
//! collaborator is the consumer of this shape.

use vstd::prelude::*;

verus! {

/// A closed enumeration usable as a dense map key: a stable total ordinal
/// mapping onto `0 .. size_spec()`.
pub trait EnumKey: Sized + Copy {
    /// How many variants the enumeration has.
    spec fn size_spec() -> int;

    /// The stable ordinal of a variant.
    spec fn index_of(self) -> int;

    /// Every ordinal lies in range.
    proof fn lemma_index_bounds(self)
        ensures
            0 <= self.index_of() < Self::size_spec(),
    ;

    /// Distinct variants have distinct ordinals.
    proof fn lemma_index_injective(a: Self, b: Self)
        requires
            a.index_of() == b.index_of(),
        ensures
            a == b,
    ;

    /// The number of variants.
    fn length() -> (n: usize)
        ensures
            n == Self::size_spec(),
    ;

    /// Converts an enum variant to an integer index.
    fn into_usize(variant: Self) -> (r: usize)
        ensures
            r == variant.index_of(),
    ;

    /// Converts an integer index to an enum variant.
    fn from_usize(index: usize) -> (r: Self)
        requires
            0 <= index < Self::size_spec(),
        ensures
            r.index_of() == index,
    ;
}

/// A map over a closed enumeration: stack-friendly, dense, total.
pub struct EnumMap<E: EnumKey, T> {
    data: Vec<T>,
    key: core::marker::PhantomData<E>,
}

impl<E: EnumKey, T> EnumMap<E, T> {
    /// The backing array holds one slot per variant.
    pub closed spec fn wf(&self) -> bool {
        self.data@.len() == E::size_spec()
    }

    /// The value stored under key `k`.
    pub closed spec fn map_at(&self, k: E) -> T {
        self.data@[k.index_of()]
    }

    /// Creates a new map using an initializer function, called once per
    /// variant.
    pub fn new<F: Fn(E) -> T>(init: F) -> (r: EnumMap<E, T>)
        requires
            forall|k: E| #[trigger] init.requires((k,)),
        ensures
            r.wf(),
            forall|k: E| init.ensures((k,), #[trigger] r.map_at(k)),
    {
        let n = E::length();
        let mut data: Vec<T> = Vec::new();
        let mut i: usize = 0;
        while i < n
            invariant
                n == E::size_spec(),
                i <= n,
                data@.len() == i,
                forall|k: E| 0 <= #[trigger] k.index_of() < i ==>
                    init.ensures((k,), data@[k.index_of()]),
                forall|k: E| #[trigger] init.requires((k,)),
            decreases n - i,
        {
            let key = E::from_usize(i);
            let value = init(key);
            data.push(value);
            proof {
                assert forall|k: E| 0 <= #[trigger] k.index_of() < i + 1 implies
                    init.ensures((k,), data@[k.index_of()]) by {
                    if k.index_of() == i {
                        E::lemma_index_injective(k, key);
                    }
                }
            }
            i += 1;
        }
        let r = EnumMap { data, key: core::marker::PhantomData };
        proof {
            assert forall|k: E| init.ensures((k,), #[trigger] r.map_at(k)) by {
                k.lemma_index_bounds();
            }
        }
        r
    }

    /// Reads the value under a key.
    pub fn get(&self, key: E) -> (r: &T)
        requires
            self.wf(),
        ensures
            *r == self.map_at(key),
    {
        proof {
            key.lemma_index_bounds();
        }
        &self.data[E::into_usize(key)]
    }

    /// Borrows the value under a key as mutable.
    pub fn get_mut(&mut self, key: E) -> (r: &mut T)
        requires
            old(self).wf(),
        ensures
            *r == old(self).map_at(key),
            final(self).wf(),
            final(self).map_at(key) == *final(r),
            forall|k: E| k.index_of() != key.index_of() ==>
                #[trigger] final(self).map_at(k) == old(self).map_at(k),
    {
        proof {
            key.lemma_index_bounds();
            assert forall|k: E| 0 <= #[trigger] k.index_of() < E::size_spec() by {
                k.lemma_index_bounds();
            }
        }
        let idx = E::into_usize(key);
        &mut self.data[idx]
    }

    /// Writes the value under a key.
    pub fn set(&mut self, key: E, value: T)
        requires
            old(self).wf(),
        ensures
            final(self).wf(),
            final(self).map_at(key) == value,
            forall|k: E| k.index_of() != key.index_of() ==>
                #[trigger] final(self).map_at(k) == old(self).map_at(k),
    {
        let r = self.get_mut(key);
        *r = value;
    }

    /// Creates a new iterator over the entries.
    pub fn iter<'a>(&'a self) -> (r: Iter<'a, E, T>)
        requires
            self.wf(),
        ensures
            r.map == self,
            r.index == 0,
    {
        Iter::new(self)
    }
}

impl<E: EnumKey, T> EnumMap<E, Option<T>> {
    /// Creates a new map with every slot holding `None`.
    pub fn new_empty() -> (r: EnumMap<E, Option<T>>)
        ensures
            r.wf(),
            forall|k: E| (#[trigger] r.map_at(k)) is None,
    {
        let n = E::length();
        let mut data: Vec<Option<T>> = Vec::new();
        let mut i: usize = 0;
        while i < n
            invariant
                n == E::size_spec(),
                i <= n,
                data@.len() == i,
                forall|j: int| 0 <= j < i ==> (#[trigger] data@[j]) is None,
            decreases n - i,
        {
            data.push(None);
            i += 1;
        }
        let r = EnumMap { data, key: core::marker::PhantomData };
        proof {
            assert forall|k: E| (#[trigger] r.map_at(k)) is None by {
                k.lemma_index_bounds();
            }
        }
        r
    }
}

/// An iterator over the entries of an [`EnumMap`], in ordinal order.
pub struct Iter<'a, E: EnumKey, T> {
    /// The map being walked.
    pub map: &'a EnumMap<E, T>,
    /// The ordinal of the next entry to hand out.
    pub index: usize,
}

impl<'a, E: EnumKey, T> Iter<'a, E, T> {
    /// Creates a new iterator over an [`EnumMap`]. Use [`EnumMap::iter`]
    /// instead.
    pub fn new(map: &'a EnumMap<E, T>) -> (r: Iter<'a, E, T>)
        requires
            map.wf(),
        ensures
            r.map == map,
            r.index == 0,
    {
        Iter { map, index: 0 }
    }

    /// The next entry: the key with the next ordinal and its value.
    pub fn next(&mut self) -> (r: Option<(E, &'a T)>)
        requires
            old(self).map.wf(),
        ensures
            final(self).map == old(self).map,
            old(self).index < E::size_spec() ==> {
                &&& final(self).index == old(self).index + 1
                &&& r matches Some((k, v)) && k.index_of() == old(self).index
                    && *v == old(self).map.map_at(k)
            },
            old(self).index >= E::size_spec() ==> r is None
                && final(self).index == old(self).index,
    {
        if self.index < E::length() {
            let key = E::from_usize(self.index);
            let value = self.map.get(key);
            self.index += 1;
            Some((key, value))
        } else {
            None
        }
    }
}

} // verus!
