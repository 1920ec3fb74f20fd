use vstd::prelude::*;
use crate::error::LqError;
use crate::ine_range::U32IneRange;
use crate::metadata::{Meta, MetadataSetter, WithMetadata};
use crate::schema_core::TypeRef;

verus! {

/// A map. Keys have to be unique. Has to be sorted by keys. The keys can optionally be
/// referenced to create recursive data structures.
///
/// Technical details: Internally a map looks like this:
/// `[[key1, value1], [key2, value2], ...]`.
#[derive(Clone, Debug, PartialEq, Eq, Hash)]
pub struct TMap {
    meta: Meta,
    key: TypeRef,
    value: TypeRef,
    length: U32IneRange,
    sorting: Sorting,
    anchors: bool,
}

/// Sort order of the keys of a map.
#[derive(Clone, Copy, Debug, PartialEq, Eq, Hash, Structural)]
pub enum Sorting {
    Ascending,
    Descending,
}

impl TMap {
    pub closed spec fn spec_key(&self) -> TypeRef {
        self.key
    }

    pub closed spec fn spec_value(&self) -> TypeRef {
        self.value
    }

    pub closed spec fn spec_length(&self) -> U32IneRange {
        self.length
    }

    pub closed spec fn spec_sorting(&self) -> Sorting {
        self.sorting
    }

    pub closed spec fn spec_anchors(&self) -> bool {
        self.anchors
    }

    /// A new map; any length; sorting: ascending; no anchors.
    pub fn new(key: TypeRef, value: TypeRef) -> (r: TMap)
        ensures
            r.spec_key() == key,
            r.spec_value() == value,
            r.spec_length().spec_start() == 0,
            r.spec_length().spec_end() == u32::MAX,
            r.spec_sorting() == Sorting::Ascending,
            !r.spec_anchors(),
            r.spec_meta().doc is None,
            r.spec_meta().implements is None,
    {
        TMap {
            meta: Meta::empty(),
            key,
            value,
            length: U32IneRange::full(),
            sorting: Sorting::Ascending,
            anchors: false,
        }
    }

    /// This map, with keys that can (or cannot) be referenced by key refs.
    pub fn with_anchors(self, anchors: bool) -> (r: TMap)
        ensures
            r.spec_anchors() == anchors,
            r.spec_key() == self.spec_key(),
            r.spec_value() == self.spec_value(),
            r.spec_length() == self.spec_length(),
            r.spec_sorting() == self.spec_sorting(),
            r.spec_meta() == self.spec_meta(),
    {
        let mut result = self;
        result.anchors = anchors;
        result
    }

    /// This map with the given length constraints.
    pub fn with_length(self, length: U32IneRange) -> (r: TMap)
        ensures
            r.spec_length() == length,
            r.spec_key() == self.spec_key(),
            r.spec_value() == self.spec_value(),
            r.spec_sorting() == self.spec_sorting(),
            r.spec_anchors() == self.spec_anchors(),
            r.spec_meta() == self.spec_meta(),
    {
        let mut result = self;
        result.length = length;
        result
    }

    /// The type of keys in this map.
    pub fn key(&self) -> (r: &TypeRef)
        ensures
            *r == self.spec_key(),
    {
        &self.key
    }

    /// The type of values in this map.
    pub fn value(&self) -> (r: &TypeRef)
        ensures
            *r == self.spec_value(),
    {
        &self.value
    }

    /// Length constraints for the number of entries in this map.
    pub fn length(&self) -> (r: &U32IneRange)
        ensures
            *r == self.spec_length(),
    {
        &self.length
    }

    /// Sorting of keys in this map. Keys always have to be sorted in a map, either ascending
    /// (default) or descending.
    pub fn sorting(&self) -> (r: Sorting)
        ensures
            r == self.spec_sorting(),
    {
        self.sorting
    }

    /// If this is true, the keys in this map can be referenced using key ref.
    pub fn anchors(&self) -> (r: bool)
        ensures
            r == self.spec_anchors(),
    {
        self.anchors
    }

    /// The embedded type references: key, then value.
    pub open spec fn spec_refs(&self) -> Seq<TypeRef> {
        seq![self.spec_key(), self.spec_value()]
    }

    /// The embedded reference at `index` (`None` past the last one).
    pub fn reference(&self, index: usize) -> (r: Option<TypeRef>)
        ensures
            index < self.spec_refs().len() ==> r == Some(self.spec_refs()[index as int]),
            index >= self.spec_refs().len() ==> r is None,
    {
        match index {
            0 => Some(self.key),
            1 => Some(self.value),
            _ => None,
        }
    }

    /// Replaces the embedded reference at `index`.
    pub fn set_reference(&mut self, index: usize, type_ref: TypeRef) -> (r: Result<(), LqError>)
        ensures
            final(self).spec_meta() == old(self).spec_meta(),
            final(self).spec_length() == old(self).spec_length(),
            final(self).spec_sorting() == old(self).spec_sorting(),
            final(self).spec_anchors() == old(self).spec_anchors(),
            index < old(self).spec_refs().len() ==> (r is Ok && final(self).spec_refs()
                == old(self).spec_refs().update(index as int, type_ref)),
            index >= old(self).spec_refs().len() ==> (r == Err::<(), LqError>(
                LqError::NoSuchReference,
            ) && *final(self) == *old(self)),
    {
        match index {
            0 => {
                self.key = type_ref;
                assert(self.spec_refs() =~= old(self).spec_refs().update(0, type_ref));
                Ok(())
            },
            1 => {
                self.value = type_ref;
                assert(self.spec_refs() =~= old(self).spec_refs().update(1, type_ref));
                Ok(())
            },
            _ => Err(LqError::NoSuchReference),
        }
    }
}

impl WithMetadata for TMap {
    closed spec fn spec_meta(&self) -> Meta {
        self.meta
    }

    closed spec fn spec_with_meta(self, meta: Meta) -> Self {
        TMap { meta, ..self }
    }

    fn meta(&self) -> (r: &Meta) {
        &self.meta
    }

    proof fn lemma_meta_lens(self, m1: Meta, m2: Meta) {
    }
}

impl MetadataSetter for TMap {
    fn set_meta(&mut self, meta: Meta) {
        self.meta = meta;
    }

    fn with_meta(self, meta: Meta) -> (r: Self) {
        let mut result = self;
        result.meta = meta;
        result
    }

    fn with_doc(self, doc: String) -> (r: Self) {
        let mut result = self;
        result.meta = Meta { doc: Some(doc), implements: result.meta.implements };
        result
    }
}

} // verus!
