use vstd::prelude::*;
use crate::error::LqError;
use crate::ine_range::U32IneRange;
use crate::metadata::{Meta, MetadataSetter, WithMetadata};
use crate::schema_core::TypeRef;

verus! {

/// A sequence contains 0-n elements of the same type.
#[derive(Clone, Debug, PartialEq, Eq, Hash)]
pub struct TSeq {
    pub meta: Meta,
    pub element: TypeRef,
    pub length: U32IneRange,
    pub ordering: SeqOrdering,
    /// Length must be a multiple of this value. Value must be >= 2.
    pub multiple_of: Option<u32>,
}

/// The required ordering of the elements in a sequence.
#[derive(Clone, Copy, Debug, PartialEq, Eq, Hash, Structural)]
pub enum SeqOrdering {
    Unordered,
    Sorted(Sorted),
}

/// Sort direction.
#[derive(Clone, Copy, Debug, PartialEq, Eq, Hash, Structural)]
pub enum Direction {
    Ascending,
    Descending,
}

/// A required sorting; `unique` forbids equal neighbours (duplicates).
#[derive(Clone, Copy, Debug, PartialEq, Eq, Hash, Structural)]
pub struct Sorted {
    pub direction: Direction,
    pub unique: bool,
}

impl TSeq {
    /// A sequence with the given element type, length range and ordering; no `multiple_of`.
    pub fn new(element: TypeRef, length: U32IneRange, ordering: SeqOrdering) -> (r: TSeq)
        ensures
            r.element == element,
            r.length == length,
            r.ordering == ordering,
            r.multiple_of is None,
            r.meta.doc is None,
            r.meta.implements is None,
    {
        TSeq { meta: Meta::empty(), element, length, ordering, multiple_of: None }
    }

    /// An unordered sequence of `min_len` to `max_len` elements (both inclusive).
    pub fn try_new(element: TypeRef, min_len: u32, max_len: u32) -> (r: Result<TSeq, LqError>)
        ensures
            min_len <= max_len ==> (r matches Ok(t) && t.element == element
                && t.length.spec_start() == min_len && t.length.spec_end() == max_len
                && t.ordering == SeqOrdering::Unordered && t.multiple_of is None && t.meta.doc is None
                && t.meta.implements is None),
            min_len > max_len ==> r == Err::<TSeq, LqError>(LqError::InvalidRange),
    {
        match U32IneRange::try_new(min_len, max_len) {
            Ok(length) => Ok(TSeq::new(element, length, SeqOrdering::Unordered)),
            Err(e) => Err(e),
        }
    }

    pub fn element(&self) -> (r: TypeRef)
        ensures
            r == self.element,
    {
        self.element
    }

    pub fn length(&self) -> (r: &U32IneRange)
        ensures
            *r == self.length,
    {
        &self.length
    }

    pub fn ordering(&self) -> (r: &SeqOrdering)
        ensures
            *r == self.ordering,
    {
        &self.ordering
    }

    pub fn multiple_of(&self) -> (r: Option<u32>)
        ensures
            r == self.multiple_of,
    {
        self.multiple_of
    }

    /// The embedded type references: the element type.
    pub open spec fn spec_refs(&self) -> Seq<TypeRef> {
        seq![self.element]
    }

    /// The embedded reference at `index` (`None` past the last one).
    pub fn reference(&self, index: usize) -> (r: Option<TypeRef>)
        ensures
            index < self.spec_refs().len() ==> r == Some(self.spec_refs()[index as int]),
            index >= self.spec_refs().len() ==> r is None,
    {
        if index == 0 {
            Some(self.element)
        } else {
            None
        }
    }

    /// Replaces the embedded reference at `index`.
    pub fn set_reference(&mut self, index: usize, type_ref: TypeRef) -> (r: Result<(), LqError>)
        ensures
            final(self).meta == old(self).meta,
            final(self).spec_meta() == old(self).spec_meta(),
            final(self).length == old(self).length,
            final(self).ordering == old(self).ordering,
            final(self).multiple_of == old(self).multiple_of,
            index < old(self).spec_refs().len() ==> (r is Ok && final(self).spec_refs()
                == old(self).spec_refs().update(index as int, type_ref)),
            index >= old(self).spec_refs().len() ==> (r == Err::<(), LqError>(
                LqError::NoSuchReference,
            ) && *final(self) == *old(self)),
    {
        if index == 0 {
            self.element = type_ref;
            assert(self.spec_refs() =~= old(self).spec_refs().update(0, type_ref));
            Ok(())
        } else {
            Err(LqError::NoSuchReference)
        }
    }
}

impl WithMetadata for TSeq {
    open spec fn spec_meta(&self) -> Meta {
        self.meta
    }

    closed spec fn spec_with_meta(self, meta: Meta) -> Self {
        TSeq { meta, ..self }
    }

    fn meta(&self) -> (r: &Meta) {
        &self.meta
    }

    proof fn lemma_meta_lens(self, m1: Meta, m2: Meta) {
    }
}

impl MetadataSetter for TSeq {
    fn set_meta(&mut self, meta: Meta) {
        self.meta = meta;
    }

    fn with_meta(self, meta: Meta) -> (r: Self) {
        let mut result = self;
        result.meta = meta;
        result
    }

    fn with_doc(self, doc: String) -> (r: Self) {
        let mut result = self;
        result.meta = Meta { doc: Some(doc), implements: result.meta.implements };
        result
    }
}

} // verus!
