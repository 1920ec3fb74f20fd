use vstd::prelude::*;
use crate::error::LqError;
use crate::metadata::{Meta, MetadataSetter, WithMetadata};
use crate::schema_core::TypeRef;

verus! {

/// A range. Constraints: start <= end (if allow_equal) or start < end (if !allow_equal).
#[derive(Clone, Debug, PartialEq, Eq, Hash)]
pub struct TRange {
    pub meta: Meta,
    /// The element in the range.
    pub element: TypeRef,
    pub inclusion: Inclusion,
    /// If this is true, we allow `start` == `end`.
    pub allow_equal: bool,
}

/// Whether start and end of a range are included.
#[derive(Clone, Copy, Debug, PartialEq, Eq, Hash, Structural)]
pub enum Inclusion {
    BothInclusive,
    StartInclusive,
    BothExclusive,
    EndInclusive,
    /// Exclusion / inclusion is provided in the data.
    Supplied,
}

impl TRange {
    pub fn new(element: TypeRef, inclusion: Inclusion, allow_equal: bool) -> (r: TRange)
        ensures
            r.element == element,
            r.inclusion == inclusion,
            r.allow_equal == allow_equal,
            r.meta.doc is None,
            r.meta.implements is None,
    {
        TRange { meta: Meta::empty(), element, inclusion, allow_equal }
    }

    pub fn inclusion(&self) -> (r: Inclusion)
        ensures
            r == self.inclusion,
    {
        self.inclusion
    }

    pub fn element(&self) -> (r: TypeRef)
        ensures
            r == self.element,
    {
        self.element
    }

    pub fn allow_equal(&self) -> (r: bool)
        ensures
            r == self.allow_equal,
    {
        self.allow_equal
    }

    /// The embedded type references: the element type.
    pub open spec fn spec_refs(&self) -> Seq<TypeRef> {
        seq![self.element]
    }

    /// The embedded reference at `index` (`None` past the last one).
    pub fn reference(&self, index: usize) -> (r: Option<TypeRef>)
        ensures
            index < self.spec_refs().len() ==> r == Some(self.spec_refs()[index as int]),
            index >= self.spec_refs().len() ==> r is None,
    {
        if index == 0 {
            Some(self.element)
        } else {
            None
        }
    }

    /// Replaces the embedded reference at `index`.
    pub fn set_reference(&mut self, index: usize, type_ref: TypeRef) -> (r: Result<(), LqError>)
        ensures
            final(self).meta == old(self).meta,
            final(self).spec_meta() == old(self).spec_meta(),
            final(self).inclusion == old(self).inclusion,
            final(self).allow_equal == old(self).allow_equal,
            index < old(self).spec_refs().len() ==> (r is Ok && final(self).spec_refs()
                == old(self).spec_refs().update(index as int, type_ref)),
            index >= old(self).spec_refs().len() ==> (r == Err::<(), LqError>(
                LqError::NoSuchReference,
            ) && *final(self) == *old(self)),
    {
        if index == 0 {
            self.element = type_ref;
            assert(self.spec_refs() =~= old(self).spec_refs().update(0, type_ref));
            Ok(())
        } else {
            Err(LqError::NoSuchReference)
        }
    }
}

impl Inclusion {
    /// The inclusion with the given ordinal (`0` both inclusive ... `4` supplied).
    pub fn try_from(ordinal: u8) -> (r: Option<Inclusion>)
        ensures
            ordinal == 0 ==> r == Some(Inclusion::BothInclusive),
            ordinal == 1 ==> r == Some(Inclusion::StartInclusive),
            ordinal == 2 ==> r == Some(Inclusion::BothExclusive),
            ordinal == 3 ==> r == Some(Inclusion::EndInclusive),
            ordinal == 4 ==> r == Some(Inclusion::Supplied),
            ordinal > 4 ==> r is None,
    {
        match ordinal {
            0 => Some(Inclusion::BothInclusive),
            1 => Some(Inclusion::StartInclusive),
            2 => Some(Inclusion::BothExclusive),
            3 => Some(Inclusion::EndInclusive),
            4 => Some(Inclusion::Supplied),
            _ => None,
        }
    }
}

impl WithMetadata for TRange {
    open spec fn spec_meta(&self) -> Meta {
        self.meta
    }

    closed spec fn spec_with_meta(self, meta: Meta) -> Self {
        TRange { meta, ..self }
    }

    fn meta(&self) -> (r: &Meta) {
        &self.meta
    }

    proof fn lemma_meta_lens(self, m1: Meta, m2: Meta) {
    }
}

impl MetadataSetter for TRange {
    fn set_meta(&mut self, meta: Meta) {
        self.meta = meta;
    }

    fn with_meta(self, meta: Meta) -> (r: Self) {
        let mut result = self;
        result.meta = meta;
        result
    }

    fn with_doc(self, doc: String) -> (r: Self) {
        let mut result = self;
        result.meta = Meta { doc: Some(doc), implements: result.meta.implements };
        result
    }
}

} // verus!
