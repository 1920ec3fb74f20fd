use vstd::prelude::*;
use crate::error::LqError;
use crate::schema_core::TypeRef;
use crate::metadata::{Meta, MetadataSetter, WithMetadata};

verus! {

/// Data of the option type have two variants: absent, or present and a value.
#[derive(Clone, Debug, PartialEq, Eq, Hash)]
pub struct TOption {
    meta: Meta,
    type_ref: TypeRef,
}

impl TOption {
    pub closed spec fn spec_type_ref(&self) -> TypeRef {
        self.type_ref
    }

    /// The type of the present value.
    pub fn type_ref(&self) -> (r: &TypeRef)
        ensures
            *r == self.spec_type_ref(),
    {
        &self.type_ref
    }

    /// Creates a new option type.
    pub fn new(type_ref: TypeRef) -> (r: TOption)
        ensures
            r.spec_type_ref() == type_ref,
            r.spec_meta().doc is None,
            r.spec_meta().implements is None,
    {
        TOption { meta: Meta::empty(), type_ref }
    }
}

impl TOption {
    /// The embedded type references: the present type.
    pub open spec fn spec_refs(&self) -> Seq<TypeRef> {
        seq![self.spec_type_ref()]
    }

    /// The embedded reference at `index` (`None` past the last one).
    pub fn reference(&self, index: usize) -> (r: Option<TypeRef>)
        ensures
            index < self.spec_refs().len() ==> r == Some(self.spec_refs()[index as int]),
            index >= self.spec_refs().len() ==> r is None,
    {
        if index == 0 {
            Some(self.type_ref)
        } else {
            None
        }
    }

    /// Replaces the embedded reference at `index`.
    pub fn set_reference(&mut self, index: usize, type_ref: TypeRef) -> (r: Result<(), LqError>)
        ensures
            final(self).spec_meta() == old(self).spec_meta(),
            index < old(self).spec_refs().len() ==> (r is Ok && final(self).spec_refs()
                == old(self).spec_refs().update(index as int, type_ref)),
            index >= old(self).spec_refs().len() ==> (r == Err::<(), LqError>(
                LqError::NoSuchReference,
            ) && *final(self) == *old(self)),
    {
        if index == 0 {
            self.type_ref = type_ref;
            assert(self.spec_refs() =~= old(self).spec_refs().update(0, type_ref));
            Ok(())
        } else {
            Err(LqError::NoSuchReference)
        }
    }
}

impl WithMetadata for TOption {
    closed spec fn spec_meta(&self) -> Meta {
        self.meta
    }

    closed spec fn spec_with_meta(self, meta: Meta) -> Self {
        TOption { meta, ..self }
    }

    fn meta(&self) -> (r: &Meta) {
        &self.meta
    }

    proof fn lemma_meta_lens(self, m1: Meta, m2: Meta) {
    }
}

impl MetadataSetter for TOption {
    fn set_meta(&mut self, meta: Meta) {
        self.meta = meta;
    }

    fn with_meta(self, meta: Meta) -> (r: Self) {
        let mut result = self;
        result.meta = meta;
        result
    }

    fn with_doc(self, doc: String) -> (r: Self) {
        let mut result = self;
        result.meta = Meta { doc: Some(doc), implements: result.meta.implements };
        result
    }
}

} // verus!
