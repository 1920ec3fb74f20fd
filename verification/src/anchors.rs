use vstd::prelude::*;
use crate::error::LqError;
use crate::metadata::{Meta, MetadataSetter, WithMetadata};
use crate::schema_core::TypeRef;

verus! {

/// A list containing 1-n anchors. Every anchor (except anchor 0, the master anchor) has to be
/// referenced (see `TReference`). To make sure data is canonical, anchors have to be
/// referenced sequentially.
#[derive(Clone, Debug, PartialEq, Eq, Hash)]
pub struct TAnchors {
    meta: Meta,
    master: TypeRef,
    anchor: TypeRef,
    max_anchors: Option<u32>,
}

impl TAnchors {
    pub closed spec fn spec_master(&self) -> TypeRef {
        self.master
    }

    pub closed spec fn spec_anchor(&self) -> TypeRef {
        self.anchor
    }

    pub closed spec fn spec_max_anchors(&self) -> Option<u32> {
        self.max_anchors
    }

    /// The master anchor type.
    pub fn master(&self) -> (r: TypeRef)
        ensures
            r == self.spec_master(),
    {
        self.master
    }

    /// The type of all other anchors.
    pub fn anchor(&self) -> (r: TypeRef)
        ensures
            r == self.spec_anchor(),
    {
        self.anchor
    }

    /// The maximum number of anchors allowed (inclusive). This does not include the master. So
    /// a value of 0 means that only a master is allowed but no anchor. If missing, there's no
    /// limit.
    pub fn max_anchors(&self) -> (r: Option<u32>)
        ensures
            r == self.spec_max_anchors(),
    {
        self.max_anchors
    }

    /// Anchors with the given master and anchor type; no limit on the number of anchors.
    pub fn new(master: TypeRef, anchor: TypeRef) -> (r: TAnchors)
        ensures
            r.spec_master() == master,
            r.spec_anchor() == anchor,
            r.spec_max_anchors() is None,
            r.spec_meta().doc is None,
            r.spec_meta().implements is None,
    {
        TAnchors { meta: Meta::empty(), master, anchor, max_anchors: None }
    }

    /// The embedded type references: master, then anchor.
    pub open spec fn spec_refs(&self) -> Seq<TypeRef> {
        seq![self.spec_master(), self.spec_anchor()]
    }

    /// The embedded reference at `index` (`None` past the last one).
    pub fn reference(&self, index: usize) -> (r: Option<TypeRef>)
        ensures
            index < self.spec_refs().len() ==> r == Some(self.spec_refs()[index as int]),
            index >= self.spec_refs().len() ==> r is None,
    {
        match index {
            0 => Some(self.master),
            1 => Some(self.anchor),
            _ => None,
        }
    }

    /// Replaces the embedded reference at `index`.
    pub fn set_reference(&mut self, index: usize, type_ref: TypeRef) -> (r: Result<(), LqError>)
        ensures
            final(self).spec_meta() == old(self).spec_meta(),
            final(self).spec_max_anchors() == old(self).spec_max_anchors(),
            index < old(self).spec_refs().len() ==> (r is Ok && final(self).spec_refs()
                == old(self).spec_refs().update(index as int, type_ref)),
            index >= old(self).spec_refs().len() ==> (r == Err::<(), LqError>(
                LqError::NoSuchReference,
            ) && *final(self) == *old(self)),
    {
        match index {
            0 => {
                self.master = type_ref;
                assert(self.spec_refs() =~= old(self).spec_refs().update(0, type_ref));
                Ok(())
            },
            1 => {
                self.anchor = type_ref;
                assert(self.spec_refs() =~= old(self).spec_refs().update(1, type_ref));
                Ok(())
            },
            _ => Err(LqError::NoSuchReference),
        }
    }
}

impl WithMetadata for TAnchors {
    closed spec fn spec_meta(&self) -> Meta {
        self.meta
    }

    closed spec fn spec_with_meta(self, meta: Meta) -> Self {
        TAnchors { meta, ..self }
    }

    fn meta(&self) -> (r: &Meta) {
        &self.meta
    }

    proof fn lemma_meta_lens(self, m1: Meta, m2: Meta) {
    }
}

impl MetadataSetter for TAnchors {
    fn set_meta(&mut self, meta: Meta) {
        self.meta = meta;
    }

    fn with_meta(self, meta: Meta) -> (r: Self) {
        let mut result = self;
        result.meta = meta;
        result
    }

    fn with_doc(self, doc: String) -> (r: Self) {
        let mut result = self;
        result.meta = Meta { doc: Some(doc), implements: result.meta.implements };
        result
    }
}

} // verus!
