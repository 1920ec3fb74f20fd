use vstd::prelude::*;
use crate::metadata::{Meta, MetadataSetter, WithMetadata};

verus! {

/// A reference can be used in combination with `TAnchors`. This references one anchor in
/// the anchors sequence.
#[derive(Clone, Debug, PartialEq, Eq, Hash)]
pub struct TReference {
    meta: Meta,
}

impl Default for TReference {
    fn default() -> (r: TReference)
        ensures
            r.spec_meta().doc is None,
            r.spec_meta().implements is None,
    {
        TReference { meta: Meta::empty() }
    }
}

impl WithMetadata for TReference {
    closed spec fn spec_meta(&self) -> Meta {
        self.meta
    }

    closed spec fn spec_with_meta(self, meta: Meta) -> Self {
        TReference { meta, ..self }
    }

    fn meta(&self) -> (r: &Meta) {
        &self.meta
    }

    proof fn lemma_meta_lens(self, m1: Meta, m2: Meta) {
    }
}

impl MetadataSetter for TReference {
    fn set_meta(&mut self, meta: Meta) {
        self.meta = meta;
    }

    fn with_meta(self, meta: Meta) -> (r: Self) {
        let mut result = self;
        result.meta = meta;
        result
    }

    fn with_doc(self, doc: String) -> (r: Self) {
        let mut result = self;
        result.meta = Meta { doc: Some(doc), implements: result.meta.implements };
        result
    }
}

} // verus!
