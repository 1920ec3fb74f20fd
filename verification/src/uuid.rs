use vstd::prelude::*;
use crate::metadata::{Meta, MetadataSetter, WithMetadata};

verus! {

/// A 16 byte UUID (no other validation besides the length of 16 bytes is performed).
#[derive(Clone, Debug, PartialEq, Eq, Hash)]
pub struct TUuid {
    meta: Meta,
}

impl Default for TUuid {
    fn default() -> (r: TUuid)
        ensures
            r.spec_meta().doc is None,
            r.spec_meta().implements is None,
    {
        TUuid { meta: Meta::empty() }
    }
}

impl WithMetadata for TUuid {
    closed spec fn spec_meta(&self) -> Meta {
        self.meta
    }

    closed spec fn spec_with_meta(self, meta: Meta) -> Self {
        TUuid { meta, ..self }
    }

    fn meta(&self) -> (r: &Meta) {
        &self.meta
    }

    proof fn lemma_meta_lens(self, m1: Meta, m2: Meta) {
    }
}

impl MetadataSetter for TUuid {
    fn set_meta(&mut self, meta: Meta) {
        self.meta = meta;
    }

    fn with_meta(self, meta: Meta) -> (r: Self) {
        let mut result = self;
        result.meta = meta;
        result
    }

    fn with_doc(self, doc: String) -> (r: Self) {
        let mut result = self;
        result.meta = Meta { doc: Some(doc), implements: result.meta.implements };
        result
    }
}

} // verus!
