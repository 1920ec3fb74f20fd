use vstd::prelude::*;
use crate::metadata::{Meta, MetadataSetter, WithMetadata};

verus! {

/// The boolean type (true / false).
#[derive(Clone, Debug, PartialEq, Eq, Hash)]
pub struct TBool {
    meta: Meta,
}

impl Default for TBool {
    fn default() -> (r: TBool)
        ensures
            r.spec_meta().doc is None,
            r.spec_meta().implements is None,
    {
        TBool { meta: Meta::empty() }
    }
}

impl WithMetadata for TBool {
    closed spec fn spec_meta(&self) -> Meta {
        self.meta
    }

    closed spec fn spec_with_meta(self, meta: Meta) -> Self {
        TBool { meta, ..self }
    }

    fn meta(&self) -> (r: &Meta) {
        &self.meta
    }

    proof fn lemma_meta_lens(self, m1: Meta, m2: Meta) {
    }
}

impl MetadataSetter for TBool {
    fn set_meta(&mut self, meta: Meta) {
        self.meta = meta;
    }

    fn with_meta(self, meta: Meta) -> (r: Self) {
        let mut result = self;
        result.meta = meta;
        result
    }

    fn with_doc(self, doc: String) -> (r: Self) {
        let mut result = self;
        result.meta = Meta { doc: Some(doc), implements: result.meta.implements };
        result
    }
}

} // verus!
