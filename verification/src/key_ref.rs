use vstd::prelude::*;
use crate::metadata::{Meta, MetadataSetter, WithMetadata};

verus! {

/// References a key in the nth outer map (see level).
///
/// Technical detail: It's just a number. That number is the index in the outer map. So it's
/// always >=0 and < number of items in the map. It can only be used when there's an outer
/// map in the schema. When there's no outer map, schema is valid but data validation will
/// always fail.
#[derive(Clone, Debug, PartialEq, Eq, Hash)]
pub struct TKeyRef {
    meta: Meta,
    level: u32,
}

impl Default for TKeyRef {
    fn default() -> (r: TKeyRef)
        ensures
            r.spec_level() == 0,
            r.spec_meta().doc is None,
            r.spec_meta().implements is None,
    {
        TKeyRef { meta: Meta::empty(), level: 0 }
    }
}

impl TKeyRef {
    pub closed spec fn spec_level(&self) -> u32 {
        self.level
    }

    /// The level determines which outer map is referenced. Usually the level is 0, in this
    /// case it's the next outer map.
    pub fn with_level(self, level: u32) -> (r: TKeyRef)
        ensures
            r.spec_level() == level,
            r.spec_meta() == self.spec_meta(),
    {
        let mut result = self;
        result.level = level;
        result
    }

    pub fn level(&self) -> (r: u32)
        ensures
            r == self.spec_level(),
    {
        self.level
    }
}

impl WithMetadata for TKeyRef {
    closed spec fn spec_meta(&self) -> Meta {
        self.meta
    }

    closed spec fn spec_with_meta(self, meta: Meta) -> Self {
        TKeyRef { meta, ..self }
    }

    fn meta(&self) -> (r: &Meta) {
        &self.meta
    }

    proof fn lemma_meta_lens(self, m1: Meta, m2: Meta) {
    }
}

impl MetadataSetter for TKeyRef {
    fn set_meta(&mut self, meta: Meta) {
        self.meta = meta;
    }

    fn with_meta(self, meta: Meta) -> (r: Self) {
        let mut result = self;
        result.meta = meta;
        result
    }

    fn with_doc(self, doc: String) -> (r: Self) {
        let mut result = self;
        result.meta = Meta { doc: Some(doc), implements: result.meta.implements };
        result
    }
}

} // verus!
