use vstd::prelude::*;
use crate::error::LqError;
use crate::ine_range::I64IneRange;
use crate::metadata::{Meta, MetadataSetter, WithMetadata};

verus! {

/// 64 bit signed integer.
#[derive(Clone, Debug, PartialEq, Eq, Hash)]
pub struct TSInt {
    meta: Meta,
    range: I64IneRange,
}

impl TSInt {
    pub closed spec fn spec_range(&self) -> I64IneRange {
        self.range
    }

    pub fn new(range: I64IneRange) -> (r: TSInt)
        ensures
            r.spec_range() == range,
            r.spec_meta().doc is None,
            r.spec_meta().implements is None,
    {
        TSInt { meta: Meta::empty(), range }
    }

    /// A signed integer within `[min, max]`.
    pub fn try_new(min: i64, max: i64) -> (r: Result<TSInt, LqError>)
        ensures
            min <= max ==> (r matches Ok(t) && t.spec_range().spec_start() == min
                && t.spec_range().spec_end() == max && t.spec_meta().doc is None
                && t.spec_meta().implements is None),
            min > max ==> r == Err::<TSInt, LqError>(LqError::InvalidRange),
    {
        match I64IneRange::try_new(min, max) {
            Ok(range) => Ok(TSInt::new(range)),
            Err(e) => Err(e),
        }
    }

    pub fn range(&self) -> (r: &I64IneRange)
        ensures
            *r == self.spec_range(),
    {
        &self.range
    }
}

impl WithMetadata for TSInt {
    closed spec fn spec_meta(&self) -> Meta {
        self.meta
    }

    closed spec fn spec_with_meta(self, meta: Meta) -> Self {
        TSInt { meta, ..self }
    }

    fn meta(&self) -> (r: &Meta) {
        &self.meta
    }

    proof fn lemma_meta_lens(self, m1: Meta, m2: Meta) {
    }
}

impl MetadataSetter for TSInt {
    fn set_meta(&mut self, meta: Meta) {
        self.meta = meta;
    }

    fn with_meta(self, meta: Meta) -> (r: Self) {
        let mut result = self;
        result.meta = meta;
        result
    }

    fn with_doc(self, doc: String) -> (r: Self) {
        let mut result = self;
        result.meta = Meta { doc: Some(doc), implements: result.meta.implements };
        result
    }
}

} // verus!
