use vstd::prelude::*;
use crate::error::LqError;
use crate::ine_range::U64IneRange;
use crate::metadata::{Meta, MetadataSetter, WithMetadata};

verus! {

/// Unsigned integer - maximum 64 bit.
#[derive(Clone, Debug, PartialEq, Eq, Hash)]
pub struct TUInt {
    pub meta: Meta,
    pub range: U64IneRange,
}

impl TUInt {
    pub fn new(range: U64IneRange) -> (r: TUInt)
        ensures
            r.range == range,
            r.spec_meta().doc is None,
            r.spec_meta().implements is None,
    {
        TUInt { meta: Meta::empty(), range }
    }

    /// An unsigned integer within `[min, max]`.
    pub fn try_new(min: u64, max: u64) -> (r: Result<TUInt, LqError>)
        ensures
            min <= max ==> (r matches Ok(t) && t.range.spec_start() == min
                && t.range.spec_end() == max && t.spec_meta().doc is None
                && t.spec_meta().implements is None),
            min > max ==> r == Err::<TUInt, LqError>(LqError::InvalidRange),
    {
        match U64IneRange::try_new(min, max) {
            Ok(range) => Ok(TUInt::new(range)),
            Err(e) => Err(e),
        }
    }

    pub fn range(&self) -> (r: &U64IneRange)
        ensures
            *r == self.range,
    {
        &self.range
    }
}

impl WithMetadata for TUInt {
    closed spec fn spec_meta(&self) -> Meta {
        self.meta
    }

    closed spec fn spec_with_meta(self, meta: Meta) -> Self {
        TUInt { meta, ..self }
    }

    fn meta(&self) -> (r: &Meta) {
        &self.meta
    }

    proof fn lemma_meta_lens(self, m1: Meta, m2: Meta) {
    }
}

impl MetadataSetter for TUInt {
    fn set_meta(&mut self, meta: Meta) {
        self.meta = meta;
    }

    fn with_meta(self, meta: Meta) -> (r: Self) {
        let mut result = self;
        result.meta = meta;
        result
    }

    fn with_doc(self, doc: String) -> (r: Self) {
        let mut result = self;
        result.meta = Meta { doc: Some(doc), implements: result.meta.implements };
        result
    }
}

} // verus!
