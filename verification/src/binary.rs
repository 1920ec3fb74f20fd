use vstd::prelude::*;
use crate::error::LqError;
use crate::ine_range::U64IneRange;
use crate::metadata::{Meta, MetadataSetter, WithMetadata};

verus! {

/// Arbitrary binary data.
#[derive(Clone, Debug, PartialEq, Eq, Hash)]
pub struct TBinary {
    meta: Meta,
    length: U64IneRange,
}

impl TBinary {
    /// The allowed length in bytes.
    pub closed spec fn spec_length(&self) -> U64IneRange {
        self.length
    }

    pub fn new(length: U64IneRange) -> (r: TBinary)
        ensures
            r.spec_length() == length,
            r.spec_meta().doc is None,
            r.spec_meta().implements is None,
    {
        TBinary { meta: Meta::empty(), length }
    }

    /// Binary data of `min_length` to `max_length` bytes (both inclusive).
    pub fn try_new(min_length: u64, max_length: u64) -> (r: Result<TBinary, LqError>)
        ensures
            min_length <= max_length ==> (r matches Ok(t) && t.spec_length().spec_start()
                == min_length && t.spec_length().spec_end() == max_length
                && t.spec_meta().doc is None && t.spec_meta().implements is None),
            min_length > max_length ==> r == Err::<TBinary, LqError>(LqError::InvalidRange),
    {
        match U64IneRange::try_new(min_length, max_length) {
            Ok(length) => Ok(TBinary { meta: Meta::empty(), length }),
            Err(e) => Err(e),
        }
    }

    /// The length in bytes.
    pub fn length(&self) -> (r: &U64IneRange)
        ensures
            *r == self.spec_length(),
    {
        &self.length
    }
}

impl WithMetadata for TBinary {
    closed spec fn spec_meta(&self) -> Meta {
        self.meta
    }

    closed spec fn spec_with_meta(self, meta: Meta) -> Self {
        TBinary { meta, ..self }
    }

    fn meta(&self) -> (r: &Meta) {
        &self.meta
    }

    proof fn lemma_meta_lens(self, m1: Meta, m2: Meta) {
    }
}

impl MetadataSetter for TBinary {
    fn set_meta(&mut self, meta: Meta) {
        self.meta = meta;
    }

    fn with_meta(self, meta: Meta) -> (r: Self) {
        let mut result = self;
        result.meta = meta;
        result
    }

    fn with_doc(self, doc: String) -> (r: Self) {
        let mut result = self;
        result.meta = Meta { doc: Some(doc), implements: result.meta.implements };
        result
    }
}

} // verus!
