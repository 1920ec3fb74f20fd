use vstd::prelude::*;
use crate::error::LqError;
use crate::ine_range::U64IneRange;
use crate::metadata::{Meta, MetadataSetter, WithMetadata};

verus! {

/// How the length of a text is measured.
#[derive(Clone, Copy, Debug, PartialEq, Eq, Hash, Structural)]
pub enum LengthType {
    /// The number of bytes of the UTF-8 encoding.
    Utf8Byte,
}

/// A unicode text whose length lies within a range.
#[derive(Clone, Debug, PartialEq, Eq, Hash)]
pub struct TUnicode {
    pub meta: Meta,
    pub length: U64IneRange,
    pub length_type: LengthType,
}

impl TUnicode {
    /// A text of `min_length` to `max_length`, measured as `length_type` says.
    pub fn try_new(min_length: u64, max_length: u64, length_type: LengthType) -> (r: Result<
        TUnicode,
        LqError,
    >)
        ensures
            min_length <= max_length ==> (r matches Ok(t) && t.length.spec_start() == min_length
                && t.length.spec_end() == max_length && t.length_type == length_type
                && t.spec_meta().doc is None && t.spec_meta().implements is None),
            min_length > max_length ==> r == Err::<TUnicode, LqError>(LqError::InvalidRange),
    {
        match U64IneRange::try_new(min_length, max_length) {
            Ok(length) => Ok(TUnicode { meta: Meta::empty(), length, length_type }),
            Err(e) => Err(e),
        }
    }
}

impl WithMetadata for TUnicode {
    closed spec fn spec_meta(&self) -> Meta {
        self.meta
    }

    closed spec fn spec_with_meta(self, meta: Meta) -> Self {
        TUnicode { meta, ..self }
    }

    fn meta(&self) -> (r: &Meta) {
        &self.meta
    }

    proof fn lemma_meta_lens(self, m1: Meta, m2: Meta) {
    }
}

impl MetadataSetter for TUnicode {
    fn set_meta(&mut self, meta: Meta) {
        self.meta = meta;
    }

    fn with_meta(self, meta: Meta) -> (r: Self) {
        let mut result = self;
        result.meta = meta;
        result
    }

    fn with_doc(self, doc: String) -> (r: Self) {
        let mut result = self;
        result.meta = Meta { doc: Some(doc), implements: result.meta.implements };
        result
    }
}

} // verus!
