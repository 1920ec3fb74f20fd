use vstd::prelude::*;
use crate::error::LqError;
use crate::ine_range::U64IneRange;
use crate::metadata::{Meta, MetadataSetter, WithMetadata};

verus! {

/// A set of character codes, as ranges `[start, end)` (the end excluded); no range is empty.
#[derive(Clone, Debug, PartialEq, Eq, Hash)]
pub struct CodeRange {
    ranges: Vec<(u32, u32)>,
}

impl CodeRange {
    /// The ranges of the set, in the order they were added.
    pub closed spec fn spec_ranges(&self) -> Seq<(u32, u32)> {
        self.ranges@
    }

    /// True if the code lies in one of the ranges.
    pub open spec fn spec_contains(&self, code: int) -> bool {
        exists|i: int|
            0 <= i < self.spec_ranges().len() && (#[trigger] self.spec_ranges()[i]).0 <= code
                < self.spec_ranges()[i].1
    }

    /// The codes `[start, end)`; fails with `InvalidRange` if that range is empty.
    pub fn try_new(start: u32, end: u32) -> (r: Result<CodeRange, LqError>)
        ensures
            start < end ==> (r matches Ok(c) && c.spec_ranges() == seq![(start, end)]),
            start >= end ==> r == Err::<CodeRange, LqError>(LqError::InvalidRange),
    {
        if start >= end {
            Err(LqError::InvalidRange)
        } else {
            let mut ranges: Vec<(u32, u32)> = Vec::new();
            ranges.push((start, end));
            Ok(CodeRange { ranges })
        }
    }

    /// Adds the codes `[start, end)`; fails with `InvalidRange` (and changes nothing) if that
    /// range is empty.
    pub fn add(&mut self, start: u32, end: u32) -> (r: Result<(), LqError>)
        ensures
            start < end ==> (r is Ok && final(self).spec_ranges() == old(self).spec_ranges().push(
                (start, end),
            )),
            start >= end ==> (r == Err::<(), LqError>(LqError::InvalidRange) && *final(self)
                == *old(self)),
    {
        if start >= end {
            Err(LqError::InvalidRange)
        } else {
            self.ranges.push((start, end));
            Ok(())
        }
    }

    /// The ranges `[start, end)` of the set, in the order they were added.
    pub fn ranges(&self) -> (r: &[(u32, u32)])
        ensures
            r@ == self.spec_ranges(),
    {
        self.ranges.as_slice()
    }

    /// True if the code lies in one of the ranges.
    pub fn contains(&self, code: u32) -> (r: bool)
        ensures
            r == self.spec_contains(code as int),
    {
        let mut i: usize = 0;
        while i < self.ranges.len()
            invariant
                0 <= i <= self.ranges@.len(),
                forall|j: int|
                    0 <= j < i ==> !((#[trigger] self.ranges@[j]).0 <= code < self.ranges@[j].1),
            decreases self.ranges@.len() - i,
        {
            let (start, end) = self.ranges[i];
            if start <= code && code < end {
                assert(self.spec_ranges()[i as int].0 <= code < self.spec_ranges()[i as int].1);
                return true;
            }
            i += 1;
        }
        false
    }
}

/// An ASCII text: a length range (in characters, that is bytes) and the allowed character
/// codes.
#[derive(Clone, Debug, PartialEq, Eq, Hash)]
pub struct TAscii {
    pub meta: Meta,
    pub length: U64IneRange,
    pub codes: CodeRange,
}

impl TAscii {
    /// An ASCII text of `min_length` to `max_length` characters, each with a code within
    /// `[min_code, max_code]` (both included).
    pub fn try_new(min_length: u64, max_length: u64, min_code: u8, max_code: u8) -> (r: Result<
        TAscii,
        LqError,
    >)
        ensures
            (min_length <= max_length && min_code <= max_code) ==> (r matches Ok(t)
                && t.length.spec_start() == min_length && t.length.spec_end() == max_length
                && t.codes.spec_ranges() == seq![(min_code as u32, (max_code + 1) as u32)]
                && t.spec_meta().doc is None && t.spec_meta().implements is None),
            !(min_length <= max_length && min_code <= max_code) ==> r == Err::<TAscii, LqError>(
                LqError::InvalidRange,
            ),
    {
        let length = match U64IneRange::try_new(min_length, max_length) {
            Ok(length) => length,
            Err(e) => {
                return Err(e);
            },
        };
        let codes = match CodeRange::try_new(min_code as u32, max_code as u32 + 1) {
            Ok(codes) => codes,
            Err(e) => {
                return Err(e);
            },
        };
        Ok(TAscii { meta: Meta::empty(), length, codes })
    }
}

impl WithMetadata for TAscii {
    open spec fn spec_meta(&self) -> Meta {
        self.meta
    }

    closed spec fn spec_with_meta(self, meta: Meta) -> Self {
        TAscii { meta, ..self }
    }

    fn meta(&self) -> (r: &Meta) {
        &self.meta
    }

    proof fn lemma_meta_lens(self, m1: Meta, m2: Meta) {
    }
}

impl MetadataSetter for TAscii {
    fn set_meta(&mut self, meta: Meta) {
        self.meta = meta;
    }

    fn with_meta(self, meta: Meta) -> (r: Self) {
        let mut result = self;
        result.meta = meta;
        result
    }

    fn with_doc(self, doc: String) -> (r: Self) {
        let mut result = self;
        result.meta = Meta { doc: Some(doc), implements: result.meta.implements };
        result
    }
}

} // verus!
