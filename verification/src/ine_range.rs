use vstd::prelude::*;
use crate::error::LqError;

verus! {

/// An inclusive, non-empty range of `u32` values (`start <= end`).
#[derive(Copy, Clone, Debug, PartialEq, Eq, Hash, Structural)]
pub struct U32IneRange {
    start: u32,
    end: u32,
}

/// An inclusive, non-empty range of `u64` values (`start <= end`).
#[derive(Copy, Clone, Debug, PartialEq, Eq, Hash, Structural)]
pub struct U64IneRange {
    start: u64,
    end: u64,
}

/// An inclusive, non-empty range of `i64` values (`start <= end`).
#[derive(Copy, Clone, Debug, PartialEq, Eq, Hash, Structural)]
pub struct I64IneRange {
    start: i64,
    end: i64,
}

impl U32IneRange {
    pub closed spec fn spec_start(&self) -> u32 {
        self.start
    }

    pub closed spec fn spec_end(&self) -> u32 {
        self.end
    }

    /// True if `value` lies within the range (both ends included).
    pub open spec fn spec_contains(&self, value: int) -> bool {
        self.spec_start() <= value <= self.spec_end()
    }

    /// Creates the range `[start, end]`; fails if `start > end`.
    pub fn try_new(start: u32, end: u32) -> (r: Result<U32IneRange, LqError>)
        ensures
            start <= end ==> (r matches Ok(range) && range.spec_start() == start
                && range.spec_end() == end),
            start > end ==> r == Err::<U32IneRange, LqError>(LqError::InvalidRange),
    {
        if start > end {
            Err(LqError::InvalidRange)
        } else {
            Ok(U32IneRange { start, end })
        }
    }

    /// The range of all `u32` values.
    pub fn full() -> (r: U32IneRange)
        ensures
            r.spec_start() == 0,
            r.spec_end() == u32::MAX,
    {
        U32IneRange { start: 0, end: u32::MAX }
    }

    pub fn start(&self) -> (r: u32)
        ensures
            r == self.spec_start(),
    {
        self.start
    }

    pub fn end(&self) -> (r: u32)
        ensures
            r == self.spec_end(),
    {
        self.end
    }

    /// Returns `Ok` if `value` lies within the range, `NotWithinRange` otherwise.
    pub fn require_within(&self, value: u64) -> (r: Result<(), LqError>)
        ensures
            r is Ok <==> self.spec_contains(value as int),
            r is Err ==> r == Err::<(), LqError>(LqError::NotWithinRange),
    {
        if (self.start as u64) <= value && value <= (self.end as u64) {
            Ok(())
        } else {
            Err(LqError::NotWithinRange)
        }
    }
}

impl U64IneRange {
    pub closed spec fn spec_start(&self) -> u64 {
        self.start
    }

    pub closed spec fn spec_end(&self) -> u64 {
        self.end
    }

    /// True if `value` lies within the range (both ends included).
    pub open spec fn spec_contains(&self, value: int) -> bool {
        self.spec_start() <= value <= self.spec_end()
    }

    /// Creates the range `[start, end]`; fails if `start > end`.
    pub fn try_new(start: u64, end: u64) -> (r: Result<U64IneRange, LqError>)
        ensures
            start <= end ==> (r matches Ok(range) && range.spec_start() == start
                && range.spec_end() == end),
            start > end ==> r == Err::<U64IneRange, LqError>(LqError::InvalidRange),
    {
        if start > end {
            Err(LqError::InvalidRange)
        } else {
            Ok(U64IneRange { start, end })
        }
    }

    /// The range of all `u64` values.
    pub fn full() -> (r: U64IneRange)
        ensures
            r.spec_start() == 0,
            r.spec_end() == u64::MAX,
    {
        U64IneRange { start: 0, end: u64::MAX }
    }

    pub fn start(&self) -> (r: u64)
        ensures
            r == self.spec_start(),
    {
        self.start
    }

    pub fn end(&self) -> (r: u64)
        ensures
            r == self.spec_end(),
    {
        self.end
    }

    /// Returns `Ok` if `value` lies within the range, `NotWithinRange` otherwise.
    pub fn require_within(&self, value: u64) -> (r: Result<(), LqError>)
        ensures
            r is Ok <==> self.spec_contains(value as int),
            r is Err ==> r == Err::<(), LqError>(LqError::NotWithinRange),
    {
        if self.start <= value && value <= self.end {
            Ok(())
        } else {
            Err(LqError::NotWithinRange)
        }
    }
}

impl I64IneRange {
    pub closed spec fn spec_start(&self) -> i64 {
        self.start
    }

    pub closed spec fn spec_end(&self) -> i64 {
        self.end
    }

    /// True if `value` lies within the range (both ends included).
    pub open spec fn spec_contains(&self, value: int) -> bool {
        self.spec_start() <= value <= self.spec_end()
    }

    /// Creates the range `[start, end]`; fails if `start > end`.
    pub fn try_new(start: i64, end: i64) -> (r: Result<I64IneRange, LqError>)
        ensures
            start <= end ==> (r matches Ok(range) && range.spec_start() == start
                && range.spec_end() == end),
            start > end ==> r == Err::<I64IneRange, LqError>(LqError::InvalidRange),
    {
        if start > end {
            Err(LqError::InvalidRange)
        } else {
            Ok(I64IneRange { start, end })
        }
    }

    /// The range of all `i64` values.
    pub fn full() -> (r: I64IneRange)
        ensures
            r.spec_start() == i64::MIN,
            r.spec_end() == i64::MAX,
    {
        I64IneRange { start: i64::MIN, end: i64::MAX }
    }

    pub fn start(&self) -> (r: i64)
        ensures
            r == self.spec_start(),
    {
        self.start
    }

    pub fn end(&self) -> (r: i64)
        ensures
            r == self.spec_end(),
    {
        self.end
    }

    /// Returns `Ok` if `value` lies within the range, `NotWithinRange` otherwise.
    pub fn require_within(&self, value: i64) -> (r: Result<(), LqError>)
        ensures
            r is Ok <==> self.spec_contains(value as int),
            r is Err ==> r == Err::<(), LqError>(LqError::NotWithinRange),
    {
        if self.start <= value && value <= self.end {
            Ok(())
        } else {
            Err(LqError::NotWithinRange)
        }
    }
}

} // verus!
