use vstd::prelude::*;

verus! {

/// A value of liquesco data, as read from its serialized form. Structures, maps, ranges and
/// anchors are sequences; an enum value is its ordinal and the values it carries; an option is
/// absent or present with a value; a UUID is 16 bytes of binary.
#[derive(Debug, PartialEq, Eq)]
pub enum Value {
    Bool(bool),
    Absent,
    Present(Box<Value>),
    Sequence(Vec<Value>),
    Binary(Vec<u8>),
    Unicode(String),
    UInt(u64),
    SInt(i64),
    Enum(u32, Vec<Value>),
}

} // verus!
