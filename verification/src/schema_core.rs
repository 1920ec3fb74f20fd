use vstd::prelude::*;

verus! {

/// References a single type within a schema (the index of the type in its container).
#[derive(Copy, Clone, Debug, PartialEq, Eq, Hash, Structural)]
pub struct TypeRef(pub u32);

/// The result of comparing two values: the first is less than, equal to or greater than the
/// second.
#[derive(Copy, Clone, Debug, PartialEq, Eq, Structural)]
pub enum Cmp {
    Less,
    Equal,
    Greater,
}

impl Cmp {
    /// The result of the comparison with both sides swapped.
    pub open spec fn reverse(self) -> Cmp {
        match self {
            Cmp::Less => Cmp::Greater,
            Cmp::Equal => Cmp::Equal,
            Cmp::Greater => Cmp::Less,
        }
    }
}

/// Compares two unsigned integers.
pub open spec fn order_int(a: int, b: int) -> Cmp {
    if a < b {
        Cmp::Less
    } else if a == b {
        Cmp::Equal
    } else {
        Cmp::Greater
    }
}

/// Compares two booleans (`false < true`).
pub open spec fn order_bool(a: bool, b: bool) -> Cmp {
    order_int(if a { 1 } else { 0 }, if b { 1 } else { 0 })
}

/// Lexicographic comparison of two byte strings (a proper prefix is less).
pub open spec fn order_bytes(a: Seq<u8>, b: Seq<u8>) -> Cmp
    decreases a.len(),
{
    if a.len() == 0 || b.len() == 0 {
        order_int(a.len() as int, b.len() as int)
    } else if a[0] != b[0] {
        order_int(a[0] as int, b[0] as int)
    } else {
        order_bytes(a.drop_first(), b.drop_first())
    }
}

pub fn exec_order_u64(a: u64, b: u64) -> (r: Cmp)
    ensures
        r == order_int(a as int, b as int),
{
    if a < b {
        Cmp::Less
    } else if a == b {
        Cmp::Equal
    } else {
        Cmp::Greater
    }
}

pub fn exec_order_i64(a: i64, b: i64) -> (r: Cmp)
    ensures
        r == order_int(a as int, b as int),
{
    if a < b {
        Cmp::Less
    } else if a == b {
        Cmp::Equal
    } else {
        Cmp::Greater
    }
}

pub fn exec_order_bool(a: bool, b: bool) -> (r: Cmp)
    ensures
        r == order_bool(a, b),
{
    if a == b {
        Cmp::Equal
    } else if b {
        Cmp::Less
    } else {
        Cmp::Greater
    }
}

/// Lexicographic comparison of two byte strings.
pub fn exec_order_bytes(a: &[u8], b: &[u8]) -> (r: Cmp)
    ensures
        r == order_bytes(a@, b@),
{
    let mut i: usize = 0;
    assert(a@.skip(0) =~= a@);
    assert(b@.skip(0) =~= b@);
    while i < a.len() && i < b.len()
        invariant
            0 <= i <= a.len(),
            i <= b.len(),
            order_bytes(a@, b@) == order_bytes(a@.skip(i as int), b@.skip(i as int)),
        decreases a.len() - i,
    {
        if a[i] != b[i] {
            assert(a@.skip(i as int)[0] == a@[i as int]);
            assert(b@.skip(i as int)[0] == b@[i as int]);
            return exec_order_u64(a[i] as u64, b[i] as u64);
        }
        assert(a@.skip(i as int).drop_first() =~= a@.skip(i + 1));
        assert(b@.skip(i as int).drop_first() =~= b@.skip(i + 1));
        i += 1;
    }
    exec_order_u64((a.len() - i) as u64, (b.len() - i) as u64)
}

/// Configuration used for validation.
#[derive(Copy, Clone, Debug, PartialEq, Eq, Structural)]
pub struct Config {
    /// When this is true, structures and enum variants cannot be extended: it's a validation
    /// error when a structure has more fields than defined in the schema, and when an enum
    /// variant has more values than defined in the schema.
    pub no_extension: bool,
    /// When this is true, wrong anchor ordering is ignored. Also unused anchors are allowed.
    /// You usually want this to be false.
    pub weak_reference_validation: bool,
}

impl Config {
    /// A configuration that allows extensions and validates references strictly.
    pub fn new() -> (r: Config)
        ensures
            !r.no_extension,
            !r.weak_reference_validation,
    {
        Config { no_extension: false, weak_reference_validation: false }
    }

    /// True if e.g. extensions in structures (having more fields than defined in the schema)
    /// are not allowed.
    pub fn no_extension(&self) -> (r: bool)
        ensures
            r == self.no_extension,
    {
        self.no_extension
    }

    /// No extensions and strict reference validation.
    pub fn strict() -> (r: Config)
        ensures
            r.no_extension,
            !r.weak_reference_validation,
    {
        Config { no_extension: true, weak_reference_validation: false }
    }
}

} // verus!
