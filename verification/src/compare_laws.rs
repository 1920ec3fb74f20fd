//! Comparison is a total order: swapping the sides reverses the result, and it is transitive.
use vstd::prelude::*;
use crate::any_type::AnyType;
use crate::error::LqError;
use crate::schema_core::{Cmp, TypeRef, order_bytes};
use crate::enumeration::TEnum;
use crate::structure::{TStruct, field_refs};
use crate::validation::{
    spec_compare_entries, spec_compare_lex, spec_compare_list, spec_compare_ref, spec_compare_type,
};
use crate::value::Value;
use vstd::utf8::encode_utf8;

verus! {

/// A comparison result with both sides swapped: `Less` and `Greater` trade places; `Equal`
/// and errors stay.
pub open spec fn reverse_result(r: Result<Cmp, LqError>) -> Result<Cmp, LqError> {
    match r {
        Ok(c) => Ok(c.reverse()),
        Err(e) => Err(e),
    }
}

/// Comparing byte strings with the sides swapped reverses the result.
pub proof fn lemma_order_bytes_antisymmetric(a: Seq<u8>, b: Seq<u8>)
    ensures
        order_bytes(b, a) == order_bytes(a, b).reverse(),
    decreases a.len(),
{
    if a.len() == 0 || b.len() == 0 {
    } else if a[0] != b[0] {
    } else {
        lemma_order_bytes_antisymmetric(a.drop_first(), b.drop_first());
    }
}

/// A byte string is equal to itself.
pub proof fn lemma_order_bytes_reflexive(a: Seq<u8>)
    ensures
        order_bytes(a, a) == Cmp::Equal,
    decreases a.len(),
{
    if a.len() > 0 {
        lemma_order_bytes_reflexive(a.drop_first());
    }
}

/// Comparing two values of a type with the sides swapped gives the reversed result: if `a`
/// is less than `b` then `b` is greater than `a`, equal values are equal either way round,
/// and values that cannot be compared fail with the same error either way round.
pub proof fn lemma_compare_antisymmetric(tys: Seq<AnyType>, r: TypeRef, a: Value, b: Value)
    ensures
        spec_compare_ref(tys, r, b, a) == reverse_result(spec_compare_ref(tys, r, a, b)),
    decreases a, 1nat,
{
    if (r.0 as int) < tys.len() {
        lemma_compare_type_antisymmetric(tys, tys[r.0 as int], a, b);
    }
}

/// `lemma_compare_antisymmetric`, for a type given directly.
pub proof fn lemma_compare_type_antisymmetric(tys: Seq<AnyType>, t: AnyType, a: Value, b: Value)
    ensures
        spec_compare_type(tys, t, b, a) == reverse_result(spec_compare_type(tys, t, a, b)),
    decreases a, 0nat,
{
    match t {
        AnyType::Binary(_) => match (a, b) {
            (Value::Binary(x), Value::Binary(y)) => lemma_order_bytes_antisymmetric(x@, y@),
            _ => {},
        },
        AnyType::Uuid(_) => match (a, b) {
            (Value::Binary(x), Value::Binary(y)) => lemma_order_bytes_antisymmetric(x@, y@),
            _ => {},
        },
        AnyType::Ascii(_) => match (a, b) {
            (Value::Unicode(x), Value::Unicode(y)) => lemma_order_bytes_antisymmetric(
                encode_utf8(x@),
                encode_utf8(y@),
            ),
            _ => {},
        },
        AnyType::Unicode(_) => match (a, b) {
            (Value::Unicode(x), Value::Unicode(y)) => lemma_order_bytes_antisymmetric(
                encode_utf8(x@),
                encode_utf8(y@),
            ),
            _ => {},
        },
        AnyType::Option(o) => match (a, b) {
            (Value::Present(x), Value::Present(y)) => {
                lemma_compare_antisymmetric(tys, o.spec_type_ref(), *x, *y);
            },
            _ => {},
        },
        AnyType::Sequence(s) => match (a, b) {
            (Value::Sequence(x), Value::Sequence(y)) => {
                assert(decreases_to!(a => x@));
                lemma_compare_lex_antisymmetric(tys, s.element, x@, y@, 0);
            },
            _ => {},
        },
        AnyType::Struct(st) => match (a, b) {
            (Value::Sequence(x), Value::Sequence(y)) => {
                assert(decreases_to!(a => x@));
                lemma_compare_list_antisymmetric(tys, field_refs(st.spec_fields()), x@, y@, 0);
            },
            _ => {},
        },
        AnyType::Enum(e) => match (a, b) {
            (Value::Enum(o1, x), Value::Enum(o2, y)) => {
                if o1 == o2 && (o1 as int) < e.spec_variants().len() {
                    assert(decreases_to!(a => x@));
                    lemma_compare_list_antisymmetric(
                        tys,
                        e.spec_variants()[o1 as int].spec_values(),
                        x@,
                        y@,
                        0,
                    );
                }
            },
            _ => {},
        },
        AnyType::Mapping(m) => match (a, b) {
            (Value::Sequence(x), Value::Sequence(y)) => {
                assert(decreases_to!(a => x@));
                lemma_compare_entries_antisymmetric(tys, m.spec_key(), m.spec_value(), x@, y@, 0);
            },
            _ => {},
        },
        AnyType::RootMap(m) => match (a, b) {
            (Value::Sequence(x), Value::Sequence(y)) => {
                if x.len() == 2 && y.len() == 2 {
                    assert(decreases_to!(a => x@));
                    assert(decreases_to!(x@ => x@[0]));
                    assert(decreases_to!(x@ => x@[1]));
                    lemma_compare_antisymmetric(tys, m.spec_root(), x@[1], y@[1]);
                    match (x@[0], y@[0]) {
                        (Value::Sequence(ex), Value::Sequence(ey)) => {
                            assert(decreases_to!(x@[0] => ex@));
                            lemma_compare_entries_antisymmetric(
                                tys,
                                m.spec_key(),
                                m.spec_value(),
                                ex@,
                                ey@,
                                0,
                            );
                        },
                        _ => {},
                    }
                }
            },
            _ => {},
        },
        AnyType::Range(rg) => match (a, b) {
            (Value::Sequence(x), Value::Sequence(y)) => {
                if x.len() == y.len() && x.len() >= 2 {
                    assert(decreases_to!(a => x@));
                    assert(decreases_to!(x@ => x@[0]));
                    assert(decreases_to!(x@ => x@[1]));
                    lemma_compare_antisymmetric(tys, rg.element, x@[0], y@[0]);
                    lemma_compare_antisymmetric(tys, rg.element, x@[1], y@[1]);
                }
            },
            _ => {},
        },
        AnyType::Anchors(an) => match (a, b) {
            (Value::Sequence(x), Value::Sequence(y)) => {
                if x.len() == 2 && y.len() == 2 {
                    assert(decreases_to!(a => x@));
                    assert(decreases_to!(x@ => x@[0]));
                    assert(decreases_to!(x@ => x@[1]));
                    lemma_compare_antisymmetric(tys, an.spec_master(), x@[0], y@[0]);
                    match (x@[1], y@[1]) {
                        (Value::Sequence(ax), Value::Sequence(ay)) => {
                            assert(decreases_to!(x@[1] => ax@));
                            lemma_compare_lex_antisymmetric(tys, an.spec_anchor(), ax@, ay@, 0);
                        },
                        _ => {},
                    }
                }
            },
            _ => {},
        },
        _ => {},
    }
}

/// `lemma_compare_antisymmetric` for lexicographic comparison from index `i`.
pub proof fn lemma_compare_lex_antisymmetric(
    tys: Seq<AnyType>,
    r: TypeRef,
    x: Seq<Value>,
    y: Seq<Value>,
    i: int,
)
    ensures
        spec_compare_lex(tys, r, y, x, i) == reverse_result(spec_compare_lex(tys, r, x, y, i)),
    decreases x, x.len() - i,
{
    if 0 <= i < x.len() && i < y.len() {
        assert(decreases_to!(x => x[i]));
        lemma_compare_antisymmetric(tys, r, x[i], y[i]);
        lemma_compare_lex_antisymmetric(tys, r, x, y, i + 1);
    }
}

/// `lemma_compare_antisymmetric` for pairwise comparison from index `i`.
pub proof fn lemma_compare_list_antisymmetric(
    tys: Seq<AnyType>,
    refs: Seq<TypeRef>,
    x: Seq<Value>,
    y: Seq<Value>,
    i: int,
)
    ensures
        spec_compare_list(tys, refs, y, x, i) == reverse_result(spec_compare_list(tys, refs, x, y, i)),
    decreases x, refs.len() - i,
{
    if 0 <= i < refs.len() && i < x.len() && i < y.len() {
        assert(decreases_to!(x => x[i]));
        lemma_compare_antisymmetric(tys, refs[i], x[i], y[i]);
        lemma_compare_list_antisymmetric(tys, refs, x, y, i + 1);
    }
}

/// `lemma_compare_antisymmetric` for map entries from index `i`.
pub proof fn lemma_compare_entries_antisymmetric(
    tys: Seq<AnyType>,
    key: TypeRef,
    value: TypeRef,
    x: Seq<Value>,
    y: Seq<Value>,
    i: int,
)
    ensures
        spec_compare_entries(tys, key, value, y, x, i) == reverse_result(
            spec_compare_entries(tys, key, value, x, y, i),
        ),
    decreases x, x.len() - i,
{
    if 0 <= i < x.len() && i < y.len() {
        match (x[i], y[i]) {
            (Value::Sequence(kx), Value::Sequence(ky)) => {
                if kx.len() == 2 && ky.len() == 2 {
                    assert(decreases_to!(x => x[i]));
                    assert(decreases_to!(x[i] => kx@));
                    assert(decreases_to!(kx@ => kx@[0]));
                    assert(decreases_to!(kx@ => kx@[1]));
                    lemma_compare_antisymmetric(tys, key, kx@[0], ky@[0]);
                    lemma_compare_antisymmetric(tys, value, kx@[1], ky@[1]);
                    lemma_compare_entries_antisymmetric(tys, key, value, x, y, i + 1);
                }
            },
            _ => {},
        }
    }
}

/// What two comparison results `a ? b` and `b ? c` say of `a ? c`: equal values can be
/// replaced by each other, and two steps in the same direction give that direction; two
/// steps in opposite directions say nothing.
pub open spec fn chain(c1: Cmp, c2: Cmp) -> Option<Cmp> {
    match (c1, c2) {
        (Cmp::Equal, c) => Some(c),
        (c, Cmp::Equal) => Some(c),
        (Cmp::Less, Cmp::Less) => Some(Cmp::Less),
        (Cmp::Greater, Cmp::Greater) => Some(Cmp::Greater),
        _ => None,
    }
}

/// `r3` (the comparison of `a` with `c`) is what the comparisons `r1` of `a` with `b` and `r2`
/// of `b` with `c` say it is, wherever they say something.
pub open spec fn chains(
    r1: Result<Cmp, LqError>,
    r2: Result<Cmp, LqError>,
    r3: Result<Cmp, LqError>,
) -> bool {
    (r1 is Ok && r2 is Ok && chain(r1->Ok_0, r2->Ok_0) is Some) ==> r3 == Ok::<Cmp, LqError>(
        chain(r1->Ok_0, r2->Ok_0)->Some_0,
    )
}

/// Byte strings are ordered transitively.
pub proof fn lemma_order_bytes_transitive(a: Seq<u8>, b: Seq<u8>, c: Seq<u8>)
    ensures
        chain(order_bytes(a, b), order_bytes(b, c)) is Some ==> order_bytes(a, c) == chain(
            order_bytes(a, b),
            order_bytes(b, c),
        )->Some_0,
    decreases a.len(),
{
    if a.len() == 0 || b.len() == 0 || c.len() == 0 {
    } else if a[0] != b[0] || b[0] != c[0] {
    } else {
        lemma_order_bytes_transitive(a.drop_first(), b.drop_first(), c.drop_first());
    }
}

/// Comparison is transitive: if `a` is less than (or equal to) `b` and `b` is less than (or
/// equal to) `c`, then `a` is less than (or equal to) `c`; values equal to each other compare
/// the same with every third value.
pub proof fn lemma_compare_transitive(tys: Seq<AnyType>, r: TypeRef, a: Value, b: Value, c: Value)
    ensures
        chains(
            spec_compare_ref(tys, r, a, b),
            spec_compare_ref(tys, r, b, c),
            spec_compare_ref(tys, r, a, c),
        ),
    decreases a, 1nat,
{
    if (r.0 as int) < tys.len() {
        transitive_type(tys, tys[r.0 as int], a, b, c);
    }
}

#[verifier::rlimit(40)]
proof fn transitive_type(tys: Seq<AnyType>, t: AnyType, a: Value, b: Value, c: Value)
    ensures
        chains(
            spec_compare_type(tys, t, a, b),
            spec_compare_type(tys, t, b, c),
            spec_compare_type(tys, t, a, c),
        ),
    decreases a, 0nat,
{
    match t {
        AnyType::Binary(_) | AnyType::Uuid(_) => match (a, b, c) {
            (Value::Binary(x), Value::Binary(y), Value::Binary(z)) => {
                lemma_order_bytes_transitive(x@, y@, z@);
            },
            _ => {},
        },
        AnyType::Ascii(_) | AnyType::Unicode(_) => match (a, b, c) {
            (Value::Unicode(x), Value::Unicode(y), Value::Unicode(z)) => {
                lemma_order_bytes_transitive(encode_utf8(x@), encode_utf8(y@), encode_utf8(z@));
            },
            _ => {},
        },
        AnyType::Option(o) => match (a, b, c) {
            (Value::Present(x), Value::Present(y), Value::Present(z)) => {
                lemma_compare_transitive(tys, o.spec_type_ref(), *x, *y, *z);
            },
            _ => {},
        },
        AnyType::Sequence(s) => match (a, b, c) {
            (Value::Sequence(x), Value::Sequence(y), Value::Sequence(z)) => {
                assert(decreases_to!(a => x@));
                transitive_lex(tys, s.element, x@, y@, z@, 0);
            },
            _ => {},
        },
        AnyType::Struct(st) => match (a, b, c) {
            (Value::Sequence(x), Value::Sequence(y), Value::Sequence(z)) => {
                assert(decreases_to!(a => x@));
                transitive_list(tys, field_refs(st.spec_fields()), x@, y@, z@, 0);
            },
            _ => {},
        },
        AnyType::Enum(e) => match (a, b, c) {
            (Value::Enum(o1, x), Value::Enum(o2, y), Value::Enum(o3, z)) => {
                if o1 == o2 && o2 == o3 && (o1 as int) < e.spec_variants().len() {
                    assert(decreases_to!(a => x@));
                    transitive_list(
                        tys,
                        e.spec_variants()[o1 as int].spec_values(),
                        x@,
                        y@,
                        z@,
                        0,
                    );
                }
            },
            _ => {},
        },
        AnyType::Mapping(m) => match (a, b, c) {
            (Value::Sequence(x), Value::Sequence(y), Value::Sequence(z)) => {
                assert(decreases_to!(a => x@));
                transitive_entries(tys, m.spec_key(), m.spec_value(), x@, y@, z@, 0);
            },
            _ => {},
        },
        AnyType::RootMap(m) => match (a, b, c) {
            (Value::Sequence(x), Value::Sequence(y), Value::Sequence(z)) => {
                if x.len() == 2 && y.len() == 2 && z.len() == 2 {
                    assert(decreases_to!(a => x@));
                    assert(decreases_to!(x@ => x@[0]));
                    assert(decreases_to!(x@ => x@[1]));
                    lemma_compare_transitive(tys, m.spec_root(), x@[1], y@[1], z@[1]);
                    match (x@[0], y@[0], z@[0]) {
                        (Value::Sequence(ex), Value::Sequence(ey), Value::Sequence(ez)) => {
                            assert(decreases_to!(x@[0] => ex@));
                            transitive_entries(
                                tys,
                                m.spec_key(),
                                m.spec_value(),
                                ex@,
                                ey@,
                                ez@,
                                0,
                            );
                        },
                        _ => {},
                    }
                }
            },
            _ => {},
        },
        AnyType::Range(rg) => match (a, b, c) {
            (Value::Sequence(x), Value::Sequence(y), Value::Sequence(z)) => {
                if x.len() == y.len() && y.len() == z.len() && x.len() >= 2 {
                    assert(decreases_to!(a => x@));
                    assert(decreases_to!(x@ => x@[0]));
                    assert(decreases_to!(x@ => x@[1]));
                    lemma_compare_transitive(tys, rg.element, x@[0], y@[0], z@[0]);
                    lemma_compare_transitive(tys, rg.element, x@[1], y@[1], z@[1]);
                }
            },
            _ => {},
        },
        AnyType::Anchors(an) => match (a, b, c) {
            (Value::Sequence(x), Value::Sequence(y), Value::Sequence(z)) => {
                if x.len() == 2 && y.len() == 2 && z.len() == 2 {
                    assert(decreases_to!(a => x@));
                    assert(decreases_to!(x@ => x@[0]));
                    assert(decreases_to!(x@ => x@[1]));
                    lemma_compare_transitive(tys, an.spec_master(), x@[0], y@[0], z@[0]);
                    match (x@[1], y@[1], z@[1]) {
                        (Value::Sequence(ax), Value::Sequence(ay), Value::Sequence(az)) => {
                            assert(decreases_to!(x@[1] => ax@));
                            transitive_lex(tys, an.spec_anchor(), ax@, ay@, az@, 0);
                        },
                        _ => {},
                    }
                }
            },
            _ => {},
        },
        _ => {},
    }
}

proof fn transitive_lex(
    tys: Seq<AnyType>,
    r: TypeRef,
    x: Seq<Value>,
    y: Seq<Value>,
    z: Seq<Value>,
    i: int,
)
    requires
        0 <= i,
    ensures
        chains(
            spec_compare_lex(tys, r, x, y, i),
            spec_compare_lex(tys, r, y, z, i),
            spec_compare_lex(tys, r, x, z, i),
        ),
    decreases x, x.len() - i,
{
    if i < x.len() && i < y.len() && i < z.len() {
        assert(decreases_to!(x => x[i]));
        lemma_compare_transitive(tys, r, x[i], y[i], z[i]);
        transitive_lex(tys, r, x, y, z, i + 1);
    }
}

proof fn transitive_list(
    tys: Seq<AnyType>,
    refs: Seq<TypeRef>,
    x: Seq<Value>,
    y: Seq<Value>,
    z: Seq<Value>,
    i: int,
)
    requires
        0 <= i,
    ensures
        chains(
            spec_compare_list(tys, refs, x, y, i),
            spec_compare_list(tys, refs, y, z, i),
            spec_compare_list(tys, refs, x, z, i),
        ),
    decreases x, refs.len() - i,
{
    if i < refs.len() && i < x.len() && i < y.len() && i < z.len() {
        assert(decreases_to!(x => x[i]));
        lemma_compare_transitive(tys, refs[i], x[i], y[i], z[i]);
        transitive_list(tys, refs, x, y, z, i + 1);
    }
}

proof fn transitive_entries(
    tys: Seq<AnyType>,
    key: TypeRef,
    value: TypeRef,
    x: Seq<Value>,
    y: Seq<Value>,
    z: Seq<Value>,
    i: int,
)
    requires
        0 <= i,
    ensures
        chains(
            spec_compare_entries(tys, key, value, x, y, i),
            spec_compare_entries(tys, key, value, y, z, i),
            spec_compare_entries(tys, key, value, x, z, i),
        ),
    decreases x, x.len() - i,
{
    if i < x.len() && i < y.len() && i < z.len() {
        match (x[i], y[i], z[i]) {
            (Value::Sequence(kx), Value::Sequence(ky), Value::Sequence(kz)) => {
                if kx.len() == 2 && ky.len() == 2 && kz.len() == 2 {
                    assert(decreases_to!(x => x[i]));
                    assert(decreases_to!(x[i] => kx@));
                    assert(decreases_to!(kx@ => kx@[0]));
                    assert(decreases_to!(kx@ => kx@[1]));
                    lemma_compare_transitive(tys, key, kx@[0], ky@[0], kz@[0]);
                    lemma_compare_transitive(tys, value, kx@[1], ky@[1], kz@[1]);
                    transitive_entries(tys, key, value, x, y, z, i + 1);
                }
            },
            _ => {},
        }
    }
}

/// `x` and `x2` agree on their first `n` values, and both have at least `n`.
pub open spec fn same_prefix(x: Seq<Value>, x2: Seq<Value>, n: int) -> bool {
    &&& n <= x.len()
    &&& n <= x2.len()
    &&& forall|i: int| 0 <= i < n ==> #[trigger] x[i] == x2[i]
}

/// Only the fields a structure type defines are compared: values appended to a structure
/// (fields of a later version of the type) do not change how it compares.
pub proof fn lemma_struct_compare_ignores_extensions(
    tys: Seq<AnyType>,
    t: TStruct,
    x: Vec<Value>,
    x2: Vec<Value>,
    b: Value,
)
    requires
        same_prefix(x@, x2@, t.spec_fields().len() as int),
    ensures
        spec_compare_type(tys, AnyType::Struct(t), Value::Sequence(x2), b) == spec_compare_type(
            tys,
            AnyType::Struct(t),
            Value::Sequence(x),
            b,
        ),
        spec_compare_type(tys, AnyType::Struct(t), b, Value::Sequence(x2)) == spec_compare_type(
            tys,
            AnyType::Struct(t),
            b,
            Value::Sequence(x),
        ),
{
    match b {
        Value::Sequence(y) => {
            list_ignores_extensions(tys, field_refs(t.spec_fields()), x@, x2@, y@, 0);
        },
        _ => {},
    }
}

/// Only the values an enum variant defines are compared: values appended to a variant do
/// not change how it compares.
pub proof fn lemma_enum_compare_ignores_extensions(
    tys: Seq<AnyType>,
    e: TEnum,
    ordinal: u32,
    x: Vec<Value>,
    x2: Vec<Value>,
    b: Value,
)
    requires
        (ordinal as int) < e.spec_variants().len(),
        same_prefix(x@, x2@, e.spec_variants()[ordinal as int].spec_values().len() as int),
    ensures
        spec_compare_type(tys, AnyType::Enum(e), Value::Enum(ordinal, x2), b) == spec_compare_type(
            tys,
            AnyType::Enum(e),
            Value::Enum(ordinal, x),
            b,
        ),
        spec_compare_type(tys, AnyType::Enum(e), b, Value::Enum(ordinal, x2)) == spec_compare_type(
            tys,
            AnyType::Enum(e),
            b,
            Value::Enum(ordinal, x),
        ),
{
    match b {
        Value::Enum(o, y) => {
            if o == ordinal {
                list_ignores_extensions(
                    tys,
                    e.spec_variants()[ordinal as int].spec_values(),
                    x@,
                    x2@,
                    y@,
                    0,
                );
            }
        },
        _ => {},
    }
}

proof fn list_ignores_extensions(
    tys: Seq<AnyType>,
    refs: Seq<TypeRef>,
    x: Seq<Value>,
    x2: Seq<Value>,
    y: Seq<Value>,
    i: int,
)
    requires
        0 <= i,
        same_prefix(x, x2, refs.len() as int),
    ensures
        spec_compare_list(tys, refs, x2, y, i) == spec_compare_list(tys, refs, x, y, i),
        spec_compare_list(tys, refs, y, x2, i) == spec_compare_list(tys, refs, y, x, i),
    decreases refs.len() - i,
{
    if i < refs.len() {
        assert(x[i] == x2[i]);
        list_ignores_extensions(tys, refs, x, x2, y, i + 1);
    }
}

} // verus!
