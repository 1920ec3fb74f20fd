//! What validating data against a schema, and comparing two values of a type, mean.
use vstd::prelude::*;
use crate::any_type::AnyType;
use crate::context::{
    KeyRefInfo, StateView, key_ref_info_at, pop_key_ref, push_key_ref,
};
use crate::error::LqError;
use crate::map::Sorting;
use crate::range::Inclusion;
use crate::schema_core::{Cmp, Config, TypeRef, order_bool, order_bytes, order_int};
use crate::seq::{Direction, SeqOrdering, Sorted};
use crate::structure::field_refs;
use crate::value::Value;
use vstd::string::StringSliceAdditionalSpecFns;
use vstd::utf8::encode_utf8;

verus! {

/// The type reference `r`, `n` times (the element types of an unordered sequence).
pub open spec fn repeat_ref(r: TypeRef, n: nat) -> Seq<TypeRef> {
    Seq::new(n, |_i: int| r)
}

/// A type that can be validated without a division by zero: a sequence type's length
/// divisor, if it has one, is not zero.
pub open spec fn type_wf(t: AnyType) -> bool {
    match t {
        AnyType::Sequence(s) => s.multiple_of != Some(0u32),
        _ => true,
    }
}

/// All the given types can be validated (see `type_wf`).
pub open spec fn types_wf(tys: Seq<AnyType>) -> bool {
    forall|i: int| 0 <= i < tys.len() ==> type_wf(#[trigger] tys[i])
}

/// The key of a map entry `[key, value]`.
pub open spec fn entry_key(entry: Value) -> Value {
    match entry {
        Value::Sequence(kv) => if kv.len() >= 1 {
            kv[0]
        } else {
            Value::Absent
        },
        _ => Value::Absent,
    }
}

/// The result a key comparison (current key against previous key) must have.
pub open spec fn wanted_key_order(sorting: Sorting) -> Cmp {
    match sorting {
        Sorting::Ascending => Cmp::Greater,
        Sorting::Descending => Cmp::Less,
    }
}

/// The error for two neighbouring elements `previous` and `current` of a sorted sequence
/// that compare as `c` (previous against current); `None` if they are in order.
pub open spec fn sorting_error(c: Cmp, sorted: Sorted) -> Option<LqError> {
    match c {
        Cmp::Greater => if sorted.direction != Direction::Descending {
            Some(LqError::WrongOrdering)
        } else {
            None
        },
        Cmp::Less => if sorted.direction != Direction::Ascending {
            Some(LqError::WrongOrdering)
        } else {
            None
        },
        Cmp::Equal => if sorted.unique {
            Some(LqError::DuplicateElement)
        } else {
            None
        },
    }
}

/// Returns the error for two neighbouring elements of a sorted sequence that compare as `c`
/// (previous against current); `None` if they are in order.
pub fn check_sorting(c: Cmp, sorted: Sorted) -> (r: Option<LqError>)
    ensures
        r == sorting_error(c, sorted),
{
    match c {
        Cmp::Greater => if sorted.direction != Direction::Descending {
            Some(LqError::WrongOrdering)
        } else {
            None
        },
        Cmp::Less => if sorted.direction != Direction::Ascending {
            Some(LqError::WrongOrdering)
        } else {
            None
        },
        Cmp::Equal => if sorted.unique {
            Some(LqError::DuplicateElement)
        } else {
            None
        },
    }
}

/// The result a comparison of a map key with the previous key must have.
pub fn key_order(sorting: Sorting) -> (r: Cmp)
    ensures
        r == wanted_key_order(sorting),
{
    match sorting {
        Sorting::Ascending => Cmp::Greater,
        Sorting::Descending => Cmp::Less,
    }
}

/// The outcome of an executable validation step that returned `r` and left the state
/// `after` matches the outcome `expected` of the specification: on success the same state,
/// on failure the same error.
pub open spec fn outcome_matches(
    r: Result<(), LqError>,
    after: StateView,
    expected: Result<StateView, LqError>,
) -> bool {
    match expected {
        Ok(st) => r is Ok && after == st,
        Err(e) => r == Err::<(), LqError>(e),
    }
}

/// Compares `a` and `b` as values of the type `r` refers to.
pub open spec fn spec_compare_ref(tys: Seq<AnyType>, r: TypeRef, a: Value, b: Value) -> Result<
    Cmp,
    LqError,
>
    decreases a, 1nat,
{
    if (r.0 as int) < tys.len() {
        spec_compare_type(tys, tys[r.0 as int], a, b)
    } else {
        Err(LqError::TypeNotFound)
    }
}

/// Compares `a` and `b` as values of type `t`. Only what the schema defines is compared
/// (extension fields and values are ignored), so that arbitrary extra data cannot make equal
/// values unequal.
pub open spec fn spec_compare_type(tys: Seq<AnyType>, t: AnyType, a: Value, b: Value) -> Result<
    Cmp,
    LqError,
>
    decreases a, 0nat,
{
    match t {
        AnyType::Bool(_) => match (a, b) {
            (Value::Bool(x), Value::Bool(y)) => Ok(order_bool(x, y)),
            _ => Err(LqError::UnexpectedValue),
        },
        AnyType::UInt(_) => match (a, b) {
            (Value::UInt(x), Value::UInt(y)) => Ok(order_int(x as int, y as int)),
            _ => Err(LqError::UnexpectedValue),
        },
        AnyType::SInt(_) => match (a, b) {
            (Value::SInt(x), Value::SInt(y)) => Ok(order_int(x as int, y as int)),
            _ => Err(LqError::UnexpectedValue),
        },
        AnyType::Binary(_) => match (a, b) {
            (Value::Binary(x), Value::Binary(y)) => Ok(order_bytes(x@, y@)),
            _ => Err(LqError::UnexpectedValue),
        },
        AnyType::Uuid(_) => match (a, b) {
            (Value::Binary(x), Value::Binary(y)) => Ok(order_bytes(x@, y@)),
            _ => Err(LqError::UnexpectedValue),
        },
        AnyType::Ascii(_) => match (a, b) {
            (Value::Unicode(x), Value::Unicode(y)) => Ok(
                order_bytes(encode_utf8(x@), encode_utf8(y@)),
            ),
            _ => Err(LqError::UnexpectedValue),
        },
        AnyType::Unicode(_) => match (a, b) {
            (Value::Unicode(x), Value::Unicode(y)) => Ok(
                order_bytes(encode_utf8(x@), encode_utf8(y@)),
            ),
            _ => Err(LqError::UnexpectedValue),
        },
        AnyType::KeyRef(_) => match (a, b) {
            (Value::UInt(x), Value::UInt(y)) => if x > u32::MAX || y > u32::MAX {
                Err(LqError::UnexpectedValue)
            } else {
                Ok(order_int(x as int, y as int))
            },
            _ => Err(LqError::UnexpectedValue),
        },
        AnyType::Reference(_) => match (a, b) {
            (Value::UInt(x), Value::UInt(y)) => if x > u32::MAX || y > u32::MAX {
                Err(LqError::UnexpectedValue)
            } else {
                Ok(order_int(x as int, y as int))
            },
            _ => Err(LqError::UnexpectedValue),
        },
        AnyType::Option(o) => match (a, b) {
            (Value::Absent, Value::Absent) => Ok(Cmp::Equal),
            (Value::Present(x), Value::Present(y)) => spec_compare_ref(
                tys,
                o.spec_type_ref(),
                *x,
                *y,
            ),
            (Value::Absent, Value::Present(_)) => Ok(Cmp::Less),
            (Value::Present(_), Value::Absent) => Ok(Cmp::Greater),
            _ => Err(LqError::UnexpectedValue),
        },
        AnyType::Sequence(s) => match (a, b) {
            (Value::Sequence(x), Value::Sequence(y)) => spec_compare_lex(tys, s.element, x@, y@, 0),
            _ => Err(LqError::UnexpectedValue),
        },
        AnyType::Struct(st) => match (a, b) {
            (Value::Sequence(x), Value::Sequence(y)) => spec_compare_list(
                tys,
                field_refs(st.spec_fields()),
                x@,
                y@,
                0,
            ),
            _ => Err(LqError::UnexpectedValue),
        },
        AnyType::Enum(e) => match (a, b) {
            (Value::Enum(o1, x), Value::Enum(o2, y)) => if o1 != o2 {
                Ok(order_int(o1 as int, o2 as int))
            } else if (o1 as int) >= e.spec_variants().len() {
                Err(LqError::NoSuchVariant)
            } else {
                spec_compare_list(tys, e.spec_variants()[o1 as int].spec_values(), x@, y@, 0)
            },
            _ => Err(LqError::UnexpectedValue),
        },
        AnyType::Mapping(m) => match (a, b) {
            (Value::Sequence(x), Value::Sequence(y)) => spec_compare_entries(
                tys,
                m.spec_key(),
                m.spec_value(),
                x@,
                y@,
                0,
            ),
            _ => Err(LqError::UnexpectedValue),
        },
        AnyType::RootMap(m) => match (a, b) {
            (Value::Sequence(x), Value::Sequence(y)) => if x.len() != 2 || y.len() != 2 {
                Err(LqError::MalformedRootMap)
            } else {
                match (x[0], y[0]) {
                    (Value::Sequence(ex), Value::Sequence(ey)) => match spec_compare_entries(
                        tys,
                        m.spec_key(),
                        m.spec_value(),
                        ex@,
                        ey@,
                        0,
                    ) {
                        Ok(Cmp::Equal) => spec_compare_ref(tys, m.spec_root(), x[1], y[1]),
                        other => other,
                    },
                    _ => Err(LqError::UnexpectedValue),
                }
            },
            _ => Err(LqError::UnexpectedValue),
        },
        AnyType::Range(rg) => match (a, b) {
            (Value::Sequence(x), Value::Sequence(y)) => if x.len() != y.len() || x.len() < 2 {
                Err(LqError::RangeLength)
            } else {
                match spec_compare_ref(tys, rg.element, x[0], y[0]) {
                    Ok(Cmp::Equal) => match spec_compare_ref(tys, rg.element, x[1], y[1]) {
                        Ok(Cmp::Equal) => if x.len() == 4 {
                            match (x[2], y[2]) {
                                (Value::Bool(a2), Value::Bool(b2)) => if a2 != b2 {
                                    Ok(order_bool(a2, b2))
                                } else {
                                    match (x[3], y[3]) {
                                        (Value::Bool(a3), Value::Bool(b3)) => Ok(
                                            order_bool(a3, b3),
                                        ),
                                        _ => Err(LqError::UnexpectedValue),
                                    }
                                },
                                _ => Err(LqError::UnexpectedValue),
                            }
                        } else {
                            Ok(Cmp::Equal)
                        },
                        other => other,
                    },
                    other => other,
                }
            },
            _ => Err(LqError::UnexpectedValue),
        },
        AnyType::Anchors(an) => match (a, b) {
            (Value::Sequence(x), Value::Sequence(y)) => if x.len() != 2 || y.len() != 2 {
                Err(LqError::MalformedAnchors)
            } else {
                match spec_compare_ref(tys, an.spec_master(), x[0], y[0]) {
                    Ok(Cmp::Equal) => match (x[1], y[1]) {
                        (Value::Sequence(ax), Value::Sequence(ay)) => spec_compare_lex(
                            tys,
                            an.spec_anchor(),
                            ax@,
                            ay@,
                            0,
                        ),
                        _ => Err(LqError::UnexpectedValue),
                    },
                    other => other,
                }
            },
            _ => Err(LqError::UnexpectedValue),
        },
    }
}

/// Lexicographic comparison of two sequences of values of type `r`, starting at index `i`:
/// the first unequal pair decides; if one is a prefix of the other the shorter is less.
pub open spec fn spec_compare_lex(
    tys: Seq<AnyType>,
    r: TypeRef,
    x: Seq<Value>,
    y: Seq<Value>,
    i: int,
) -> Result<Cmp, LqError>
    decreases x, x.len() - i,
{
    if 0 <= i < x.len() && i < y.len() {
        match spec_compare_ref(tys, r, x[i], y[i]) {
            Ok(Cmp::Equal) => spec_compare_lex(tys, r, x, y, i + 1),
            other => other,
        }
    } else {
        Ok(order_int(x.len() as int, y.len() as int))
    }
}

/// Compares the values `x[i..]` and `y[i..]` pairwise as values of the types `refs[i..]`;
/// the first unequal pair decides; equal if all are equal.
pub open spec fn spec_compare_list(
    tys: Seq<AnyType>,
    refs: Seq<TypeRef>,
    x: Seq<Value>,
    y: Seq<Value>,
    i: int,
) -> Result<Cmp, LqError>
    decreases x, refs.len() - i,
{
    if 0 <= i < refs.len() {
        if i < x.len() && i < y.len() {
            match spec_compare_ref(tys, refs[i], x[i], y[i]) {
                Ok(Cmp::Equal) => spec_compare_list(tys, refs, x, y, i + 1),
                other => other,
            }
        } else {
            Err(LqError::UnexpectedValue)
        }
    } else {
        Ok(Cmp::Equal)
    }
}

/// Compares map entries `x[i..]` and `y[i..]` pairwise (key first, then value); if all
/// compared entries are equal, the map with fewer entries is less.
pub open spec fn spec_compare_entries(
    tys: Seq<AnyType>,
    key: TypeRef,
    value: TypeRef,
    x: Seq<Value>,
    y: Seq<Value>,
    i: int,
) -> Result<Cmp, LqError>
    decreases x, x.len() - i,
{
    if 0 <= i < x.len() && i < y.len() {
        match (x[i], y[i]) {
            (Value::Sequence(kx), Value::Sequence(ky)) => if kx.len() != 2 || ky.len() != 2 {
                Err(LqError::MalformedMapEntry)
            } else {
                match spec_compare_ref(tys, key, kx[0], ky[0]) {
                    Ok(Cmp::Equal) => match spec_compare_ref(tys, value, kx[1], ky[1]) {
                        Ok(Cmp::Equal) => spec_compare_entries(tys, key, value, x, y, i + 1),
                        other => other,
                    },
                    other => other,
                }
            },
            _ => Err(LqError::MalformedMapEntry),
        }
    } else {
        Ok(order_int(x.len() as int, y.len() as int))
    }
}

/// Validates `v` against the type `r` refers to, starting in state `st`; on success, the
/// state after the value.
pub open spec fn spec_validate_ref(
    tys: Seq<AnyType>,
    cfg: Config,
    r: TypeRef,
    v: Value,
    st: StateView,
) -> Result<StateView, LqError>
    decreases v, 1nat,
{
    if (r.0 as int) < tys.len() {
        spec_validate_type(tys, cfg, tys[r.0 as int], v, st)
    } else {
        Err(LqError::TypeNotFound)
    }
}

/// Validates `v` against type `t`, starting in state `st`; on success, the state after the
/// value.
pub open spec fn spec_validate_type(
    tys: Seq<AnyType>,
    cfg: Config,
    t: AnyType,
    v: Value,
    st: StateView,
) -> Result<StateView, LqError>
    decreases v, 0nat,
{
    match t {
        AnyType::Bool(_) => match v {
            Value::Bool(_) => Ok(st),
            _ => Err(LqError::UnexpectedValue),
        },
        AnyType::UInt(u) => match v {
            Value::UInt(n) => if u.range.spec_contains(n as int) {
                Ok(st)
            } else {
                Err(LqError::NotWithinRange)
            },
            _ => Err(LqError::UnexpectedValue),
        },
        AnyType::SInt(s) => match v {
            Value::SInt(n) => if s.spec_range().spec_contains(n as int) {
                Ok(st)
            } else {
                Err(LqError::NotWithinRange)
            },
            _ => Err(LqError::UnexpectedValue),
        },
        AnyType::Binary(b) => match v {
            Value::Binary(bytes) => if b.spec_length().spec_contains(bytes.len() as int) {
                Ok(st)
            } else {
                Err(LqError::NotWithinRange)
            },
            _ => Err(LqError::UnexpectedValue),
        },
        AnyType::Ascii(t) => match v {
            Value::Unicode(text) => if !t.length.spec_contains(encode_utf8(text@).len() as int) {
                Err(LqError::NotWithinRange)
            } else if forall|i: int|
                0 <= i < encode_utf8(text@).len() ==> t.codes.spec_contains(
                    #[trigger] encode_utf8(text@)[i] as int,
                ) {
                Ok(st)
            } else {
                Err(LqError::InvalidCharacter)
            },
            _ => Err(LqError::UnexpectedValue),
        },
        AnyType::Unicode(t) => match v {
            Value::Unicode(text) => if t.length.spec_contains(encode_utf8(text@).len() as int) {
                Ok(st)
            } else {
                Err(LqError::NotWithinRange)
            },
            _ => Err(LqError::UnexpectedValue),
        },
        AnyType::Uuid(_) => match v {
            Value::Binary(bytes) => if bytes.len() == 16 {
                Ok(st)
            } else {
                Err(LqError::UnexpectedValue)
            },
            _ => Err(LqError::UnexpectedValue),
        },
        AnyType::Option(o) => match v {
            Value::Absent => Ok(st),
            Value::Present(inner) => spec_validate_ref(tys, cfg, o.spec_type_ref(), *inner, st),
            _ => Err(LqError::UnexpectedValue),
        },
        AnyType::Sequence(s) => match v {
            Value::Sequence(items) => if items.len() > u32::MAX {
                Err(LqError::UnexpectedValue)
            } else if !s.length.spec_contains(items.len() as int) {
                Err(LqError::NotWithinRange)
            } else if s.multiple_of matches Some(m) && (items.len() as int) % (m as int) != 0 {
                Err(LqError::NotMultipleOf)
            } else {
                match s.ordering {
                    SeqOrdering::Unordered => spec_validate_list(
                        tys,
                        cfg,
                        repeat_ref(s.element, items.len() as nat),
                        items@,
                        0,
                        st,
                    ),
                    SeqOrdering::Sorted(sorted) => spec_validate_sorted(
                        tys,
                        cfg,
                        s.element,
                        sorted,
                        items@,
                        0,
                        st,
                    ),
                }
            },
            _ => Err(LqError::UnexpectedValue),
        },
        AnyType::Struct(t) => match v {
            Value::Sequence(items) => if items.len() > u32::MAX {
                Err(LqError::UnexpectedValue)
            } else if t.spec_fields().len() > u32::MAX {
                Err(LqError::TooManyElements)
            } else if cfg.no_extension && items.len() != t.spec_fields().len() {
                Err(LqError::StructLengthMismatch)
            } else if !cfg.no_extension && items.len() < t.spec_fields().len() {
                Err(LqError::MissingFields)
            } else {
                spec_validate_list(tys, cfg, field_refs(t.spec_fields()), items@, 0, st)
            },
            _ => Err(LqError::UnexpectedValue),
        },
        AnyType::Enum(e) => match v {
            Value::Enum(ordinal, vals) => if (ordinal as int) >= e.spec_variants().len() {
                Err(LqError::NoSuchVariant)
            } else if vals.len() > u32::MAX {
                Err(LqError::UnexpectedValue)
            } else if cfg.no_extension && vals.len() != e.spec_variants()[ordinal as int].spec_values().len() {
                Err(LqError::VariantValuesMismatch)
            } else if vals.len() < e.spec_variants()[ordinal as int].spec_values().len() {
                Err(LqError::MissingVariantValues)
            } else {
                spec_validate_list(
                    tys,
                    cfg,
                    e.spec_variants()[ordinal as int].spec_values(),
                    vals@,
                    0,
                    st,
                )
            },
            _ => Err(LqError::UnexpectedValue),
        },
        AnyType::Mapping(m) => match v {
            Value::Sequence(entries) => if entries.len() > u32::MAX {
                Err(LqError::UnexpectedValue)
            } else if !m.spec_length().spec_contains(entries.len() as int) {
                Err(LqError::NotWithinRange)
            } else {
                let st1 = if m.spec_anchors() {
                    push_key_ref(st, KeyRefInfo::spec_new(entries.len() as u32))
                } else {
                    st
                };
                match spec_validate_entries(
                    tys,
                    cfg,
                    m.spec_key(),
                    m.spec_value(),
                    m.spec_sorting(),
                    m.spec_anchors(),
                    entries@,
                    0,
                    st1,
                ) {
                    Ok(st2) => if m.spec_anchors() {
                        pop_key_ref(st2)
                    } else {
                        Ok(st2)
                    },
                    Err(e) => Err(e),
                }
            },
            _ => Err(LqError::UnexpectedValue),
        },
        AnyType::RootMap(m) => match v {
            Value::Sequence(outer) => if outer.len() != 2 {
                Err(LqError::MalformedRootMap)
            } else {
                match outer[0] {
                    Value::Sequence(entries) => if entries.len() > u32::MAX {
                        Err(LqError::UnexpectedValue)
                    } else if !m.spec_length().spec_contains(entries.len() as int) {
                        Err(LqError::NotWithinRange)
                    } else {
                        match spec_validate_entries(
                            tys,
                            cfg,
                            m.spec_key(),
                            m.spec_value(),
                            m.spec_sorting(),
                            true,
                            entries@,
                            0,
                            push_key_ref(st, KeyRefInfo::spec_new(entries.len() as u32)),
                        ) {
                            Ok(st2) => match spec_validate_ref(tys, cfg, m.spec_root(), outer[1], st2) {
                                Ok(st3) => pop_key_ref(st3),
                                Err(e) => Err(e),
                            },
                            Err(e) => Err(e),
                        }
                    },
                    _ => Err(LqError::UnexpectedValue),
                }
            },
            _ => Err(LqError::UnexpectedValue),
        },
        AnyType::KeyRef(k) => match v {
            Value::UInt(n) => if n > u32::MAX {
                Err(LqError::UnexpectedValue)
            } else {
                match key_ref_info_at(st, k.spec_level()) {
                    Some(info) => if n >= info.spec_map_len() {
                        Err(LqError::KeyRefOutOfBounds)
                    } else {
                        Ok(st)
                    },
                    None => Err(LqError::KeyRefWithoutMap),
                }
            },
            _ => Err(LqError::UnexpectedValue),
        },
        AnyType::Range(rg) => match v {
            Value::Sequence(items) => if items.len() != (if rg.inclusion == Inclusion::Supplied {
                4int
            } else {
                2int
            }) {
                Err(LqError::RangeLength)
            } else {
                match spec_validate_ref(tys, cfg, rg.element, items[0], st) {
                    Ok(st1) => match spec_validate_ref(tys, cfg, rg.element, items[1], st1) {
                        Ok(st2) => if items.len() == 4 && !(items[2] is Bool && items[3] is Bool) {
                            Err(LqError::UnexpectedValue)
                        } else {
                            match spec_compare_ref(tys, rg.element, items[0], items[1]) {
                                Ok(Cmp::Greater) => Err(LqError::RangeStartGreaterThanEnd),
                                Ok(Cmp::Equal) => if rg.allow_equal {
                                    Ok(st2)
                                } else {
                                    Err(LqError::RangeStartEqualsEnd)
                                },
                                Ok(Cmp::Less) => Ok(st2),
                                Err(e) => Err(e),
                            }
                        },
                        Err(e) => Err(e),
                    },
                    Err(e) => Err(e),
                }
            },
            _ => Err(LqError::UnexpectedValue),
        },
        AnyType::Anchors(a) => match v {
            Value::Sequence(container) => if container.len() != 2 {
                Err(LqError::MalformedAnchors)
            } else {
                match spec_validate_ref(
                    tys,
                    cfg,
                    a.spec_master(),
                    container[0],
                    StateView {
                        anchor_index: Some(0u32),
                        max_used_anchor_index: Some(0u32),
                        ..st
                    },
                ) {
                    Ok(st2) => match container[1] {
                        Value::Sequence(anchors) => if anchors.len() > u32::MAX {
                            Err(LqError::UnexpectedValue)
                        } else if a.spec_max_anchors() matches Some(mx) && anchors.len() > mx {
                            Err(LqError::TooManyAnchors)
                        } else {
                            match spec_validate_anchors(tys, cfg, a.spec_anchor(), anchors@, 0, st2) {
                                Ok(st3) => if st3.max_used_anchor_index matches Some(mu) && mu
                                    >= anchors.len() + 1 {
                                    Err(LqError::AnchorOverflow)
                                } else {
                                    Ok(
                                        StateView {
                                            anchor_index: st.anchor_index,
                                            max_used_anchor_index: st.max_used_anchor_index,
                                            ..st3
                                        },
                                    )
                                },
                                Err(e) => Err(e),
                            }
                        },
                        _ => Err(LqError::UnexpectedValue),
                    },
                    Err(e) => Err(e),
                }
            },
            _ => Err(LqError::UnexpectedValue),
        },
        AnyType::Reference(_) => match v {
            Value::UInt(n) => if n > u32::MAX {
                Err(LqError::UnexpectedValue)
            } else {
                match (st.anchor_index, st.max_used_anchor_index) {
                    (Some(_), Some(mu)) => if n > mu + 1 && !cfg.weak_reference_validation {
                        Err(LqError::ReferenceSkipsAnchor)
                    } else if n > mu {
                        Ok(StateView { max_used_anchor_index: Some(n as u32), ..st })
                    } else {
                        Ok(st)
                    },
                    _ => Err(LqError::ReferenceOutsideAnchors),
                }
            },
            _ => Err(LqError::UnexpectedValue),
        },
    }
}

/// Validates `items[i..]` in order against the types `refs[i..]`, threading the state.
pub open spec fn spec_validate_list(
    tys: Seq<AnyType>,
    cfg: Config,
    refs: Seq<TypeRef>,
    items: Seq<Value>,
    i: int,
    st: StateView,
) -> Result<StateView, LqError>
    decreases items, refs.len() - i,
{
    if 0 <= i < refs.len() {
        if i < items.len() {
            match spec_validate_ref(tys, cfg, refs[i], items[i], st) {
                Ok(st2) => spec_validate_list(tys, cfg, refs, items, i + 1, st2),
                Err(e) => Err(e),
            }
        } else {
            Err(LqError::UnexpectedValue)
        }
    } else {
        Ok(st)
    }
}

/// Validates the elements `items[i..]` of a sorted sequence: each element is validated,
/// then compared with the element before it.
pub open spec fn spec_validate_sorted(
    tys: Seq<AnyType>,
    cfg: Config,
    r: TypeRef,
    sorted: Sorted,
    items: Seq<Value>,
    i: int,
    st: StateView,
) -> Result<StateView, LqError>
    decreases items, items.len() - i,
{
    if 0 <= i < items.len() {
        match spec_validate_ref(tys, cfg, r, items[i], st) {
            Ok(st2) => if i > 0 {
                match spec_compare_ref(tys, r, items[i - 1], items[i]) {
                    Ok(c) => match sorting_error(c, sorted) {
                        Some(e) => Err(e),
                        None => spec_validate_sorted(tys, cfg, r, sorted, items, i + 1, st2),
                    },
                    Err(e) => Err(e),
                }
            } else {
                spec_validate_sorted(tys, cfg, r, sorted, items, i + 1, st2)
            },
            Err(e) => Err(e),
        }
    } else {
        Ok(st)
    }
}

/// Validates map entries `entries[i..]`: each entry is `[key, value]`; the key is validated
/// (with the innermost map hidden when the keys can be referenced, so that keys cannot
/// reference their own map), then the value; then the key is compared with the previous key.
pub open spec fn spec_validate_entries(
    tys: Seq<AnyType>,
    cfg: Config,
    key: TypeRef,
    value: TypeRef,
    sorting: Sorting,
    anchors: bool,
    entries: Seq<Value>,
    i: int,
    st: StateView,
) -> Result<StateView, LqError>
    decreases entries, entries.len() - i,
{
    if 0 <= i < entries.len() {
        match entries[i] {
            Value::Sequence(kv) => if kv.len() != 2 {
                Err(LqError::MalformedMapEntry)
            } else {
                let key_result = if anchors {
                    match pop_key_ref(st) {
                        Ok(popped) => match spec_validate_ref(tys, cfg, key, kv[0], popped) {
                            Ok(sk) => Ok(push_key_ref(sk, st.key_refs.last())),
                            Err(e) => Err(e),
                        },
                        Err(e) => Err(e),
                    }
                } else {
                    spec_validate_ref(tys, cfg, key, kv[0], st)
                };
                match key_result {
                    Ok(sk) => match spec_validate_ref(tys, cfg, value, kv[1], sk) {
                        Ok(sv) => if i > 0 {
                            match spec_compare_ref(tys, key, kv[0], entry_key(entries[i - 1])) {
                                Ok(c) => if c != wanted_key_order(sorting) {
                                    Err(LqError::MapKeyOrdering)
                                } else {
                                    spec_validate_entries(
                                        tys,
                                        cfg,
                                        key,
                                        value,
                                        sorting,
                                        anchors,
                                        entries,
                                        i + 1,
                                        sv,
                                    )
                                },
                                Err(e) => Err(e),
                            }
                        } else {
                            spec_validate_entries(
                                tys,
                                cfg,
                                key,
                                value,
                                sorting,
                                anchors,
                                entries,
                                i + 1,
                                sv,
                            )
                        },
                        Err(e) => Err(e),
                    },
                    Err(e) => Err(e),
                }
            },
            _ => Err(LqError::MalformedMapEntry),
        }
    } else {
        Ok(st)
    }
}

/// Validates the anchors `anchors[i..]` (anchor `i` has index `i + 1`; index 0 is the
/// master). Before an anchor is validated, it must have been referenced already.
pub open spec fn spec_validate_anchors(
    tys: Seq<AnyType>,
    cfg: Config,
    r: TypeRef,
    anchors: Seq<Value>,
    i: int,
    st: StateView,
) -> Result<StateView, LqError>
    decreases anchors, anchors.len() - i,
{
    if 0 <= i < anchors.len() {
        match st.max_used_anchor_index {
            Some(mu) => if mu < i + 1 && !cfg.weak_reference_validation {
                Err(LqError::UnusedAnchor)
            } else {
                match spec_validate_ref(
                    tys,
                    cfg,
                    r,
                    anchors[i],
                    StateView { anchor_index: Some((i + 1) as u32), ..st },
                ) {
                    Ok(st2) => spec_validate_anchors(tys, cfg, r, anchors, i + 1, st2),
                    Err(e) => Err(e),
                }
            },
            None => Err(LqError::NoMaxUsedAnchorIndex),
        }
    } else {
        Ok(st)
    }
}

} // verus!
