//! Equality of types: two types are the same when they are of the same kind and agree in
//! every property (metadata, ranges, orderings, references, names), texts and sequences
//! compared by their contents.
use vstd::prelude::*;
use crate::any_type::AnyType;
use crate::enumeration::Variant;
use crate::metadata::{Meta, Uuid, implements_uuids};
use crate::structure::Field;

verus! {

/// Both metadata hold the same documentation and the same UUIDs.
pub open spec fn same_meta(a: Meta, b: Meta) -> bool {
    &&& a.doc.is_some() == b.doc.is_some()
    &&& (a.doc is Some ==> a.doc->0@ == b.doc->0@)
    &&& a.implements.is_some() == b.implements.is_some()
    &&& implements_uuids(a.implements).len() == implements_uuids(b.implements).len()
    &&& forall|i: int|
        0 <= i < implements_uuids(a.implements).len() ==> (#[trigger] implements_uuids(
            a.implements,
        )[i]).0@ == implements_uuids(b.implements)[i].0@
}

/// The fields have the same names and references, in the same order.
pub open spec fn same_fields(a: Seq<Field>, b: Seq<Field>) -> bool {
    &&& a.len() == b.len()
    &&& forall|i: int|
        0 <= i < a.len() ==> (#[trigger] a[i]).spec_name().view() == b[i].spec_name().view()
            && a[i].spec_type_ref() == b[i].spec_type_ref()
}

/// The variants have the same names and values, in the same order.
pub open spec fn same_variants(a: Seq<Variant>, b: Seq<Variant>) -> bool {
    &&& a.len() == b.len()
    &&& forall|i: int|
        0 <= i < a.len() ==> (#[trigger] a[i]).spec_name().view() == b[i].spec_name().view()
            && a[i].spec_values() == b[i].spec_values()
}

/// Both types are of the same kind and agree in every property.
pub open spec fn same_type(a: AnyType, b: AnyType) -> bool {
    same_meta(a.spec_meta(), b.spec_meta()) && match (a, b) {
        (AnyType::Bool(_), AnyType::Bool(_)) => true,
        (AnyType::Uuid(_), AnyType::Uuid(_)) => true,
        (AnyType::Reference(_), AnyType::Reference(_)) => true,
        (AnyType::KeyRef(x), AnyType::KeyRef(y)) => x.spec_level() == y.spec_level(),
        (AnyType::Option(x), AnyType::Option(y)) => x.spec_type_ref() == y.spec_type_ref(),
        (AnyType::Sequence(x), AnyType::Sequence(y)) => x.element == y.element
            && x.length.spec_start() == y.length.spec_start() && x.length.spec_end()
            == y.length.spec_end() && x.ordering == y.ordering && x.multiple_of == y.multiple_of,
        (AnyType::Binary(x), AnyType::Binary(y)) => x.spec_length().spec_start()
            == y.spec_length().spec_start() && x.spec_length().spec_end()
            == y.spec_length().spec_end(),
        (AnyType::UInt(x), AnyType::UInt(y)) => x.range.spec_start() == y.range.spec_start()
            && x.range.spec_end() == y.range.spec_end(),
        (AnyType::SInt(x), AnyType::SInt(y)) => x.spec_range().spec_start()
            == y.spec_range().spec_start() && x.spec_range().spec_end()
            == y.spec_range().spec_end(),
        (AnyType::Enum(x), AnyType::Enum(y)) => same_variants(x.spec_variants(), y.spec_variants()),
        (AnyType::Struct(x), AnyType::Struct(y)) => same_fields(x.spec_fields(), y.spec_fields()),
        (AnyType::Mapping(x), AnyType::Mapping(y)) => x.spec_key() == y.spec_key()
            && x.spec_value() == y.spec_value() && x.spec_length().spec_start()
            == y.spec_length().spec_start() && x.spec_length().spec_end()
            == y.spec_length().spec_end() && x.spec_sorting() == y.spec_sorting()
            && x.spec_anchors() == y.spec_anchors(),
        (AnyType::RootMap(x), AnyType::RootMap(y)) => x.spec_root() == y.spec_root()
            && x.spec_key() == y.spec_key() && x.spec_value() == y.spec_value()
            && x.spec_length().spec_start() == y.spec_length().spec_start()
            && x.spec_length().spec_end() == y.spec_length().spec_end() && x.spec_sorting()
            == y.spec_sorting(),
        (AnyType::Range(x), AnyType::Range(y)) => x.element == y.element && x.inclusion
            == y.inclusion && x.allow_equal == y.allow_equal,
        (AnyType::Anchors(x), AnyType::Anchors(y)) => x.spec_master() == y.spec_master()
            && x.spec_anchor() == y.spec_anchor() && x.spec_max_anchors() == y.spec_max_anchors(),
        (AnyType::Ascii(x), AnyType::Ascii(y)) => x.length.spec_start() == y.length.spec_start()
            && x.length.spec_end() == y.length.spec_end() && x.codes.spec_ranges()
            == y.codes.spec_ranges(),
        (AnyType::Unicode(x), AnyType::Unicode(y)) => x.length.spec_start()
            == y.length.spec_start() && x.length.spec_end() == y.length.spec_end()
            && x.length_type == y.length_type,
        _ => false,
    }
}

fn same_uuid(a: &Uuid, b: &Uuid) -> (r: bool)
    ensures
        r == (a.0@ == b.0@),
{
    let mut i: usize = 0;
    while i < 16
        invariant
            0 <= i <= 16,
            a.0@.len() == 16,
            b.0@.len() == 16,
            forall|j: int| 0 <= j < i ==> a.0@[j] == b.0@[j],
        decreases 16 - i,
    {
        if a.0[i] != b.0[i] {
            return false;
        }
        i += 1;
    }
    assert(a.0@ =~= b.0@);
    true
}

/// True if both metadata hold the same documentation and the same UUIDs.
pub fn is_same_meta(a: &Meta, b: &Meta) -> (r: bool)
    ensures
        r == same_meta(*a, *b),
{
    let same_doc = match (&a.doc, &b.doc) {
        (Some(x), Some(y)) => *x == *y,
        (None, None) => true,
        _ => false,
    };
    if !same_doc || a.implements.is_some() != b.implements.is_some() {
        return false;
    }
    let x = a.implements();
    let y = b.implements();
    if x.len() != y.len() {
        return false;
    }
    let mut i: usize = 0;
    while i < x.len()
        invariant
            0 <= i <= x@.len(),
            x@.len() == y@.len(),
            x@ == implements_uuids(a.implements),
            y@ == implements_uuids(b.implements),
            forall|j: int| 0 <= j < i ==> (#[trigger] x@[j]).0@ == y@[j].0@,
        decreases x@.len() - i,
    {
        if !same_uuid(&x[i], &y[i]) {
            return false;
        }
        i += 1;
    }
    true
}

fn is_same_fields(a: &[Field], b: &[Field]) -> (r: bool)
    ensures
        r == same_fields(a@, b@),
{
    if a.len() != b.len() {
        return false;
    }
    let mut i: usize = 0;
    while i < a.len()
        invariant
            0 <= i <= a@.len(),
            a@.len() == b@.len(),
            forall|j: int|
                0 <= j < i ==> (#[trigger] a@[j]).spec_name().view() == b@[j].spec_name().view()
                    && a@[j].spec_type_ref() == b@[j].spec_type_ref(),
        decreases a@.len() - i,
    {
        if !a[i].name().is_equal(b[i].name()) || *a[i].type_ref() != *b[i].type_ref() {
            return false;
        }
        i += 1;
    }
    true
}

fn is_same_variants(a: &[Variant], b: &[Variant]) -> (r: bool)
    ensures
        r == same_variants(a@, b@),
{
    if a.len() != b.len() {
        return false;
    }
    let mut i: usize = 0;
    while i < a.len()
        invariant
            0 <= i <= a@.len(),
            a@.len() == b@.len(),
            forall|j: int|
                0 <= j < i ==> (#[trigger] a@[j]).spec_name().view() == b@[j].spec_name().view()
                    && a@[j].spec_values() == b@[j].spec_values(),
        decreases a@.len() - i,
    {
        if !a[i].name().is_equal(b[i].name()) {
            return false;
        }
        let x = a[i].values();
        let y = b[i].values();
        if x.len() != y.len() {
            return false;
        }
        let mut k: usize = 0;
        while k < x.len()
            invariant
                0 <= k <= x@.len(),
                x@.len() == y@.len(),
                0 <= i < a@.len(),
                a@.len() == b@.len(),
                x@ == a@[i as int].spec_values(),
                y@ == b@[i as int].spec_values(),
                forall|m: int| 0 <= m < k ==> x@[m] == y@[m],
            decreases x@.len() - k,
        {
            if x[k] != y[k] {
                assert(a@[i as int].spec_values()[k as int] != b@[i as int].spec_values()[k as int]);
                return false;
            }
            k += 1;
        }
        assert(x@ =~= y@);
        i += 1;
    }
    true
}

fn is_same_codes(a: &[(u32, u32)], b: &[(u32, u32)]) -> (r: bool)
    ensures
        r == (a@ == b@),
{
    if a.len() != b.len() {
        return false;
    }
    let mut i: usize = 0;
    while i < a.len()
        invariant
            0 <= i <= a@.len(),
            a@.len() == b@.len(),
            forall|j: int| 0 <= j < i ==> a@[j] == b@[j],
        decreases a@.len() - i,
    {
        if a[i].0 != b[i].0 || a[i].1 != b[i].1 {
            return false;
        }
        i += 1;
    }
    assert(a@ =~= b@);
    true
}

/// True if both types are the same (see `same_type`).
pub fn is_same_type(a: &AnyType, b: &AnyType) -> (r: bool)
    ensures
        r == same_type(*a, *b),
{
    if !is_same_meta(a.meta(), b.meta()) {
        return false;
    }
    match (a, b) {
        (AnyType::Bool(_), AnyType::Bool(_)) => true,
        (AnyType::Uuid(_), AnyType::Uuid(_)) => true,
        (AnyType::Reference(_), AnyType::Reference(_)) => true,
        (AnyType::KeyRef(x), AnyType::KeyRef(y)) => x.level() == y.level(),
        (AnyType::Option(x), AnyType::Option(y)) => *x.type_ref() == *y.type_ref(),
        (AnyType::Sequence(x), AnyType::Sequence(y)) => x.element == y.element
            && x.length.start() == y.length.start() && x.length.end() == y.length.end()
            && x.ordering == y.ordering && x.multiple_of == y.multiple_of,
        (AnyType::Binary(x), AnyType::Binary(y)) => x.length().start() == y.length().start()
            && x.length().end() == y.length().end(),
        (AnyType::UInt(x), AnyType::UInt(y)) => x.range.start() == y.range.start()
            && x.range.end() == y.range.end(),
        (AnyType::SInt(x), AnyType::SInt(y)) => x.range().start() == y.range().start()
            && x.range().end() == y.range().end(),
        (AnyType::Enum(x), AnyType::Enum(y)) => is_same_variants(x.variants(), y.variants()),
        (AnyType::Struct(x), AnyType::Struct(y)) => is_same_fields(x.fields(), y.fields()),
        (AnyType::Mapping(x), AnyType::Mapping(y)) => *x.key() == *y.key() && *x.value()
            == *y.value() && x.length().start() == y.length().start() && x.length().end()
            == y.length().end() && x.sorting() == y.sorting() && x.anchors() == y.anchors(),
        (AnyType::RootMap(x), AnyType::RootMap(y)) => x.root() == y.root() && x.key() == y.key()
            && x.value() == y.value() && x.length().start() == y.length().start()
            && x.length().end() == y.length().end() && x.sorting() == y.sorting(),
        (AnyType::Range(x), AnyType::Range(y)) => x.element == y.element && x.inclusion
            == y.inclusion && x.allow_equal == y.allow_equal,
        (AnyType::Anchors(x), AnyType::Anchors(y)) => x.master() == y.master() && x.anchor()
            == y.anchor() && x.max_anchors() == y.max_anchors(),
        (AnyType::Ascii(x), AnyType::Ascii(y)) => x.length.start() == y.length.start()
            && x.length.end() == y.length.end() && is_same_codes(
            x.codes.ranges(),
            y.codes.ranges(),
        ),
        (AnyType::Unicode(x), AnyType::Unicode(y)) => x.length.start() == y.length.start()
            && x.length.end() == y.length.end() && x.length_type == y.length_type,
        _ => false,
    }
}

} // verus!
