//! The schema of schemas: the types a schema is made of, each described by a schema type,
//! so that a schema can be written as data. Every type is filed under an identifier; what is
//! filed under each identifier is stated by a spec function (`<identifier>_schema`), and
//! `described` joins them.
use vstd::prelude::*;
use crate::anchors::TAnchors;
use crate::any_type::AnyType;
use crate::ascii::{CodeRange, TAscii};
use crate::binary::TBinary;
use crate::boolean::TBool;
use crate::enumeration::{TEnum, Variant, variants_refs};
use crate::error::LqError;
use crate::identifier::{Identifier, name};
use crate::ine_range::{U32IneRange, U64IneRange};
use crate::key_ref::TKeyRef;
use crate::map::TMap;
use crate::metadata::{Meta, WithMetadata};
use crate::option::TOption;
use crate::range::{Inclusion, TRange};
use crate::reference::TReference;
use crate::root_map::TRootMap;
use crate::schema_builder::{
    DefaultSchemaBuilder, Entry, entries_wf, finished, grows, refs_closed, refs_within,
    renumbered_by,
};
use crate::schema_core::TypeRef;
use crate::seq::{Direction, SeqOrdering, Sorted, TSeq};
use crate::sint::TSInt;
use crate::structure::{Field, TStruct, field_refs};
use crate::type_container::DefaultTypeContainer;
use crate::uint::TUInt;
use crate::unicode::{LengthType, TUnicode};
use crate::uuid::TUuid;
use crate::validation::{type_wf, types_wf};

verus! {

/// The entry at position `r` is filed under `id`.
pub open spec fn filed(e: Seq<Entry>, r: TypeRef, id: Seq<Seq<char>>) -> bool {
    (r.0 as int) < e.len() && e[r.0 as int].0 == id
}

/// The type has no documentation and implements nothing.
pub open spec fn plain(t: AnyType) -> bool {
    t.spec_meta().doc is None && t.spec_meta().implements is None
}

/// The fields have the given names, and their types are filed under the given identifiers.
pub open spec fn fields_are(
    fs: Seq<Field>,
    e: Seq<Entry>,
    names: Seq<Seq<Seq<char>>>,
    ids: Seq<Seq<Seq<char>>>,
) -> bool {
    &&& fs.len() == names.len()
    &&& ids.len() == names.len()
    &&& forall|i: int|
        0 <= i < fs.len() ==> (#[trigger] fs[i]).spec_name().view() == names[i] && filed(
            e,
            fs[i].spec_type_ref(),
            ids[i],
        )
}

/// The variants have the given names, and their values are filed under the given
/// identifiers.
pub open spec fn variants_are(
    vs: Seq<Variant>,
    e: Seq<Entry>,
    names: Seq<Seq<Seq<char>>>,
    values: Seq<Seq<Seq<Seq<char>>>>,
) -> bool {
    &&& vs.len() == names.len()
    &&& values.len() == names.len()
    &&& forall|i: int|
        0 <= i < vs.len() ==> (#[trigger] vs[i]).spec_name().view() == names[i]
            && vs[i].spec_values().len() == values[i].len() && forall|k: int|
            0 <= k < values[i].len() ==> filed(e, #[trigger] vs[i].spec_values()[k], values[i][k])
}

/// `e2` is `e` with entries appended.
pub open spec fn prefix_of(e: Seq<Entry>, e2: Seq<Entry>) -> bool {
    e.len() <= e2.len() && forall|i: int| 0 <= i < e.len() ==> #[trigger] e2[i] == e[i]
}

/// Every entry is described (see `described`).
pub open spec fn described_all(e: Seq<Entry>) -> bool {
    forall|j: int| 0 <= j < e.len() ==> described(#[trigger] e[j].0, e[j].1, e)
}

proof fn lemma_fields_are_grows(
    fs: Seq<Field>,
    e: Seq<Entry>,
    e2: Seq<Entry>,
    names: Seq<Seq<Seq<char>>>,
    ids: Seq<Seq<Seq<char>>>,
)
    requires
        prefix_of(e, e2),
        fields_are(fs, e, names, ids),
    ensures
        fields_are(fs, e2, names, ids),
{
    assert forall|i: int| 0 <= i < fs.len() implies (#[trigger] fs[i]).spec_name().view()
        == names[i] && filed(e2, fs[i].spec_type_ref(), ids[i]) by {
        assert(e2[fs[i].spec_type_ref().0 as int] == e[fs[i].spec_type_ref().0 as int]);
    }
}

proof fn lemma_variants_are_grows(
    vs: Seq<Variant>,
    e: Seq<Entry>,
    e2: Seq<Entry>,
    names: Seq<Seq<Seq<char>>>,
    values: Seq<Seq<Seq<Seq<char>>>>,
)
    requires
        prefix_of(e, e2),
        variants_are(vs, e, names, values),
    ensures
        variants_are(vs, e2, names, values),
{
    assert forall|i: int| 0 <= i < vs.len() implies (#[trigger] vs[i]).spec_name().view()
        == names[i] && vs[i].spec_values().len() == values[i].len() && forall|k: int|
        0 <= k < values[i].len() ==> filed(e2, #[trigger] vs[i].spec_values()[k], values[i][k]) by {
        assert forall|k: int| 0 <= k < values[i].len() implies filed(
            e2,
            #[trigger] vs[i].spec_values()[k],
            values[i][k],
        ) by {
            assert(filed(e, vs[i].spec_values()[k], values[i][k]));
            assert(e2[vs[i].spec_values()[k].0 as int] == e[vs[i].spec_values()[k].0 as int]);
        }
    }
}

/// Putting the field `meta` first: the fields of `s` are those of `inner` behind it.
proof fn lemma_with_meta_fields(
    inner: TStruct,
    s: TStruct,
    e1: Seq<Entry>,
    e2: Seq<Entry>,
    names: Seq<Seq<Seq<char>>>,
    ids: Seq<Seq<Seq<char>>>,
)
    requires
        fields_are(inner.spec_fields(), e1, names, ids),
        prefix_of(e1, e2),
        s.spec_fields().len() == inner.spec_fields().len() + 1,
        s.spec_fields()[0].spec_name().view() == seq!["meta"@],
        filed(e2, s.spec_fields()[0].spec_type_ref(), seq!["meta"@]),
        forall|i: int|
            0 <= i < inner.spec_fields().len() ==> #[trigger] s.spec_fields()[i + 1]
                == inner.spec_fields()[i],
    ensures
        fields_are(s.spec_fields(), e2, seq![seq!["meta"@]] + names, seq![seq!["meta"@]] + ids),
{
    lemma_fields_are_grows(inner.spec_fields(), e1, e2, names, ids);
    let fs = s.spec_fields();
    assert forall|i: int| 0 <= i < fs.len() implies (#[trigger] fs[i]).spec_name().view() == (
    seq![seq!["meta"@]] + names)[i] && filed(e2, fs[i].spec_type_ref(), (seq![seq!["meta"@]]
        + ids)[i]) by {
        if i > 0 {
            assert(fs[(i - 1) + 1] == inner.spec_fields()[i - 1]);
        }
    }
}

/// Every value of every variant is below `n`.
pub open spec fn variants_within(vs: Seq<Variant>, n: nat) -> bool {
    forall|i: int, k: int|
        0 <= i < vs.len() && 0 <= k < vs[i].spec_values().len() ==> (
        #[trigger] vs[i].spec_values()[k]).0 < n
}

proof fn lemma_variants_refs_within(vs: Seq<Variant>, n: nat)
    requires
        variants_within(vs, n),
    ensures
        forall|m: int| 0 <= m < variants_refs(vs).len() ==> (#[trigger] variants_refs(vs)[m]).0 < n,
    decreases vs.len(),
{
    if vs.len() > 0 {
        let init = vs.drop_last();
        assert forall|i: int, k: int|
            0 <= i < init.len() && 0 <= k < init[i].spec_values().len() implies (
            #[trigger] init[i].spec_values()[k]).0 < n by {
            assert(init[i] == vs[i]);
        }
        lemma_variants_refs_within(init, n);
        let a = variants_refs(init);
        let last = vs.last().spec_values();
        assert(variants_refs(vs) == a + last);
        assert forall|m: int| 0 <= m < variants_refs(vs).len() implies (#[trigger] variants_refs(
            vs,
        )[m]).0 < n by {
            if m < a.len() {
                assert(variants_refs(vs)[m] == a[m]);
            } else {
                assert(variants_refs(vs)[m] == last[m - a.len()]);
                assert(vs.last() == vs[vs.len() - 1]);
            }
        }
    }
}

proof fn lemma_enum_within(e: TEnum, n: nat)
    requires
        variants_within(e.spec_variants(), n),
        variants_refs(e.spec_variants()).len() <= usize::MAX,
    ensures
        refs_within(AnyType::Enum(e), n),
{
    lemma_variants_refs_within(e.spec_variants(), n);
}

/// Every field refers to one of the first `len` added types.
pub open spec fn refs_below(fields: Seq<Field>, len: nat) -> bool {
    forall|i: int| 0 <= i < fields.len() ==> (#[trigger] fields[i]).spec_type_ref().0 < len
}

proof fn lemma_struct_within(s: TStruct, n: nat)
    requires
        refs_below(s.spec_fields(), n),
        s.spec_fields().len() <= usize::MAX,
    ensures
        refs_within(AnyType::Struct(s), n),
{
    assert forall|m: int| 0 <= m < field_refs(s.spec_fields()).len() implies (
    #[trigger] field_refs(s.spec_fields())[m]).0 < n by {
        assert(field_refs(s.spec_fields())[m] == s.spec_fields()[m].spec_type_ref());
    }
}

/// `e` with a variant of the given name appended, holding `value` if there is one.
fn with_variant(e: TEnum, id: Identifier, value: Option<TypeRef>) -> (r: TEnum)
    ensures
        r.spec_variants().len() == e.spec_variants().len() + 1,
        forall|i: int| 0 <= i < e.spec_variants().len() ==> #[trigger] r.spec_variants()[i]
            == e.spec_variants()[i],
        r.spec_variants()[e.spec_variants().len() as int].spec_name().view() == id.view(),
        r.spec_variants()[e.spec_variants().len() as int].spec_values() == (match value {
            Some(v) => seq![v],
            None => Seq::<TypeRef>::empty(),
        }),
        r.spec_meta() == e.spec_meta(),
        variants_refs(r.spec_variants()).len() == variants_refs(e.spec_variants()).len() + (if value
            is Some {
            1int
        } else {
            0int
        }),
        forall|n: nat|
            variants_within(e.spec_variants(), n) && (value matches Some(v) ==> v.0 < n)
                ==> #[trigger] variants_within(r.spec_variants(), n),
{
    let v = Variant::new(id);
    let v = match value {
        Some(x) => v.add_value(x),
        None => v,
    };
    let r = e.add_variant(v);
    proof {
        assert(r.spec_variants().drop_last() =~= e.spec_variants());
        assert(v.spec_values() =~= (match value {
            Some(x) => seq![x],
            None => Seq::<TypeRef>::empty(),
        }));
        assert forall|n: nat|
            variants_within(e.spec_variants(), n) && (value matches Some(x) ==> x.0 < n) implies #[trigger] variants_within(
            r.spec_variants(),
            n,
        ) by {
            assert forall|i: int, k: int|
                0 <= i < r.spec_variants().len() && 0 <= k < r.spec_variants()[i].spec_values().len() implies (
                #[trigger] r.spec_variants()[i].spec_values()[k]).0 < n by {
                if i < e.spec_variants().len() {
                    assert(r.spec_variants()[i] == e.spec_variants()[i]);
                }
            }
        }
    }
    r
}

/// Files `t` under `id` in the builder: adds it when nothing is filed under `id` yet, and
/// otherwise gives the reference of what is filed there (the same type, as `t` is what the
/// schema of schemas files under `id`).
fn file(b: &mut DefaultSchemaBuilder, id: Identifier, t: AnyType) -> (r: TypeRef)
    requires
        old(b)@.len() < u32::MAX,
        type_wf(t),
        refs_within(t, old(b)@.len()),
        described(id.view(), t, old(b)@),
        described_all(old(b)@),
    ensures
        grows(old(b)@, final(b)@, 1),
        described_all(final(b)@),
        filed(final(b)@, r, id.view()),
{
    let ghost before = b@;
    let key = id.clone();
    let r = match b.add(id, t) {
        Ok(r) => r,
        Err(_) => {
            let found = b.find(&key);
            found.unwrap()
        },
    };
    proof {
        let after = b@;
        use_type_invariant(&*b);
        if after != before {
            assert(after == before.push((key.view(), t)));
            assert(prefix_of(before, after));
            assert forall|i: int| 0 <= i < after.len() && entries_wf(before) implies type_wf(
                #[trigger] after[i].1,
            ) by {
                if i < before.len() {
                    assert(after[i] == before[i]);
                }
            }
            assert forall|i: int| 0 <= i < after.len() && refs_closed(before) implies refs_within(
                #[trigger] after[i].1,
                after.len(),
            ) by {
                if i < before.len() {
                    assert(after[i] == before[i]);
                    assert(refs_within(before[i].1, before.len()));
                }
            }
            assert forall|j: int| 0 <= j < after.len() implies described(
                #[trigger] after[j].0,
                after[j].1,
                after,
            ) by {
                if j < before.len() {
                    assert(after[j] == before[j]);
                    assert(described(before[j].0, before[j].1, before));
                    lemma_described_grows(before[j].0, before[j].1, before, after);
                } else {
                    lemma_described_grows(key.view(), t, before, after);
                }
            }
        }
    }
    r
}

/// What is filed under `segment`: a segment of an identifier: 1-30 characters `0-9` and `a-z`; no documentation, implements nothing.
pub open spec fn segment_schema(t: AnyType, e: Seq<Entry>) -> bool {
    t matches AnyType::Ascii(a) && a.length.spec_start() == 1 && a.length.spec_end() == 30 && a.codes.spec_ranges() == seq![(48u32, 58u32), (97u32, 123u32)] && plain(t)
}

/// What is filed under `identifier`: an identifier: 1-12 segments; no documentation, implements nothing.
pub open spec fn identifier_schema(t: AnyType, e: Seq<Entry>) -> bool {
    t matches AnyType::Sequence(s) && filed(e, s.element, seq!["segment"@]) && s.length.spec_start() == 1 && s.length.spec_end() == 12 && s.ordering == SeqOrdering::Unordered && s.multiple_of is None && plain(t)
}

/// What is filed under `present_type`: the type of the value an option holds; no documentation, implements nothing.
pub open spec fn present_type_schema(t: AnyType, e: Seq<Entry>) -> bool {
    t matches AnyType::KeyRef(k) && k.spec_level() == 0 && plain(t)
}

/// What is filed under `element`: the element type of a sequence; no documentation, implements nothing.
pub open spec fn element_schema(t: AnyType, e: Seq<Entry>) -> bool {
    t matches AnyType::KeyRef(k) && k.spec_level() == 0 && plain(t)
}

/// What is filed under `seq_length_element`: an end of the length range of a sequence; no documentation, implements nothing.
pub open spec fn seq_length_element_schema(t: AnyType, e: Seq<Entry>) -> bool {
    t matches AnyType::UInt(u) && u.range.spec_start() == 0 && u.range.spec_end() == 4294967295 && plain(t)
}

/// What is filed under `seq_length`: the length range of a sequence (both ends included); no documentation, implements nothing.
pub open spec fn seq_length_schema(t: AnyType, e: Seq<Entry>) -> bool {
    t matches AnyType::Range(g) && filed(e, g.element, seq!["seq"@, "length"@, "element"@]) && g.inclusion == Inclusion::BothInclusive && g.allow_equal == false && plain(t)
}

/// What is filed under `direction`: the direction of a sorting; no documentation, implements nothing.
pub open spec fn direction_schema(t: AnyType, e: Seq<Entry>) -> bool {
    t matches AnyType::Enum(x) && variants_are(x.spec_variants(), e, seq![seq!["ascending"@], seq!["descending"@]], seq![Seq::<Seq<Seq<char>>>::empty(), Seq::<Seq<Seq<char>>>::empty()]) && plain(t)
}

/// What is filed under `unique`: whether duplicates are forbidden; no documentation, implements nothing.
pub open spec fn unique_schema(t: AnyType, e: Seq<Entry>) -> bool {
    t is Bool && plain(t)
}

/// What is filed under `sorting`: a required sorting of a sequence: direction and uniqueness; no documentation, implements nothing.
pub open spec fn sorting_schema(t: AnyType, e: Seq<Entry>) -> bool {
    t matches AnyType::Struct(x) && fields_are(x.spec_fields(), e, seq![seq!["direction"@], seq!["unique"@]], seq![seq!["direction"@], seq!["unique"@]]) && plain(t)
}

/// What is filed under `ordering`: the ordering of a sequence: none, or sorted; no documentation, implements nothing.
pub open spec fn ordering_schema(t: AnyType, e: Seq<Entry>) -> bool {
    t matches AnyType::Enum(x) && variants_are(x.spec_variants(), e, seq![seq!["none"@], seq!["sorted"@]], seq![Seq::<Seq<Seq<char>>>::empty(), seq![seq!["sorting"@]]]) && plain(t)
}

/// What is filed under `multiple_of`: a length divisor of a sequence: 2 or more; no documentation, implements nothing.
pub open spec fn multiple_of_schema(t: AnyType, e: Seq<Entry>) -> bool {
    t matches AnyType::UInt(u) && u.range.spec_start() == 2 && u.range.spec_end() == 4294967295 && plain(t)
}

/// What is filed under `maybe_multiple_of`: an optional length divisor of a sequence; no documentation, implements nothing.
pub open spec fn maybe_multiple_of_schema(t: AnyType, e: Seq<Entry>) -> bool {
    t matches AnyType::Option(o) && filed(e, o.spec_type_ref(), seq!["multiple"@, "of"@]) && plain(t)
}

/// What is filed under `binary_length_element`: an end of the length range of a binary; no documentation, implements nothing.
pub open spec fn binary_length_element_schema(t: AnyType, e: Seq<Entry>) -> bool {
    t matches AnyType::UInt(u) && u.range.spec_start() == 0 && u.range.spec_end() == 18446744073709551615 && plain(t)
}

/// What is filed under `binary_length`: the length range of a binary (both ends included); no documentation, implements nothing.
pub open spec fn binary_length_schema(t: AnyType, e: Seq<Entry>) -> bool {
    t matches AnyType::Range(g) && filed(e, g.element, seq!["binary"@, "length"@, "element"@]) && g.inclusion == Inclusion::BothInclusive && g.allow_equal == false && plain(t)
}

/// What is filed under `uint_range_element`: an end of the range of an unsigned integer; no documentation, implements nothing.
pub open spec fn uint_range_element_schema(t: AnyType, e: Seq<Entry>) -> bool {
    t matches AnyType::UInt(u) && u.range.spec_start() == 0 && u.range.spec_end() == 18446744073709551615 && plain(t)
}

/// What is filed under `uint_range`: the range of an unsigned integer (both ends included); no documentation, implements nothing.
pub open spec fn uint_range_schema(t: AnyType, e: Seq<Entry>) -> bool {
    t matches AnyType::Range(g) && filed(e, g.element, seq!["uint"@, "range"@, "element"@]) && g.inclusion == Inclusion::BothInclusive && g.allow_equal == true && plain(t)
}

/// What is filed under `sint_range_element`: an end of the range of a signed integer; no documentation, implements nothing.
pub open spec fn sint_range_element_schema(t: AnyType, e: Seq<Entry>) -> bool {
    t matches AnyType::SInt(s) && s.spec_range().spec_start() == i64::MIN && s.spec_range().spec_end() == i64::MAX && plain(t)
}

/// What is filed under `sint_range`: the range of a signed integer (both ends included); no documentation, implements nothing.
pub open spec fn sint_range_schema(t: AnyType, e: Seq<Entry>) -> bool {
    t matches AnyType::Range(g) && filed(e, g.element, seq!["sint"@, "range"@, "element"@]) && g.inclusion == Inclusion::BothInclusive && g.allow_equal == true && plain(t)
}

/// What is filed under `value_type`: the type of a value of an enum variant; no documentation, implements nothing.
pub open spec fn value_type_schema(t: AnyType, e: Seq<Entry>) -> bool {
    t matches AnyType::KeyRef(k) && k.spec_level() == 0 && plain(t)
}

/// What is filed under `values`: the values of an enum variant: 1-32; no documentation, implements nothing.
pub open spec fn values_schema(t: AnyType, e: Seq<Entry>) -> bool {
    t matches AnyType::Sequence(s) && filed(e, s.element, seq!["value"@, "type"@]) && s.length.spec_start() == 1 && s.length.spec_end() == 32 && s.ordering == SeqOrdering::Unordered && s.multiple_of is None && plain(t)
}

/// What is filed under `maybe_values`: the optional values of an enum variant; no documentation, implements nothing.
pub open spec fn maybe_values_schema(t: AnyType, e: Seq<Entry>) -> bool {
    t matches AnyType::Option(o) && filed(e, o.spec_type_ref(), seq!["values"@]) && plain(t)
}

/// What is filed under `variant`: an enum variant: its name and values; no documentation, implements nothing.
pub open spec fn variant_schema(t: AnyType, e: Seq<Entry>) -> bool {
    t matches AnyType::Struct(x) && fields_are(x.spec_fields(), e, seq![seq!["name"@], seq!["values"@]], seq![seq!["identifier"@], seq!["maybe"@, "values"@]]) && plain(t)
}

/// What is filed under `variants`: the variants of an enum: one or more; no documentation, implements nothing.
pub open spec fn variants_schema(t: AnyType, e: Seq<Entry>) -> bool {
    t matches AnyType::Sequence(s) && filed(e, s.element, seq!["variant"@]) && s.length.spec_start() == 1 && s.length.spec_end() == 4294967295 && s.ordering == SeqOrdering::Unordered && s.multiple_of is None && plain(t)
}

/// What is filed under `field_type`: the type of a field of a structure; no documentation, implements nothing.
pub open spec fn field_type_schema(t: AnyType, e: Seq<Entry>) -> bool {
    t matches AnyType::KeyRef(k) && k.spec_level() == 0 && plain(t)
}

/// What is filed under `field`: a field of a structure: its name and type; no documentation, implements nothing.
pub open spec fn field_schema(t: AnyType, e: Seq<Entry>) -> bool {
    t matches AnyType::Struct(x) && fields_are(x.spec_fields(), e, seq![seq!["name"@], seq!["type"@]], seq![seq!["identifier"@], seq!["field"@, "type"@]]) && plain(t)
}

/// What is filed under `fields`: the fields of a structure; no documentation, implements nothing.
pub open spec fn fields_schema(t: AnyType, e: Seq<Entry>) -> bool {
    t matches AnyType::Sequence(s) && filed(e, s.element, seq!["field"@]) && s.length.spec_start() == 0 && s.length.spec_end() == 4294967295 && s.ordering == SeqOrdering::Unordered && s.multiple_of is None && plain(t)
}

/// What is filed under `map_key`: the type of the keys of a map; no documentation, implements nothing.
pub open spec fn map_key_schema(t: AnyType, e: Seq<Entry>) -> bool {
    t matches AnyType::KeyRef(k) && k.spec_level() == 0 && plain(t)
}

/// What is filed under `map_value`: the type of the values of a map; no documentation, implements nothing.
pub open spec fn map_value_schema(t: AnyType, e: Seq<Entry>) -> bool {
    t matches AnyType::KeyRef(k) && k.spec_level() == 0 && plain(t)
}

/// What is filed under `map_length_element`: an end of the length range of a map; no documentation, implements nothing.
pub open spec fn map_length_element_schema(t: AnyType, e: Seq<Entry>) -> bool {
    t matches AnyType::UInt(u) && u.range.spec_start() == 0 && u.range.spec_end() == 4294967295 && plain(t)
}

/// What is filed under `map_length`: the length range of a map (both ends included); no documentation, implements nothing.
pub open spec fn map_length_schema(t: AnyType, e: Seq<Entry>) -> bool {
    t matches AnyType::Range(g) && filed(e, g.element, seq!["map"@, "length"@, "element"@]) && g.inclusion == Inclusion::BothInclusive && g.allow_equal == false && plain(t)
}

/// What is filed under `map_sorting`: the sorting of the keys of a map; no documentation, implements nothing.
pub open spec fn map_sorting_schema(t: AnyType, e: Seq<Entry>) -> bool {
    t matches AnyType::Enum(x) && variants_are(x.spec_variants(), e, seq![seq!["ascending"@], seq!["descending"@]], seq![Seq::<Seq<Seq<char>>>::empty(), Seq::<Seq<Seq<char>>>::empty()]) && plain(t)
}

/// What is filed under `anchors`: whether the keys of a map can be referenced; no documentation, implements nothing.
pub open spec fn anchors_schema(t: AnyType, e: Seq<Entry>) -> bool {
    t is Bool && plain(t)
}

/// What is filed under `root`: the type of the root of a root map; no documentation, implements nothing.
pub open spec fn root_schema(t: AnyType, e: Seq<Entry>) -> bool {
    t matches AnyType::KeyRef(k) && k.spec_level() == 0 && plain(t)
}

/// What is filed under `key`: the type of the keys of a root map; no documentation, implements nothing.
pub open spec fn key_schema(t: AnyType, e: Seq<Entry>) -> bool {
    t matches AnyType::KeyRef(k) && k.spec_level() == 0 && plain(t)
}

/// What is filed under `value`: the type of the values of a root map; no documentation, implements nothing.
pub open spec fn value_schema(t: AnyType, e: Seq<Entry>) -> bool {
    t matches AnyType::KeyRef(k) && k.spec_level() == 0 && plain(t)
}

/// What is filed under `level`: the level of a key reference; no documentation, implements nothing.
pub open spec fn level_schema(t: AnyType, e: Seq<Entry>) -> bool {
    t matches AnyType::UInt(u) && u.range.spec_start() == 0 && u.range.spec_end() == 4294967295 && plain(t)
}

/// What is filed under `range_element`: the element type of a range; no documentation, implements nothing.
pub open spec fn range_element_schema(t: AnyType, e: Seq<Entry>) -> bool {
    t matches AnyType::KeyRef(k) && k.spec_level() == 0 && plain(t)
}

/// What is filed under `inclusion`: whether the ends of a range are included; no documentation, implements nothing.
pub open spec fn inclusion_schema(t: AnyType, e: Seq<Entry>) -> bool {
    t matches AnyType::Enum(x) && variants_are(x.spec_variants(), e, seq![seq!["both"@, "inclusive"@], seq!["start"@, "inclusive"@], seq!["both"@, "exclusive"@], seq!["end"@, "inclusive"@], seq!["supplied"@]], seq![Seq::<Seq<Seq<char>>>::empty(), Seq::<Seq<Seq<char>>>::empty(), Seq::<Seq<Seq<char>>>::empty(), Seq::<Seq<Seq<char>>>::empty(), Seq::<Seq<Seq<char>>>::empty()]) && plain(t)
}

/// What is filed under `allow_equal`: whether the start of a range may equal its end; no documentation, implements nothing.
pub open spec fn allow_equal_schema(t: AnyType, e: Seq<Entry>) -> bool {
    t is Bool && plain(t)
}

/// What is filed under `anchor_master_type`: the type of the master of anchors; no documentation, implements nothing.
pub open spec fn anchor_master_type_schema(t: AnyType, e: Seq<Entry>) -> bool {
    t matches AnyType::KeyRef(k) && k.spec_level() == 0 && plain(t)
}

/// What is filed under `anchor_type`: the type of the further anchors; no documentation, implements nothing.
pub open spec fn anchor_type_schema(t: AnyType, e: Seq<Entry>) -> bool {
    t matches AnyType::KeyRef(k) && k.spec_level() == 0 && plain(t)
}

/// What is filed under `max_anchors`: the largest number of further anchors; no documentation, implements nothing.
pub open spec fn max_anchors_schema(t: AnyType, e: Seq<Entry>) -> bool {
    t matches AnyType::UInt(u) && u.range.spec_start() == 0 && u.range.spec_end() == 4294967295 && plain(t)
}

/// What is filed under `maybe_max_anchors`: an optional largest number of further anchors; no documentation, implements nothing.
pub open spec fn maybe_max_anchors_schema(t: AnyType, e: Seq<Entry>) -> bool {
    t matches AnyType::Option(o) && filed(e, o.spec_type_ref(), seq!["max"@, "anchors"@]) && plain(t)
}

/// What is filed under `ascii_length_element`: an end of the length range of an ASCII text; no documentation, implements nothing.
pub open spec fn ascii_length_element_schema(t: AnyType, e: Seq<Entry>) -> bool {
    t matches AnyType::UInt(u) && u.range.spec_start() == 0 && u.range.spec_end() == 18446744073709551615 && plain(t)
}

/// What is filed under `ascii_length`: the length range of an ASCII text (both ends included); no documentation, implements nothing.
pub open spec fn ascii_length_schema(t: AnyType, e: Seq<Entry>) -> bool {
    t matches AnyType::Range(g) && filed(e, g.element, seq!["ascii"@, "length"@, "element"@]) && g.inclusion == Inclusion::BothInclusive && g.allow_equal == true && plain(t)
}

/// What is filed under `code_range_element`: an end of a range of character codes; no documentation, implements nothing.
pub open spec fn code_range_element_schema(t: AnyType, e: Seq<Entry>) -> bool {
    t matches AnyType::UInt(u) && u.range.spec_start() == 0 && u.range.spec_end() == 4294967295 && plain(t)
}

/// What is filed under `code_range`: a range of character codes, the end excluded; no documentation, implements nothing.
pub open spec fn code_range_schema(t: AnyType, e: Seq<Entry>) -> bool {
    t matches AnyType::Range(g) && filed(e, g.element, seq!["code"@, "range"@, "element"@]) && g.inclusion == Inclusion::StartInclusive && g.allow_equal == false && plain(t)
}

/// What is filed under `code_ranges`: the character codes of an ASCII text; no documentation, implements nothing.
pub open spec fn code_ranges_schema(t: AnyType, e: Seq<Entry>) -> bool {
    t matches AnyType::Sequence(s) && filed(e, s.element, seq!["code"@, "range"@]) && s.length.spec_start() == 1 && s.length.spec_end() == 4294967295 && s.ordering == SeqOrdering::Unordered && s.multiple_of is None && plain(t)
}

/// What is filed under `unicode_length_element`: an end of the length range of a unicode text; no documentation, implements nothing.
pub open spec fn unicode_length_element_schema(t: AnyType, e: Seq<Entry>) -> bool {
    t matches AnyType::UInt(u) && u.range.spec_start() == 0 && u.range.spec_end() == 18446744073709551615 && plain(t)
}

/// What is filed under `unicode_length`: the length range of a unicode text (both ends included); no documentation, implements nothing.
pub open spec fn unicode_length_schema(t: AnyType, e: Seq<Entry>) -> bool {
    t matches AnyType::Range(g) && filed(e, g.element, seq!["unicode"@, "length"@, "element"@]) && g.inclusion == Inclusion::BothInclusive && g.allow_equal == true && plain(t)
}

/// What is filed under `length_type`: how the length of a text is measured; no documentation, implements nothing.
pub open spec fn length_type_schema(t: AnyType, e: Seq<Entry>) -> bool {
    t matches AnyType::Enum(x) && variants_are(x.spec_variants(), e, seq![seq!["utf8"@, "byte"@]], seq![Seq::<Seq<Seq<char>>>::empty()]) && plain(t)
}

/// What is filed under `documentation`: a documentation text: 1-4000 UTF-8 bytes; no documentation, implements nothing.
pub open spec fn documentation_schema(t: AnyType, e: Seq<Entry>) -> bool {
    t matches AnyType::Unicode(x) && x.length.spec_start() == 1 && x.length.spec_end() == 4000 && x.length_type == LengthType::Utf8Byte && plain(t)
}

/// What is filed under `maybe_doc`: an optional documentation; no documentation, implements nothing.
pub open spec fn maybe_doc_schema(t: AnyType, e: Seq<Entry>) -> bool {
    t matches AnyType::Option(o) && filed(e, o.spec_type_ref(), seq!["documentation"@]) && plain(t)
}

/// What is filed under `implements_uuid`: a UUID a type implements; no documentation, implements nothing.
pub open spec fn implements_uuid_schema(t: AnyType, e: Seq<Entry>) -> bool {
    t is Uuid && plain(t)
}

/// What is filed under `implements`: the UUIDs a type implements: 1-255, ascending, no duplicates; no documentation, implements nothing.
pub open spec fn implements_schema(t: AnyType, e: Seq<Entry>) -> bool {
    t matches AnyType::Sequence(s) && filed(e, s.element, seq!["implements"@, "uuid"@]) && s.length.spec_start() == 1 && s.length.spec_end() == 255 && s.ordering == SeqOrdering::Sorted(Sorted { direction: Direction::Ascending, unique: true }) && s.multiple_of is None && plain(t)
}

/// What is filed under `maybe_implements`: an optional set of implemented UUIDs; no documentation, implements nothing.
pub open spec fn maybe_implements_schema(t: AnyType, e: Seq<Entry>) -> bool {
    t matches AnyType::Option(o) && filed(e, o.spec_type_ref(), seq!["implements"@]) && plain(t)
}

/// What is filed under `meta`: the metadata of a type; no documentation, implements nothing.
pub open spec fn meta_schema(t: AnyType, e: Seq<Entry>) -> bool {
    t matches AnyType::Struct(x) && fields_are(x.spec_fields(), e, seq![seq!["doc"@], seq!["implements"@]], seq![seq!["maybe"@, "doc"@], seq!["maybe"@, "implements"@]]) && plain(t)
}

/// What is filed under `bool`: the schema of a boolean type, metadata first; no documentation, implements nothing.
pub open spec fn bool_schema(t: AnyType, e: Seq<Entry>) -> bool {
    t matches AnyType::Struct(x) && fields_are(x.spec_fields(), e, seq![seq!["meta"@]], seq![seq!["meta"@]]) && plain(t)
}

/// What is filed under `option`: the schema of a optional value type, metadata first; no documentation, implements nothing.
pub open spec fn option_schema(t: AnyType, e: Seq<Entry>) -> bool {
    t matches AnyType::Struct(x) && fields_are(x.spec_fields(), e, seq![seq!["meta"@], seq!["type"@]], seq![seq!["meta"@], seq!["present"@, "type"@]]) && plain(t)
}

/// What is filed under `seq`: the schema of a sequence type, metadata first; no documentation, implements nothing.
pub open spec fn seq_schema(t: AnyType, e: Seq<Entry>) -> bool {
    t matches AnyType::Struct(x) && fields_are(x.spec_fields(), e, seq![seq!["meta"@], seq!["element"@], seq!["length"@], seq!["ordering"@], seq!["multiple"@, "of"@]], seq![seq!["meta"@], seq!["element"@], seq!["seq"@, "length"@], seq!["ordering"@], seq!["maybe"@, "multiple"@, "of"@]]) && plain(t)
}

/// What is filed under `binary`: the schema of a binary type, metadata first; no documentation, implements nothing.
pub open spec fn binary_schema(t: AnyType, e: Seq<Entry>) -> bool {
    t matches AnyType::Struct(x) && fields_are(x.spec_fields(), e, seq![seq!["meta"@], seq!["length"@]], seq![seq!["meta"@], seq!["binary"@, "length"@]]) && plain(t)
}

/// What is filed under `uint`: the schema of a unsigned integer type, metadata first; no documentation, implements nothing.
pub open spec fn uint_schema(t: AnyType, e: Seq<Entry>) -> bool {
    t matches AnyType::Struct(x) && fields_are(x.spec_fields(), e, seq![seq!["meta"@], seq!["range"@]], seq![seq!["meta"@], seq!["uint"@, "range"@]]) && plain(t)
}

/// What is filed under `sint`: the schema of a signed integer type, metadata first; no documentation, implements nothing.
pub open spec fn sint_schema(t: AnyType, e: Seq<Entry>) -> bool {
    t matches AnyType::Struct(x) && fields_are(x.spec_fields(), e, seq![seq!["meta"@], seq!["range"@]], seq![seq!["meta"@], seq!["sint"@, "range"@]]) && plain(t)
}

/// What is filed under `enum`: the schema of a enum type, metadata first; no documentation, implements nothing.
pub open spec fn enum_schema(t: AnyType, e: Seq<Entry>) -> bool {
    t matches AnyType::Struct(x) && fields_are(x.spec_fields(), e, seq![seq!["meta"@], seq!["variants"@]], seq![seq!["meta"@], seq!["variants"@]]) && plain(t)
}

/// What is filed under `struct`: the schema of a structure type, metadata first; no documentation, implements nothing.
pub open spec fn struct_schema(t: AnyType, e: Seq<Entry>) -> bool {
    t matches AnyType::Struct(x) && fields_are(x.spec_fields(), e, seq![seq!["meta"@], seq!["fields"@]], seq![seq!["meta"@], seq!["fields"@]]) && plain(t)
}

/// What is filed under `map`: the schema of a map type, metadata first; no documentation, implements nothing.
pub open spec fn map_schema(t: AnyType, e: Seq<Entry>) -> bool {
    t matches AnyType::Struct(x) && fields_are(x.spec_fields(), e, seq![seq!["meta"@], seq!["key"@], seq!["value"@], seq!["length"@], seq!["sorting"@], seq!["anchors"@]], seq![seq!["meta"@], seq!["map"@, "key"@], seq!["map"@, "value"@], seq!["map"@, "length"@], seq!["map"@, "sorting"@], seq!["anchors"@]]) && plain(t)
}

/// What is filed under `root_map`: the schema of a root map type, metadata first; no documentation, implements nothing.
pub open spec fn root_map_schema(t: AnyType, e: Seq<Entry>) -> bool {
    t matches AnyType::Struct(x) && fields_are(x.spec_fields(), e, seq![seq!["meta"@], seq!["root"@], seq!["key"@], seq!["value"@], seq!["length"@], seq!["sorting"@]], seq![seq!["meta"@], seq!["root"@], seq!["key"@], seq!["value"@], seq!["map"@, "length"@], seq!["map"@, "sorting"@]]) && plain(t)
}

/// What is filed under `key_ref`: the schema of a key reference type, metadata first; no documentation, implements nothing.
pub open spec fn key_ref_schema(t: AnyType, e: Seq<Entry>) -> bool {
    t matches AnyType::Struct(x) && fields_are(x.spec_fields(), e, seq![seq!["meta"@], seq!["level"@]], seq![seq!["meta"@], seq!["level"@]]) && plain(t)
}

/// What is filed under `uuid`: the schema of a UUID type, metadata first; no documentation, implements nothing.
pub open spec fn uuid_schema(t: AnyType, e: Seq<Entry>) -> bool {
    t matches AnyType::Struct(x) && fields_are(x.spec_fields(), e, seq![seq!["meta"@]], seq![seq!["meta"@]]) && plain(t)
}

/// What is filed under `range`: the schema of a range type, metadata first; no documentation, implements nothing.
pub open spec fn range_schema(t: AnyType, e: Seq<Entry>) -> bool {
    t matches AnyType::Struct(x) && fields_are(x.spec_fields(), e, seq![seq!["meta"@], seq!["element"@], seq!["inclusion"@], seq!["allow"@, "equal"@]], seq![seq!["meta"@], seq!["range"@, "element"@], seq!["inclusion"@], seq!["allow"@, "equal"@]]) && plain(t)
}

/// What is filed under `anchor_container`: the schema of a anchors type, metadata first; no documentation, implements nothing.
pub open spec fn anchor_container_schema(t: AnyType, e: Seq<Entry>) -> bool {
    t matches AnyType::Struct(x) && fields_are(x.spec_fields(), e, seq![seq!["meta"@], seq!["master"@], seq!["anchor"@], seq!["max"@, "anchors"@]], seq![seq!["meta"@], seq!["anchor"@, "master"@, "type"@], seq!["anchor"@, "type"@], seq!["maybe"@, "max"@, "anchors"@]]) && plain(t)
}

/// What is filed under `reference`: the schema of a anchor reference type, metadata first; no documentation, implements nothing.
pub open spec fn reference_schema(t: AnyType, e: Seq<Entry>) -> bool {
    t matches AnyType::Struct(x) && fields_are(x.spec_fields(), e, seq![seq!["meta"@]], seq![seq!["meta"@]]) && plain(t)
}

/// What is filed under `ascii`: the schema of a ASCII text type, metadata first; no documentation, implements nothing.
pub open spec fn ascii_schema(t: AnyType, e: Seq<Entry>) -> bool {
    t matches AnyType::Struct(x) && fields_are(x.spec_fields(), e, seq![seq!["meta"@], seq!["length"@], seq!["codes"@]], seq![seq!["meta"@], seq!["ascii"@, "length"@], seq!["code"@, "ranges"@]]) && plain(t)
}

/// What is filed under `unicode`: the schema of a unicode text type, metadata first; no documentation, implements nothing.
pub open spec fn unicode_schema(t: AnyType, e: Seq<Entry>) -> bool {
    t matches AnyType::Struct(x) && fields_are(x.spec_fields(), e, seq![seq!["meta"@], seq!["length"@], seq!["length"@, "type"@]], seq![seq!["meta"@], seq!["unicode"@, "length"@], seq!["length"@, "type"@]]) && plain(t)
}

/// What is filed under `any_type`: the schema of a type: one variant per kind of type; no documentation, implements nothing.
pub open spec fn any_type_schema(t: AnyType, e: Seq<Entry>) -> bool {
    t matches AnyType::Enum(x) && variants_are(x.spec_variants(), e, seq![seq!["bool"@], seq!["option"@], seq!["seq"@], seq!["binary"@], seq!["uint"@], seq!["sint"@], seq!["enum"@], seq!["struct"@], seq!["map"@], seq!["root"@, "map"@], seq!["key"@, "ref"@], seq!["uuid"@], seq!["range"@], seq!["anchors"@], seq!["reference"@], seq!["ascii"@], seq!["unicode"@]], seq![seq![seq!["bool"@]], seq![seq!["option"@]], seq![seq!["seq"@]], seq![seq!["binary"@]], seq![seq!["uint"@]], seq![seq!["sint"@]], seq![seq!["enum"@]], seq![seq!["struct"@]], seq![seq!["map"@]], seq![seq!["root"@, "map"@]], seq![seq!["key"@, "ref"@]], seq![seq!["uuid"@]], seq![seq!["range"@]], seq![seq!["anchor"@, "container"@]], seq![seq!["reference"@]], seq![seq!["ascii"@]], seq![seq!["unicode"@]]]) && plain(t)
}

/// `id` is one of the identifiers of the schema of schemas.
pub open spec fn is_self_id(id: Seq<Seq<char>>) -> bool {
    id == seq!["segment"@]
    || id == seq!["identifier"@]
    || id == seq!["present"@, "type"@]
    || id == seq!["element"@]
    || id == seq!["seq"@, "length"@, "element"@]
    || id == seq!["seq"@, "length"@]
    || id == seq!["direction"@]
    || id == seq!["unique"@]
    || id == seq!["sorting"@]
    || id == seq!["ordering"@]
    || id == seq!["multiple"@, "of"@]
    || id == seq!["maybe"@, "multiple"@, "of"@]
    || id == seq!["binary"@, "length"@, "element"@]
    || id == seq!["binary"@, "length"@]
    || id == seq!["uint"@, "range"@, "element"@]
    || id == seq!["uint"@, "range"@]
    || id == seq!["sint"@, "range"@, "element"@]
    || id == seq!["sint"@, "range"@]
    || id == seq!["value"@, "type"@]
    || id == seq!["values"@]
    || id == seq!["maybe"@, "values"@]
    || id == seq!["variant"@]
    || id == seq!["variants"@]
    || id == seq!["field"@, "type"@]
    || id == seq!["field"@]
    || id == seq!["fields"@]
    || id == seq!["map"@, "key"@]
    || id == seq!["map"@, "value"@]
    || id == seq!["map"@, "length"@, "element"@]
    || id == seq!["map"@, "length"@]
    || id == seq!["map"@, "sorting"@]
    || id == seq!["anchors"@]
    || id == seq!["root"@]
    || id == seq!["key"@]
    || id == seq!["value"@]
    || id == seq!["level"@]
    || id == seq!["range"@, "element"@]
    || id == seq!["inclusion"@]
    || id == seq!["allow"@, "equal"@]
    || id == seq!["anchor"@, "master"@, "type"@]
    || id == seq!["anchor"@, "type"@]
    || id == seq!["max"@, "anchors"@]
    || id == seq!["maybe"@, "max"@, "anchors"@]
    || id == seq!["ascii"@, "length"@, "element"@]
    || id == seq!["ascii"@, "length"@]
    || id == seq!["code"@, "range"@, "element"@]
    || id == seq!["code"@, "range"@]
    || id == seq!["code"@, "ranges"@]
    || id == seq!["unicode"@, "length"@, "element"@]
    || id == seq!["unicode"@, "length"@]
    || id == seq!["length"@, "type"@]
    || id == seq!["documentation"@]
    || id == seq!["maybe"@, "doc"@]
    || id == seq!["implements"@, "uuid"@]
    || id == seq!["implements"@]
    || id == seq!["maybe"@, "implements"@]
    || id == seq!["meta"@]
    || id == seq!["bool"@]
    || id == seq!["option"@]
    || id == seq!["seq"@]
    || id == seq!["binary"@]
    || id == seq!["uint"@]
    || id == seq!["sint"@]
    || id == seq!["enum"@]
    || id == seq!["struct"@]
    || id == seq!["map"@]
    || id == seq!["root"@, "map"@]
    || id == seq!["key"@, "ref"@]
    || id == seq!["uuid"@]
    || id == seq!["range"@]
    || id == seq!["anchor"@, "container"@]
    || id == seq!["reference"@]
    || id == seq!["ascii"@]
    || id == seq!["unicode"@]
    || id == seq!["any"@, "type"@]
}

/// A type filed under `id` in `e` is what the schema of schemas files under `id` (or `id` is
/// none of its identifiers).
pub open spec fn described(id: Seq<Seq<char>>, t: AnyType, e: Seq<Entry>) -> bool {
    (id == seq!["segment"@] && segment_schema(t, e))
    || (id == seq!["identifier"@] && identifier_schema(t, e))
    || (id == seq!["present"@, "type"@] && present_type_schema(t, e))
    || (id == seq!["element"@] && element_schema(t, e))
    || (id == seq!["seq"@, "length"@, "element"@] && seq_length_element_schema(t, e))
    || (id == seq!["seq"@, "length"@] && seq_length_schema(t, e))
    || (id == seq!["direction"@] && direction_schema(t, e))
    || (id == seq!["unique"@] && unique_schema(t, e))
    || (id == seq!["sorting"@] && sorting_schema(t, e))
    || (id == seq!["ordering"@] && ordering_schema(t, e))
    || (id == seq!["multiple"@, "of"@] && multiple_of_schema(t, e))
    || (id == seq!["maybe"@, "multiple"@, "of"@] && maybe_multiple_of_schema(t, e))
    || (id == seq!["binary"@, "length"@, "element"@] && binary_length_element_schema(t, e))
    || (id == seq!["binary"@, "length"@] && binary_length_schema(t, e))
    || (id == seq!["uint"@, "range"@, "element"@] && uint_range_element_schema(t, e))
    || (id == seq!["uint"@, "range"@] && uint_range_schema(t, e))
    || (id == seq!["sint"@, "range"@, "element"@] && sint_range_element_schema(t, e))
    || (id == seq!["sint"@, "range"@] && sint_range_schema(t, e))
    || (id == seq!["value"@, "type"@] && value_type_schema(t, e))
    || (id == seq!["values"@] && values_schema(t, e))
    || (id == seq!["maybe"@, "values"@] && maybe_values_schema(t, e))
    || (id == seq!["variant"@] && variant_schema(t, e))
    || (id == seq!["variants"@] && variants_schema(t, e))
    || (id == seq!["field"@, "type"@] && field_type_schema(t, e))
    || (id == seq!["field"@] && field_schema(t, e))
    || (id == seq!["fields"@] && fields_schema(t, e))
    || (id == seq!["map"@, "key"@] && map_key_schema(t, e))
    || (id == seq!["map"@, "value"@] && map_value_schema(t, e))
    || (id == seq!["map"@, "length"@, "element"@] && map_length_element_schema(t, e))
    || (id == seq!["map"@, "length"@] && map_length_schema(t, e))
    || (id == seq!["map"@, "sorting"@] && map_sorting_schema(t, e))
    || (id == seq!["anchors"@] && anchors_schema(t, e))
    || (id == seq!["root"@] && root_schema(t, e))
    || (id == seq!["key"@] && key_schema(t, e))
    || (id == seq!["value"@] && value_schema(t, e))
    || (id == seq!["level"@] && level_schema(t, e))
    || (id == seq!["range"@, "element"@] && range_element_schema(t, e))
    || (id == seq!["inclusion"@] && inclusion_schema(t, e))
    || (id == seq!["allow"@, "equal"@] && allow_equal_schema(t, e))
    || (id == seq!["anchor"@, "master"@, "type"@] && anchor_master_type_schema(t, e))
    || (id == seq!["anchor"@, "type"@] && anchor_type_schema(t, e))
    || (id == seq!["max"@, "anchors"@] && max_anchors_schema(t, e))
    || (id == seq!["maybe"@, "max"@, "anchors"@] && maybe_max_anchors_schema(t, e))
    || (id == seq!["ascii"@, "length"@, "element"@] && ascii_length_element_schema(t, e))
    || (id == seq!["ascii"@, "length"@] && ascii_length_schema(t, e))
    || (id == seq!["code"@, "range"@, "element"@] && code_range_element_schema(t, e))
    || (id == seq!["code"@, "range"@] && code_range_schema(t, e))
    || (id == seq!["code"@, "ranges"@] && code_ranges_schema(t, e))
    || (id == seq!["unicode"@, "length"@, "element"@] && unicode_length_element_schema(t, e))
    || (id == seq!["unicode"@, "length"@] && unicode_length_schema(t, e))
    || (id == seq!["length"@, "type"@] && length_type_schema(t, e))
    || (id == seq!["documentation"@] && documentation_schema(t, e))
    || (id == seq!["maybe"@, "doc"@] && maybe_doc_schema(t, e))
    || (id == seq!["implements"@, "uuid"@] && implements_uuid_schema(t, e))
    || (id == seq!["implements"@] && implements_schema(t, e))
    || (id == seq!["maybe"@, "implements"@] && maybe_implements_schema(t, e))
    || (id == seq!["meta"@] && meta_schema(t, e))
    || (id == seq!["bool"@] && bool_schema(t, e))
    || (id == seq!["option"@] && option_schema(t, e))
    || (id == seq!["seq"@] && seq_schema(t, e))
    || (id == seq!["binary"@] && binary_schema(t, e))
    || (id == seq!["uint"@] && uint_schema(t, e))
    || (id == seq!["sint"@] && sint_schema(t, e))
    || (id == seq!["enum"@] && enum_schema(t, e))
    || (id == seq!["struct"@] && struct_schema(t, e))
    || (id == seq!["map"@] && map_schema(t, e))
    || (id == seq!["root"@, "map"@] && root_map_schema(t, e))
    || (id == seq!["key"@, "ref"@] && key_ref_schema(t, e))
    || (id == seq!["uuid"@] && uuid_schema(t, e))
    || (id == seq!["range"@] && range_schema(t, e))
    || (id == seq!["anchor"@, "container"@] && anchor_container_schema(t, e))
    || (id == seq!["reference"@] && reference_schema(t, e))
    || (id == seq!["ascii"@] && ascii_schema(t, e))
    || (id == seq!["unicode"@] && unicode_schema(t, e))
    || (id == seq!["any"@, "type"@] && any_type_schema(t, e))
    || !is_self_id(id)
}

/// What is described stays described when entries are appended.
proof fn lemma_described_grows(id: Seq<Seq<char>>, t: AnyType, e: Seq<Entry>, e2: Seq<Entry>)
    requires
        prefix_of(e, e2),
        described(id, t, e),
    ensures
        described(id, t, e2),
{
    if is_self_id(id) {
        if id == seq!["segment"@] && segment_schema(t, e) {
            assert(segment_schema(t, e2));
        }
        if id == seq!["identifier"@] && identifier_schema(t, e) {
            assert(identifier_schema(t, e2));
        }
        if id == seq!["present"@, "type"@] && present_type_schema(t, e) {
            assert(present_type_schema(t, e2));
        }
        if id == seq!["element"@] && element_schema(t, e) {
            assert(element_schema(t, e2));
        }
        if id == seq!["seq"@, "length"@, "element"@] && seq_length_element_schema(t, e) {
            assert(seq_length_element_schema(t, e2));
        }
        if id == seq!["seq"@, "length"@] && seq_length_schema(t, e) {
            assert(seq_length_schema(t, e2));
        }
        if id == seq!["direction"@] && direction_schema(t, e) {
            if let AnyType::Enum(x) = t {
                lemma_variants_are_grows(x.spec_variants(), e, e2, seq![seq!["ascending"@], seq!["descending"@]], seq![Seq::<Seq<Seq<char>>>::empty(), Seq::<Seq<Seq<char>>>::empty()]);
            }
        }
        if id == seq!["unique"@] && unique_schema(t, e) {
            assert(unique_schema(t, e2));
        }
        if id == seq!["sorting"@] && sorting_schema(t, e) {
            if let AnyType::Struct(x) = t {
                lemma_fields_are_grows(x.spec_fields(), e, e2, seq![seq!["direction"@], seq!["unique"@]], seq![seq!["direction"@], seq!["unique"@]]);
            }
        }
        if id == seq!["ordering"@] && ordering_schema(t, e) {
            if let AnyType::Enum(x) = t {
                lemma_variants_are_grows(x.spec_variants(), e, e2, seq![seq!["none"@], seq!["sorted"@]], seq![Seq::<Seq<Seq<char>>>::empty(), seq![seq!["sorting"@]]]);
            }
        }
        if id == seq!["multiple"@, "of"@] && multiple_of_schema(t, e) {
            assert(multiple_of_schema(t, e2));
        }
        if id == seq!["maybe"@, "multiple"@, "of"@] && maybe_multiple_of_schema(t, e) {
            assert(maybe_multiple_of_schema(t, e2));
        }
        if id == seq!["binary"@, "length"@, "element"@] && binary_length_element_schema(t, e) {
            assert(binary_length_element_schema(t, e2));
        }
        if id == seq!["binary"@, "length"@] && binary_length_schema(t, e) {
            assert(binary_length_schema(t, e2));
        }
        if id == seq!["uint"@, "range"@, "element"@] && uint_range_element_schema(t, e) {
            assert(uint_range_element_schema(t, e2));
        }
        if id == seq!["uint"@, "range"@] && uint_range_schema(t, e) {
            assert(uint_range_schema(t, e2));
        }
        if id == seq!["sint"@, "range"@, "element"@] && sint_range_element_schema(t, e) {
            assert(sint_range_element_schema(t, e2));
        }
        if id == seq!["sint"@, "range"@] && sint_range_schema(t, e) {
            assert(sint_range_schema(t, e2));
        }
        if id == seq!["value"@, "type"@] && value_type_schema(t, e) {
            assert(value_type_schema(t, e2));
        }
        if id == seq!["values"@] && values_schema(t, e) {
            assert(values_schema(t, e2));
        }
        if id == seq!["maybe"@, "values"@] && maybe_values_schema(t, e) {
            assert(maybe_values_schema(t, e2));
        }
        if id == seq!["variant"@] && variant_schema(t, e) {
            if let AnyType::Struct(x) = t {
                lemma_fields_are_grows(x.spec_fields(), e, e2, seq![seq!["name"@], seq!["values"@]], seq![seq!["identifier"@], seq!["maybe"@, "values"@]]);
            }
        }
        if id == seq!["variants"@] && variants_schema(t, e) {
            assert(variants_schema(t, e2));
        }
        if id == seq!["field"@, "type"@] && field_type_schema(t, e) {
            assert(field_type_schema(t, e2));
        }
        if id == seq!["field"@] && field_schema(t, e) {
            if let AnyType::Struct(x) = t {
                lemma_fields_are_grows(x.spec_fields(), e, e2, seq![seq!["name"@], seq!["type"@]], seq![seq!["identifier"@], seq!["field"@, "type"@]]);
            }
        }
        if id == seq!["fields"@] && fields_schema(t, e) {
            assert(fields_schema(t, e2));
        }
        if id == seq!["map"@, "key"@] && map_key_schema(t, e) {
            assert(map_key_schema(t, e2));
        }
        if id == seq!["map"@, "value"@] && map_value_schema(t, e) {
            assert(map_value_schema(t, e2));
        }
        if id == seq!["map"@, "length"@, "element"@] && map_length_element_schema(t, e) {
            assert(map_length_element_schema(t, e2));
        }
        if id == seq!["map"@, "length"@] && map_length_schema(t, e) {
            assert(map_length_schema(t, e2));
        }
        if id == seq!["map"@, "sorting"@] && map_sorting_schema(t, e) {
            if let AnyType::Enum(x) = t {
                lemma_variants_are_grows(x.spec_variants(), e, e2, seq![seq!["ascending"@], seq!["descending"@]], seq![Seq::<Seq<Seq<char>>>::empty(), Seq::<Seq<Seq<char>>>::empty()]);
            }
        }
        if id == seq!["anchors"@] && anchors_schema(t, e) {
            assert(anchors_schema(t, e2));
        }
        if id == seq!["root"@] && root_schema(t, e) {
            assert(root_schema(t, e2));
        }
        if id == seq!["key"@] && key_schema(t, e) {
            assert(key_schema(t, e2));
        }
        if id == seq!["value"@] && value_schema(t, e) {
            assert(value_schema(t, e2));
        }
        if id == seq!["level"@] && level_schema(t, e) {
            assert(level_schema(t, e2));
        }
        if id == seq!["range"@, "element"@] && range_element_schema(t, e) {
            assert(range_element_schema(t, e2));
        }
        if id == seq!["inclusion"@] && inclusion_schema(t, e) {
            if let AnyType::Enum(x) = t {
                lemma_variants_are_grows(x.spec_variants(), e, e2, seq![seq!["both"@, "inclusive"@], seq!["start"@, "inclusive"@], seq!["both"@, "exclusive"@], seq!["end"@, "inclusive"@], seq!["supplied"@]], seq![Seq::<Seq<Seq<char>>>::empty(), Seq::<Seq<Seq<char>>>::empty(), Seq::<Seq<Seq<char>>>::empty(), Seq::<Seq<Seq<char>>>::empty(), Seq::<Seq<Seq<char>>>::empty()]);
            }
        }
        if id == seq!["allow"@, "equal"@] && allow_equal_schema(t, e) {
            assert(allow_equal_schema(t, e2));
        }
        if id == seq!["anchor"@, "master"@, "type"@] && anchor_master_type_schema(t, e) {
            assert(anchor_master_type_schema(t, e2));
        }
        if id == seq!["anchor"@, "type"@] && anchor_type_schema(t, e) {
            assert(anchor_type_schema(t, e2));
        }
        if id == seq!["max"@, "anchors"@] && max_anchors_schema(t, e) {
            assert(max_anchors_schema(t, e2));
        }
        if id == seq!["maybe"@, "max"@, "anchors"@] && maybe_max_anchors_schema(t, e) {
            assert(maybe_max_anchors_schema(t, e2));
        }
        if id == seq!["ascii"@, "length"@, "element"@] && ascii_length_element_schema(t, e) {
            assert(ascii_length_element_schema(t, e2));
        }
        if id == seq!["ascii"@, "length"@] && ascii_length_schema(t, e) {
            assert(ascii_length_schema(t, e2));
        }
        if id == seq!["code"@, "range"@, "element"@] && code_range_element_schema(t, e) {
            assert(code_range_element_schema(t, e2));
        }
        if id == seq!["code"@, "range"@] && code_range_schema(t, e) {
            assert(code_range_schema(t, e2));
        }
        if id == seq!["code"@, "ranges"@] && code_ranges_schema(t, e) {
            assert(code_ranges_schema(t, e2));
        }
        if id == seq!["unicode"@, "length"@, "element"@] && unicode_length_element_schema(t, e) {
            assert(unicode_length_element_schema(t, e2));
        }
        if id == seq!["unicode"@, "length"@] && unicode_length_schema(t, e) {
            assert(unicode_length_schema(t, e2));
        }
        if id == seq!["length"@, "type"@] && length_type_schema(t, e) {
            if let AnyType::Enum(x) = t {
                lemma_variants_are_grows(x.spec_variants(), e, e2, seq![seq!["utf8"@, "byte"@]], seq![Seq::<Seq<Seq<char>>>::empty()]);
            }
        }
        if id == seq!["documentation"@] && documentation_schema(t, e) {
            assert(documentation_schema(t, e2));
        }
        if id == seq!["maybe"@, "doc"@] && maybe_doc_schema(t, e) {
            assert(maybe_doc_schema(t, e2));
        }
        if id == seq!["implements"@, "uuid"@] && implements_uuid_schema(t, e) {
            assert(implements_uuid_schema(t, e2));
        }
        if id == seq!["implements"@] && implements_schema(t, e) {
            assert(implements_schema(t, e2));
        }
        if id == seq!["maybe"@, "implements"@] && maybe_implements_schema(t, e) {
            assert(maybe_implements_schema(t, e2));
        }
        if id == seq!["meta"@] && meta_schema(t, e) {
            if let AnyType::Struct(x) = t {
                lemma_fields_are_grows(x.spec_fields(), e, e2, seq![seq!["doc"@], seq!["implements"@]], seq![seq!["maybe"@, "doc"@], seq!["maybe"@, "implements"@]]);
            }
        }
        if id == seq!["bool"@] && bool_schema(t, e) {
            if let AnyType::Struct(x) = t {
                lemma_fields_are_grows(x.spec_fields(), e, e2, seq![seq!["meta"@]], seq![seq!["meta"@]]);
            }
        }
        if id == seq!["option"@] && option_schema(t, e) {
            if let AnyType::Struct(x) = t {
                lemma_fields_are_grows(x.spec_fields(), e, e2, seq![seq!["meta"@], seq!["type"@]], seq![seq!["meta"@], seq!["present"@, "type"@]]);
            }
        }
        if id == seq!["seq"@] && seq_schema(t, e) {
            if let AnyType::Struct(x) = t {
                lemma_fields_are_grows(x.spec_fields(), e, e2, seq![seq!["meta"@], seq!["element"@], seq!["length"@], seq!["ordering"@], seq!["multiple"@, "of"@]], seq![seq!["meta"@], seq!["element"@], seq!["seq"@, "length"@], seq!["ordering"@], seq!["maybe"@, "multiple"@, "of"@]]);
            }
        }
        if id == seq!["binary"@] && binary_schema(t, e) {
            if let AnyType::Struct(x) = t {
                lemma_fields_are_grows(x.spec_fields(), e, e2, seq![seq!["meta"@], seq!["length"@]], seq![seq!["meta"@], seq!["binary"@, "length"@]]);
            }
        }
        if id == seq!["uint"@] && uint_schema(t, e) {
            if let AnyType::Struct(x) = t {
                lemma_fields_are_grows(x.spec_fields(), e, e2, seq![seq!["meta"@], seq!["range"@]], seq![seq!["meta"@], seq!["uint"@, "range"@]]);
            }
        }
        if id == seq!["sint"@] && sint_schema(t, e) {
            if let AnyType::Struct(x) = t {
                lemma_fields_are_grows(x.spec_fields(), e, e2, seq![seq!["meta"@], seq!["range"@]], seq![seq!["meta"@], seq!["sint"@, "range"@]]);
            }
        }
        if id == seq!["enum"@] && enum_schema(t, e) {
            if let AnyType::Struct(x) = t {
                lemma_fields_are_grows(x.spec_fields(), e, e2, seq![seq!["meta"@], seq!["variants"@]], seq![seq!["meta"@], seq!["variants"@]]);
            }
        }
        if id == seq!["struct"@] && struct_schema(t, e) {
            if let AnyType::Struct(x) = t {
                lemma_fields_are_grows(x.spec_fields(), e, e2, seq![seq!["meta"@], seq!["fields"@]], seq![seq!["meta"@], seq!["fields"@]]);
            }
        }
        if id == seq!["map"@] && map_schema(t, e) {
            if let AnyType::Struct(x) = t {
                lemma_fields_are_grows(x.spec_fields(), e, e2, seq![seq!["meta"@], seq!["key"@], seq!["value"@], seq!["length"@], seq!["sorting"@], seq!["anchors"@]], seq![seq!["meta"@], seq!["map"@, "key"@], seq!["map"@, "value"@], seq!["map"@, "length"@], seq!["map"@, "sorting"@], seq!["anchors"@]]);
            }
        }
        if id == seq!["root"@, "map"@] && root_map_schema(t, e) {
            if let AnyType::Struct(x) = t {
                lemma_fields_are_grows(x.spec_fields(), e, e2, seq![seq!["meta"@], seq!["root"@], seq!["key"@], seq!["value"@], seq!["length"@], seq!["sorting"@]], seq![seq!["meta"@], seq!["root"@], seq!["key"@], seq!["value"@], seq!["map"@, "length"@], seq!["map"@, "sorting"@]]);
            }
        }
        if id == seq!["key"@, "ref"@] && key_ref_schema(t, e) {
            if let AnyType::Struct(x) = t {
                lemma_fields_are_grows(x.spec_fields(), e, e2, seq![seq!["meta"@], seq!["level"@]], seq![seq!["meta"@], seq!["level"@]]);
            }
        }
        if id == seq!["uuid"@] && uuid_schema(t, e) {
            if let AnyType::Struct(x) = t {
                lemma_fields_are_grows(x.spec_fields(), e, e2, seq![seq!["meta"@]], seq![seq!["meta"@]]);
            }
        }
        if id == seq!["range"@] && range_schema(t, e) {
            if let AnyType::Struct(x) = t {
                lemma_fields_are_grows(x.spec_fields(), e, e2, seq![seq!["meta"@], seq!["element"@], seq!["inclusion"@], seq!["allow"@, "equal"@]], seq![seq!["meta"@], seq!["range"@, "element"@], seq!["inclusion"@], seq!["allow"@, "equal"@]]);
            }
        }
        if id == seq!["anchor"@, "container"@] && anchor_container_schema(t, e) {
            if let AnyType::Struct(x) = t {
                lemma_fields_are_grows(x.spec_fields(), e, e2, seq![seq!["meta"@], seq!["master"@], seq!["anchor"@], seq!["max"@, "anchors"@]], seq![seq!["meta"@], seq!["anchor"@, "master"@, "type"@], seq!["anchor"@, "type"@], seq!["maybe"@, "max"@, "anchors"@]]);
            }
        }
        if id == seq!["reference"@] && reference_schema(t, e) {
            if let AnyType::Struct(x) = t {
                lemma_fields_are_grows(x.spec_fields(), e, e2, seq![seq!["meta"@]], seq![seq!["meta"@]]);
            }
        }
        if id == seq!["ascii"@] && ascii_schema(t, e) {
            if let AnyType::Struct(x) = t {
                lemma_fields_are_grows(x.spec_fields(), e, e2, seq![seq!["meta"@], seq!["length"@], seq!["codes"@]], seq![seq!["meta"@], seq!["ascii"@, "length"@], seq!["code"@, "ranges"@]]);
            }
        }
        if id == seq!["unicode"@] && unicode_schema(t, e) {
            if let AnyType::Struct(x) = t {
                lemma_fields_are_grows(x.spec_fields(), e, e2, seq![seq!["meta"@], seq!["length"@], seq!["length"@, "type"@]], seq![seq!["meta"@], seq!["unicode"@, "length"@], seq!["length"@, "type"@]]);
            }
        }
        if id == seq!["any"@, "type"@] && any_type_schema(t, e) {
            if let AnyType::Enum(x) = t {
                lemma_variants_are_grows(x.spec_variants(), e, e2, seq![seq!["bool"@], seq!["option"@], seq!["seq"@], seq!["binary"@], seq!["uint"@], seq!["sint"@], seq!["enum"@], seq!["struct"@], seq!["map"@], seq!["root"@, "map"@], seq!["key"@, "ref"@], seq!["uuid"@], seq!["range"@], seq!["anchors"@], seq!["reference"@], seq!["ascii"@], seq!["unicode"@]], seq![seq![seq!["bool"@]], seq![seq!["option"@]], seq![seq!["seq"@]], seq![seq!["binary"@]], seq![seq!["uint"@]], seq![seq!["sint"@]], seq![seq!["enum"@]], seq![seq!["struct"@]], seq![seq!["map"@]], seq![seq!["root"@, "map"@]], seq![seq!["key"@, "ref"@]], seq![seq!["uuid"@]], seq![seq!["range"@]], seq![seq!["anchor"@, "container"@]], seq![seq!["reference"@]], seq![seq!["ascii"@]], seq![seq!["unicode"@]]]);
            }
        }
    }
}

/// Files the schema type for a segment of an identifier: 1-30 characters `0-9` and `a-z`.
fn segment_type(b: &mut DefaultSchemaBuilder) -> (r: TypeRef)
    requires
        old(b)@.len() + 1 <= u32::MAX,
        described_all(old(b)@),
    ensures
        grows(old(b)@, final(b)@, 1),
        described_all(final(b)@),
        filed(final(b)@, r, seq!["segment"@]),
{
    proof {
        reveal_strlit("");
        reveal_strlit("segment");
    }
    let mut codes = CodeRange::try_new(48, 58).unwrap();
    let _ = codes.add(97, 123);
    proof {
        assert(codes.spec_ranges() =~= seq![(48u32, 58u32), (97u32, 123u32)]);
    }
    let length = U64IneRange::try_new(1, 30).unwrap();
    let t = AnyType::Ascii(TAscii { meta: Meta::empty(), length, codes });
    let id = name("segment", "", "");
    proof {
        assert(id.view() =~~= seq!["segment"@]);
        assert(segment_schema(t, b@));
    }
    file(b, id, t)
}

/// Files the schema type for an identifier: 1-12 segments.
fn identifier_type(b: &mut DefaultSchemaBuilder) -> (r: TypeRef)
    requires
        old(b)@.len() + 2 <= u32::MAX,
        described_all(old(b)@),
    ensures
        grows(old(b)@, final(b)@, 2),
        described_all(final(b)@),
        filed(final(b)@, r, seq!["identifier"@]),
{
    proof {
        reveal_strlit("");
        reveal_strlit("identifier");
    }
    let r_segment = segment_type(b);
    let t = AnyType::Sequence(TSeq::try_new(r_segment, 1, 12u32).unwrap());
    let id = name("identifier", "", "");
    proof {
        assert(id.view() =~~= seq!["identifier"@]);
        assert(identifier_schema(t, b@));
    }
    file(b, id, t)
}

/// Files the schema type for the type of the value an option holds.
fn present_type_type(b: &mut DefaultSchemaBuilder) -> (r: TypeRef)
    requires
        old(b)@.len() + 1 <= u32::MAX,
        described_all(old(b)@),
    ensures
        grows(old(b)@, final(b)@, 1),
        described_all(final(b)@),
        filed(final(b)@, r, seq!["present"@, "type"@]),
{
    proof {
        reveal_strlit("");
        reveal_strlit("present");
        reveal_strlit("type");
    }

    let t = AnyType::KeyRef(TKeyRef::default());
    let id = name("present", "type", "");
    proof {
        assert(id.view() =~~= seq!["present"@, "type"@]);
        assert(present_type_schema(t, b@));
    }
    file(b, id, t)
}

/// Files the schema type for the element type of a sequence.
fn element_type(b: &mut DefaultSchemaBuilder) -> (r: TypeRef)
    requires
        old(b)@.len() + 1 <= u32::MAX,
        described_all(old(b)@),
    ensures
        grows(old(b)@, final(b)@, 1),
        described_all(final(b)@),
        filed(final(b)@, r, seq!["element"@]),
{
    proof {
        reveal_strlit("");
        reveal_strlit("element");
    }

    let t = AnyType::KeyRef(TKeyRef::default());
    let id = name("element", "", "");
    proof {
        assert(id.view() =~~= seq!["element"@]);
        assert(element_schema(t, b@));
    }
    file(b, id, t)
}

/// Files the schema type for an end of the length range of a sequence.
fn seq_length_element_type(b: &mut DefaultSchemaBuilder) -> (r: TypeRef)
    requires
        old(b)@.len() + 1 <= u32::MAX,
        described_all(old(b)@),
    ensures
        grows(old(b)@, final(b)@, 1),
        described_all(final(b)@),
        filed(final(b)@, r, seq!["seq"@, "length"@, "element"@]),
{
    proof {
        reveal_strlit("element");
        reveal_strlit("length");
        reveal_strlit("seq");
    }

    let t = AnyType::UInt(TUInt::try_new(0, 4294967295u64).unwrap());
    let id = name("seq", "length", "element");
    proof {
        assert(id.view() =~~= seq!["seq"@, "length"@, "element"@]);
        assert(seq_length_element_schema(t, b@));
    }
    file(b, id, t)
}

/// Files the schema type for the length range of a sequence (both ends included).
fn seq_length_type(b: &mut DefaultSchemaBuilder) -> (r: TypeRef)
    requires
        old(b)@.len() + 2 <= u32::MAX,
        described_all(old(b)@),
    ensures
        grows(old(b)@, final(b)@, 2),
        described_all(final(b)@),
        filed(final(b)@, r, seq!["seq"@, "length"@]),
{
    proof {
        reveal_strlit("");
        reveal_strlit("length");
        reveal_strlit("seq");
    }
    let r_seq_length_element = seq_length_element_type(b);
    let t = AnyType::Range(TRange::new(r_seq_length_element, Inclusion::BothInclusive, false));
    let id = name("seq", "length", "");
    proof {
        assert(id.view() =~~= seq!["seq"@, "length"@]);
        assert(seq_length_schema(t, b@));
    }
    file(b, id, t)
}

/// Files the schema type for the direction of a sorting.
fn direction_type(b: &mut DefaultSchemaBuilder) -> (r: TypeRef)
    requires
        old(b)@.len() + 1 <= u32::MAX,
        described_all(old(b)@),
    ensures
        grows(old(b)@, final(b)@, 1),
        described_all(final(b)@),
        filed(final(b)@, r, seq!["direction"@]),
{
    proof {
        reveal_strlit("");
        reveal_strlit("ascending");
        reveal_strlit("descending");
        reveal_strlit("direction");
    }
    let x = TEnum::default();
    let x = with_variant(x, name("ascending", "", ""), None);
    proof {
        assert(x.spec_variants()[0].spec_name().view() =~~= seq!["ascending"@]);
    }
    let x = with_variant(x, name("descending", "", ""), None);
    proof {
        assert(x.spec_variants()[1].spec_name().view() =~~= seq!["descending"@]);
    }
    proof {
        lemma_enum_within(x, b@.len());
    }
    let t = AnyType::Enum(x);
    let id = name("direction", "", "");
    proof {
        assert(id.view() =~~= seq!["direction"@]);
        assert(direction_schema(t, b@));
    }
    file(b, id, t)
}

/// Files the schema type for whether duplicates are forbidden.
fn unique_type(b: &mut DefaultSchemaBuilder) -> (r: TypeRef)
    requires
        old(b)@.len() + 1 <= u32::MAX,
        described_all(old(b)@),
    ensures
        grows(old(b)@, final(b)@, 1),
        described_all(final(b)@),
        filed(final(b)@, r, seq!["unique"@]),
{
    proof {
        reveal_strlit("");
        reveal_strlit("unique");
    }

    let t = AnyType::Bool(TBool::default());
    let id = name("unique", "", "");
    proof {
        assert(id.view() =~~= seq!["unique"@]);
        assert(unique_schema(t, b@));
    }
    file(b, id, t)
}

/// Files the schema type for a required sorting of a sequence: direction and uniqueness.
fn sorting_type(b: &mut DefaultSchemaBuilder) -> (r: TypeRef)
    requires
        old(b)@.len() + 3 <= u32::MAX,
        described_all(old(b)@),
    ensures
        grows(old(b)@, final(b)@, 3),
        described_all(final(b)@),
        filed(final(b)@, r, seq!["sorting"@]),
{
    proof {
        reveal_strlit("");
        reveal_strlit("direction");
        reveal_strlit("sorting");
        reveal_strlit("unique");
    }
    let r_direction = direction_type(b);
    let r_unique = unique_type(b);
    let x = TStruct::default()
        .add(Field::new(name("direction", "", ""), r_direction))
        .add(Field::new(name("unique", "", ""), r_unique));
    proof {
        lemma_struct_within(x, b@.len());
    }
    let t = AnyType::Struct(x);
    let id = name("sorting", "", "");
    proof {
        assert(id.view() =~~= seq!["sorting"@]);
        assert(sorting_schema(t, b@));
    }
    file(b, id, t)
}

/// Files the schema type for the ordering of a sequence: none, or sorted.
fn ordering_type(b: &mut DefaultSchemaBuilder) -> (r: TypeRef)
    requires
        old(b)@.len() + 4 <= u32::MAX,
        described_all(old(b)@),
    ensures
        grows(old(b)@, final(b)@, 4),
        described_all(final(b)@),
        filed(final(b)@, r, seq!["ordering"@]),
{
    proof {
        reveal_strlit("");
        reveal_strlit("none");
        reveal_strlit("ordering");
        reveal_strlit("sorted");
    }
    let r_sorting = sorting_type(b);
    let x = TEnum::default();
    let x = with_variant(x, name("none", "", ""), None);
    proof {
        assert(x.spec_variants()[0].spec_name().view() =~~= seq!["none"@]);
    }
    let x = with_variant(x, name("sorted", "", ""), Some(r_sorting));
    proof {
        assert(x.spec_variants()[1].spec_name().view() =~~= seq!["sorted"@]);
    }
    proof {
        lemma_enum_within(x, b@.len());
    }
    let t = AnyType::Enum(x);
    let id = name("ordering", "", "");
    proof {
        assert(id.view() =~~= seq!["ordering"@]);
        assert(ordering_schema(t, b@));
    }
    file(b, id, t)
}

/// Files the schema type for a length divisor of a sequence: 2 or more.
fn multiple_of_type(b: &mut DefaultSchemaBuilder) -> (r: TypeRef)
    requires
        old(b)@.len() + 1 <= u32::MAX,
        described_all(old(b)@),
    ensures
        grows(old(b)@, final(b)@, 1),
        described_all(final(b)@),
        filed(final(b)@, r, seq!["multiple"@, "of"@]),
{
    proof {
        reveal_strlit("");
        reveal_strlit("multiple");
        reveal_strlit("of");
    }

    let t = AnyType::UInt(TUInt::try_new(2, 4294967295u64).unwrap());
    let id = name("multiple", "of", "");
    proof {
        assert(id.view() =~~= seq!["multiple"@, "of"@]);
        assert(multiple_of_schema(t, b@));
    }
    file(b, id, t)
}

/// Files the schema type for an optional length divisor of a sequence.
fn maybe_multiple_of_type(b: &mut DefaultSchemaBuilder) -> (r: TypeRef)
    requires
        old(b)@.len() + 2 <= u32::MAX,
        described_all(old(b)@),
    ensures
        grows(old(b)@, final(b)@, 2),
        described_all(final(b)@),
        filed(final(b)@, r, seq!["maybe"@, "multiple"@, "of"@]),
{
    proof {
        reveal_strlit("maybe");
        reveal_strlit("multiple");
        reveal_strlit("of");
    }
    let r_multiple_of = multiple_of_type(b);
    let t = AnyType::Option(TOption::new(r_multiple_of));
    let id = name("maybe", "multiple", "of");
    proof {
        assert(id.view() =~~= seq!["maybe"@, "multiple"@, "of"@]);
        assert(maybe_multiple_of_schema(t, b@));
    }
    file(b, id, t)
}

/// Files the schema type for an end of the length range of a binary.
fn binary_length_element_type(b: &mut DefaultSchemaBuilder) -> (r: TypeRef)
    requires
        old(b)@.len() + 1 <= u32::MAX,
        described_all(old(b)@),
    ensures
        grows(old(b)@, final(b)@, 1),
        described_all(final(b)@),
        filed(final(b)@, r, seq!["binary"@, "length"@, "element"@]),
{
    proof {
        reveal_strlit("binary");
        reveal_strlit("element");
        reveal_strlit("length");
    }

    let t = AnyType::UInt(TUInt::try_new(0, 18446744073709551615u64).unwrap());
    let id = name("binary", "length", "element");
    proof {
        assert(id.view() =~~= seq!["binary"@, "length"@, "element"@]);
        assert(binary_length_element_schema(t, b@));
    }
    file(b, id, t)
}

/// Files the schema type for the length range of a binary (both ends included).
fn binary_length_type(b: &mut DefaultSchemaBuilder) -> (r: TypeRef)
    requires
        old(b)@.len() + 2 <= u32::MAX,
        described_all(old(b)@),
    ensures
        grows(old(b)@, final(b)@, 2),
        described_all(final(b)@),
        filed(final(b)@, r, seq!["binary"@, "length"@]),
{
    proof {
        reveal_strlit("");
        reveal_strlit("binary");
        reveal_strlit("length");
    }
    let r_binary_length_element = binary_length_element_type(b);
    let t = AnyType::Range(TRange::new(r_binary_length_element, Inclusion::BothInclusive, false));
    let id = name("binary", "length", "");
    proof {
        assert(id.view() =~~= seq!["binary"@, "length"@]);
        assert(binary_length_schema(t, b@));
    }
    file(b, id, t)
}

/// Files the schema type for an end of the range of an unsigned integer.
fn uint_range_element_type(b: &mut DefaultSchemaBuilder) -> (r: TypeRef)
    requires
        old(b)@.len() + 1 <= u32::MAX,
        described_all(old(b)@),
    ensures
        grows(old(b)@, final(b)@, 1),
        described_all(final(b)@),
        filed(final(b)@, r, seq!["uint"@, "range"@, "element"@]),
{
    proof {
        reveal_strlit("element");
        reveal_strlit("range");
        reveal_strlit("uint");
    }

    let t = AnyType::UInt(TUInt::try_new(0, 18446744073709551615u64).unwrap());
    let id = name("uint", "range", "element");
    proof {
        assert(id.view() =~~= seq!["uint"@, "range"@, "element"@]);
        assert(uint_range_element_schema(t, b@));
    }
    file(b, id, t)
}

/// Files the schema type for the range of an unsigned integer (both ends included).
fn uint_range_type(b: &mut DefaultSchemaBuilder) -> (r: TypeRef)
    requires
        old(b)@.len() + 2 <= u32::MAX,
        described_all(old(b)@),
    ensures
        grows(old(b)@, final(b)@, 2),
        described_all(final(b)@),
        filed(final(b)@, r, seq!["uint"@, "range"@]),
{
    proof {
        reveal_strlit("");
        reveal_strlit("range");
        reveal_strlit("uint");
    }
    let r_uint_range_element = uint_range_element_type(b);
    let t = AnyType::Range(TRange::new(r_uint_range_element, Inclusion::BothInclusive, true));
    let id = name("uint", "range", "");
    proof {
        assert(id.view() =~~= seq!["uint"@, "range"@]);
        assert(uint_range_schema(t, b@));
    }
    file(b, id, t)
}

/// Files the schema type for an end of the range of a signed integer.
fn sint_range_element_type(b: &mut DefaultSchemaBuilder) -> (r: TypeRef)
    requires
        old(b)@.len() + 1 <= u32::MAX,
        described_all(old(b)@),
    ensures
        grows(old(b)@, final(b)@, 1),
        described_all(final(b)@),
        filed(final(b)@, r, seq!["sint"@, "range"@, "element"@]),
{
    proof {
        reveal_strlit("element");
        reveal_strlit("range");
        reveal_strlit("sint");
    }

    let t = AnyType::SInt(TSInt::try_new(i64::MIN, i64::MAX).unwrap());
    let id = name("sint", "range", "element");
    proof {
        assert(id.view() =~~= seq!["sint"@, "range"@, "element"@]);
        assert(sint_range_element_schema(t, b@));
    }
    file(b, id, t)
}

/// Files the schema type for the range of a signed integer (both ends included).
fn sint_range_type(b: &mut DefaultSchemaBuilder) -> (r: TypeRef)
    requires
        old(b)@.len() + 2 <= u32::MAX,
        described_all(old(b)@),
    ensures
        grows(old(b)@, final(b)@, 2),
        described_all(final(b)@),
        filed(final(b)@, r, seq!["sint"@, "range"@]),
{
    proof {
        reveal_strlit("");
        reveal_strlit("range");
        reveal_strlit("sint");
    }
    let r_sint_range_element = sint_range_element_type(b);
    let t = AnyType::Range(TRange::new(r_sint_range_element, Inclusion::BothInclusive, true));
    let id = name("sint", "range", "");
    proof {
        assert(id.view() =~~= seq!["sint"@, "range"@]);
        assert(sint_range_schema(t, b@));
    }
    file(b, id, t)
}

/// Files the schema type for the type of a value of an enum variant.
fn value_type_type(b: &mut DefaultSchemaBuilder) -> (r: TypeRef)
    requires
        old(b)@.len() + 1 <= u32::MAX,
        described_all(old(b)@),
    ensures
        grows(old(b)@, final(b)@, 1),
        described_all(final(b)@),
        filed(final(b)@, r, seq!["value"@, "type"@]),
{
    proof {
        reveal_strlit("");
        reveal_strlit("type");
        reveal_strlit("value");
    }

    let t = AnyType::KeyRef(TKeyRef::default());
    let id = name("value", "type", "");
    proof {
        assert(id.view() =~~= seq!["value"@, "type"@]);
        assert(value_type_schema(t, b@));
    }
    file(b, id, t)
}

/// Files the schema type for the values of an enum variant: 1-32.
fn values_type(b: &mut DefaultSchemaBuilder) -> (r: TypeRef)
    requires
        old(b)@.len() + 2 <= u32::MAX,
        described_all(old(b)@),
    ensures
        grows(old(b)@, final(b)@, 2),
        described_all(final(b)@),
        filed(final(b)@, r, seq!["values"@]),
{
    proof {
        reveal_strlit("");
        reveal_strlit("values");
    }
    let r_value_type = value_type_type(b);
    let t = AnyType::Sequence(TSeq::try_new(r_value_type, 1, 32u32).unwrap());
    let id = name("values", "", "");
    proof {
        assert(id.view() =~~= seq!["values"@]);
        assert(values_schema(t, b@));
    }
    file(b, id, t)
}

/// Files the schema type for the optional values of an enum variant.
fn maybe_values_type(b: &mut DefaultSchemaBuilder) -> (r: TypeRef)
    requires
        old(b)@.len() + 3 <= u32::MAX,
        described_all(old(b)@),
    ensures
        grows(old(b)@, final(b)@, 3),
        described_all(final(b)@),
        filed(final(b)@, r, seq!["maybe"@, "values"@]),
{
    proof {
        reveal_strlit("");
        reveal_strlit("maybe");
        reveal_strlit("values");
    }
    let r_values = values_type(b);
    let t = AnyType::Option(TOption::new(r_values));
    let id = name("maybe", "values", "");
    proof {
        assert(id.view() =~~= seq!["maybe"@, "values"@]);
        assert(maybe_values_schema(t, b@));
    }
    file(b, id, t)
}

/// Files the schema type for an enum variant: its name and values.
fn variant_type(b: &mut DefaultSchemaBuilder) -> (r: TypeRef)
    requires
        old(b)@.len() + 6 <= u32::MAX,
        described_all(old(b)@),
    ensures
        grows(old(b)@, final(b)@, 6),
        described_all(final(b)@),
        filed(final(b)@, r, seq!["variant"@]),
{
    proof {
        reveal_strlit("");
        reveal_strlit("name");
        reveal_strlit("values");
        reveal_strlit("variant");
    }
    let r_identifier = identifier_type(b);
    let r_maybe_values = maybe_values_type(b);
    let x = TStruct::default()
        .add(Field::new(name("name", "", ""), r_identifier))
        .add(Field::new(name("values", "", ""), r_maybe_values));
    proof {
        lemma_struct_within(x, b@.len());
    }
    let t = AnyType::Struct(x);
    let id = name("variant", "", "");
    proof {
        assert(id.view() =~~= seq!["variant"@]);
        assert(variant_schema(t, b@));
    }
    file(b, id, t)
}

/// Files the schema type for the variants of an enum: one or more.
fn variants_type(b: &mut DefaultSchemaBuilder) -> (r: TypeRef)
    requires
        old(b)@.len() + 7 <= u32::MAX,
        described_all(old(b)@),
    ensures
        grows(old(b)@, final(b)@, 7),
        described_all(final(b)@),
        filed(final(b)@, r, seq!["variants"@]),
{
    proof {
        reveal_strlit("");
        reveal_strlit("variants");
    }
    let r_variant = variant_type(b);
    let t = AnyType::Sequence(TSeq::try_new(r_variant, 1, 4294967295u32).unwrap());
    let id = name("variants", "", "");
    proof {
        assert(id.view() =~~= seq!["variants"@]);
        assert(variants_schema(t, b@));
    }
    file(b, id, t)
}

/// Files the schema type for the type of a field of a structure.
fn field_type_type(b: &mut DefaultSchemaBuilder) -> (r: TypeRef)
    requires
        old(b)@.len() + 1 <= u32::MAX,
        described_all(old(b)@),
    ensures
        grows(old(b)@, final(b)@, 1),
        described_all(final(b)@),
        filed(final(b)@, r, seq!["field"@, "type"@]),
{
    proof {
        reveal_strlit("");
        reveal_strlit("field");
        reveal_strlit("type");
    }

    let t = AnyType::KeyRef(TKeyRef::default());
    let id = name("field", "type", "");
    proof {
        assert(id.view() =~~= seq!["field"@, "type"@]);
        assert(field_type_schema(t, b@));
    }
    file(b, id, t)
}

/// Files the schema type for a field of a structure: its name and type.
fn field_type(b: &mut DefaultSchemaBuilder) -> (r: TypeRef)
    requires
        old(b)@.len() + 4 <= u32::MAX,
        described_all(old(b)@),
    ensures
        grows(old(b)@, final(b)@, 4),
        described_all(final(b)@),
        filed(final(b)@, r, seq!["field"@]),
{
    proof {
        reveal_strlit("");
        reveal_strlit("field");
        reveal_strlit("name");
        reveal_strlit("type");
    }
    let r_identifier = identifier_type(b);
    let r_field_type = field_type_type(b);
    let x = TStruct::default()
        .add(Field::new(name("name", "", ""), r_identifier))
        .add(Field::new(name("type", "", ""), r_field_type));
    proof {
        lemma_struct_within(x, b@.len());
    }
    let t = AnyType::Struct(x);
    let id = name("field", "", "");
    proof {
        assert(id.view() =~~= seq!["field"@]);
        assert(field_schema(t, b@));
    }
    file(b, id, t)
}

/// Files the schema type for the fields of a structure.
fn fields_type(b: &mut DefaultSchemaBuilder) -> (r: TypeRef)
    requires
        old(b)@.len() + 5 <= u32::MAX,
        described_all(old(b)@),
    ensures
        grows(old(b)@, final(b)@, 5),
        described_all(final(b)@),
        filed(final(b)@, r, seq!["fields"@]),
{
    proof {
        reveal_strlit("");
        reveal_strlit("fields");
    }
    let r_field = field_type(b);
    let t = AnyType::Sequence(TSeq::try_new(r_field, 0, 4294967295u32).unwrap());
    let id = name("fields", "", "");
    proof {
        assert(id.view() =~~= seq!["fields"@]);
        assert(fields_schema(t, b@));
    }
    file(b, id, t)
}

/// Files the schema type for the type of the keys of a map.
fn map_key_type(b: &mut DefaultSchemaBuilder) -> (r: TypeRef)
    requires
        old(b)@.len() + 1 <= u32::MAX,
        described_all(old(b)@),
    ensures
        grows(old(b)@, final(b)@, 1),
        described_all(final(b)@),
        filed(final(b)@, r, seq!["map"@, "key"@]),
{
    proof {
        reveal_strlit("");
        reveal_strlit("key");
        reveal_strlit("map");
    }

    let t = AnyType::KeyRef(TKeyRef::default());
    let id = name("map", "key", "");
    proof {
        assert(id.view() =~~= seq!["map"@, "key"@]);
        assert(map_key_schema(t, b@));
    }
    file(b, id, t)
}

/// Files the schema type for the type of the values of a map.
fn map_value_type(b: &mut DefaultSchemaBuilder) -> (r: TypeRef)
    requires
        old(b)@.len() + 1 <= u32::MAX,
        described_all(old(b)@),
    ensures
        grows(old(b)@, final(b)@, 1),
        described_all(final(b)@),
        filed(final(b)@, r, seq!["map"@, "value"@]),
{
    proof {
        reveal_strlit("");
        reveal_strlit("map");
        reveal_strlit("value");
    }

    let t = AnyType::KeyRef(TKeyRef::default());
    let id = name("map", "value", "");
    proof {
        assert(id.view() =~~= seq!["map"@, "value"@]);
        assert(map_value_schema(t, b@));
    }
    file(b, id, t)
}

/// Files the schema type for an end of the length range of a map.
fn map_length_element_type(b: &mut DefaultSchemaBuilder) -> (r: TypeRef)
    requires
        old(b)@.len() + 1 <= u32::MAX,
        described_all(old(b)@),
    ensures
        grows(old(b)@, final(b)@, 1),
        described_all(final(b)@),
        filed(final(b)@, r, seq!["map"@, "length"@, "element"@]),
{
    proof {
        reveal_strlit("element");
        reveal_strlit("length");
        reveal_strlit("map");
    }

    let t = AnyType::UInt(TUInt::try_new(0, 4294967295u64).unwrap());
    let id = name("map", "length", "element");
    proof {
        assert(id.view() =~~= seq!["map"@, "length"@, "element"@]);
        assert(map_length_element_schema(t, b@));
    }
    file(b, id, t)
}

/// Files the schema type for the length range of a map (both ends included).
fn map_length_type(b: &mut DefaultSchemaBuilder) -> (r: TypeRef)
    requires
        old(b)@.len() + 2 <= u32::MAX,
        described_all(old(b)@),
    ensures
        grows(old(b)@, final(b)@, 2),
        described_all(final(b)@),
        filed(final(b)@, r, seq!["map"@, "length"@]),
{
    proof {
        reveal_strlit("");
        reveal_strlit("length");
        reveal_strlit("map");
    }
    let r_map_length_element = map_length_element_type(b);
    let t = AnyType::Range(TRange::new(r_map_length_element, Inclusion::BothInclusive, false));
    let id = name("map", "length", "");
    proof {
        assert(id.view() =~~= seq!["map"@, "length"@]);
        assert(map_length_schema(t, b@));
    }
    file(b, id, t)
}

/// Files the schema type for the sorting of the keys of a map.
fn map_sorting_type(b: &mut DefaultSchemaBuilder) -> (r: TypeRef)
    requires
        old(b)@.len() + 1 <= u32::MAX,
        described_all(old(b)@),
    ensures
        grows(old(b)@, final(b)@, 1),
        described_all(final(b)@),
        filed(final(b)@, r, seq!["map"@, "sorting"@]),
{
    proof {
        reveal_strlit("");
        reveal_strlit("ascending");
        reveal_strlit("descending");
        reveal_strlit("map");
        reveal_strlit("sorting");
    }
    let x = TEnum::default();
    let x = with_variant(x, name("ascending", "", ""), None);
    proof {
        assert(x.spec_variants()[0].spec_name().view() =~~= seq!["ascending"@]);
    }
    let x = with_variant(x, name("descending", "", ""), None);
    proof {
        assert(x.spec_variants()[1].spec_name().view() =~~= seq!["descending"@]);
    }
    proof {
        lemma_enum_within(x, b@.len());
    }
    let t = AnyType::Enum(x);
    let id = name("map", "sorting", "");
    proof {
        assert(id.view() =~~= seq!["map"@, "sorting"@]);
        assert(map_sorting_schema(t, b@));
    }
    file(b, id, t)
}

/// Files the schema type for whether the keys of a map can be referenced.
fn anchors_type(b: &mut DefaultSchemaBuilder) -> (r: TypeRef)
    requires
        old(b)@.len() + 1 <= u32::MAX,
        described_all(old(b)@),
    ensures
        grows(old(b)@, final(b)@, 1),
        described_all(final(b)@),
        filed(final(b)@, r, seq!["anchors"@]),
{
    proof {
        reveal_strlit("");
        reveal_strlit("anchors");
    }

    let t = AnyType::Bool(TBool::default());
    let id = name("anchors", "", "");
    proof {
        assert(id.view() =~~= seq!["anchors"@]);
        assert(anchors_schema(t, b@));
    }
    file(b, id, t)
}

/// Files the schema type for the type of the root of a root map.
fn root_type(b: &mut DefaultSchemaBuilder) -> (r: TypeRef)
    requires
        old(b)@.len() + 1 <= u32::MAX,
        described_all(old(b)@),
    ensures
        grows(old(b)@, final(b)@, 1),
        described_all(final(b)@),
        filed(final(b)@, r, seq!["root"@]),
{
    proof {
        reveal_strlit("");
        reveal_strlit("root");
    }

    let t = AnyType::KeyRef(TKeyRef::default());
    let id = name("root", "", "");
    proof {
        assert(id.view() =~~= seq!["root"@]);
        assert(root_schema(t, b@));
    }
    file(b, id, t)
}

/// Files the schema type for the type of the keys of a root map.
fn key_type(b: &mut DefaultSchemaBuilder) -> (r: TypeRef)
    requires
        old(b)@.len() + 1 <= u32::MAX,
        described_all(old(b)@),
    ensures
        grows(old(b)@, final(b)@, 1),
        described_all(final(b)@),
        filed(final(b)@, r, seq!["key"@]),
{
    proof {
        reveal_strlit("");
        reveal_strlit("key");
    }

    let t = AnyType::KeyRef(TKeyRef::default());
    let id = name("key", "", "");
    proof {
        assert(id.view() =~~= seq!["key"@]);
        assert(key_schema(t, b@));
    }
    file(b, id, t)
}

/// Files the schema type for the type of the values of a root map.
fn value_type(b: &mut DefaultSchemaBuilder) -> (r: TypeRef)
    requires
        old(b)@.len() + 1 <= u32::MAX,
        described_all(old(b)@),
    ensures
        grows(old(b)@, final(b)@, 1),
        described_all(final(b)@),
        filed(final(b)@, r, seq!["value"@]),
{
    proof {
        reveal_strlit("");
        reveal_strlit("value");
    }

    let t = AnyType::KeyRef(TKeyRef::default());
    let id = name("value", "", "");
    proof {
        assert(id.view() =~~= seq!["value"@]);
        assert(value_schema(t, b@));
    }
    file(b, id, t)
}

/// Files the schema type for the level of a key reference.
fn level_type(b: &mut DefaultSchemaBuilder) -> (r: TypeRef)
    requires
        old(b)@.len() + 1 <= u32::MAX,
        described_all(old(b)@),
    ensures
        grows(old(b)@, final(b)@, 1),
        described_all(final(b)@),
        filed(final(b)@, r, seq!["level"@]),
{
    proof {
        reveal_strlit("");
        reveal_strlit("level");
    }

    let t = AnyType::UInt(TUInt::try_new(0, 4294967295u64).unwrap());
    let id = name("level", "", "");
    proof {
        assert(id.view() =~~= seq!["level"@]);
        assert(level_schema(t, b@));
    }
    file(b, id, t)
}

/// Files the schema type for the element type of a range.
fn range_element_type(b: &mut DefaultSchemaBuilder) -> (r: TypeRef)
    requires
        old(b)@.len() + 1 <= u32::MAX,
        described_all(old(b)@),
    ensures
        grows(old(b)@, final(b)@, 1),
        described_all(final(b)@),
        filed(final(b)@, r, seq!["range"@, "element"@]),
{
    proof {
        reveal_strlit("");
        reveal_strlit("element");
        reveal_strlit("range");
    }

    let t = AnyType::KeyRef(TKeyRef::default());
    let id = name("range", "element", "");
    proof {
        assert(id.view() =~~= seq!["range"@, "element"@]);
        assert(range_element_schema(t, b@));
    }
    file(b, id, t)
}

/// Files the schema type for whether the ends of a range are included.
fn inclusion_type(b: &mut DefaultSchemaBuilder) -> (r: TypeRef)
    requires
        old(b)@.len() + 1 <= u32::MAX,
        described_all(old(b)@),
    ensures
        grows(old(b)@, final(b)@, 1),
        described_all(final(b)@),
        filed(final(b)@, r, seq!["inclusion"@]),
{
    proof {
        reveal_strlit("");
        reveal_strlit("both");
        reveal_strlit("end");
        reveal_strlit("exclusive");
        reveal_strlit("inclusion");
        reveal_strlit("inclusive");
        reveal_strlit("start");
        reveal_strlit("supplied");
    }
    let x = TEnum::default();
    let x = with_variant(x, name("both", "inclusive", ""), None);
    proof {
        assert(x.spec_variants()[0].spec_name().view() =~~= seq!["both"@, "inclusive"@]);
    }
    let x = with_variant(x, name("start", "inclusive", ""), None);
    proof {
        assert(x.spec_variants()[1].spec_name().view() =~~= seq!["start"@, "inclusive"@]);
    }
    let x = with_variant(x, name("both", "exclusive", ""), None);
    proof {
        assert(x.spec_variants()[2].spec_name().view() =~~= seq!["both"@, "exclusive"@]);
    }
    let x = with_variant(x, name("end", "inclusive", ""), None);
    proof {
        assert(x.spec_variants()[3].spec_name().view() =~~= seq!["end"@, "inclusive"@]);
    }
    let x = with_variant(x, name("supplied", "", ""), None);
    proof {
        assert(x.spec_variants()[4].spec_name().view() =~~= seq!["supplied"@]);
    }
    proof {
        lemma_enum_within(x, b@.len());
    }
    let t = AnyType::Enum(x);
    let id = name("inclusion", "", "");
    proof {
        assert(id.view() =~~= seq!["inclusion"@]);
        assert(inclusion_schema(t, b@));
    }
    file(b, id, t)
}

/// Files the schema type for whether the start of a range may equal its end.
fn allow_equal_type(b: &mut DefaultSchemaBuilder) -> (r: TypeRef)
    requires
        old(b)@.len() + 1 <= u32::MAX,
        described_all(old(b)@),
    ensures
        grows(old(b)@, final(b)@, 1),
        described_all(final(b)@),
        filed(final(b)@, r, seq!["allow"@, "equal"@]),
{
    proof {
        reveal_strlit("");
        reveal_strlit("allow");
        reveal_strlit("equal");
    }

    let t = AnyType::Bool(TBool::default());
    let id = name("allow", "equal", "");
    proof {
        assert(id.view() =~~= seq!["allow"@, "equal"@]);
        assert(allow_equal_schema(t, b@));
    }
    file(b, id, t)
}

/// Files the schema type for the type of the master of anchors.
fn anchor_master_type_type(b: &mut DefaultSchemaBuilder) -> (r: TypeRef)
    requires
        old(b)@.len() + 1 <= u32::MAX,
        described_all(old(b)@),
    ensures
        grows(old(b)@, final(b)@, 1),
        described_all(final(b)@),
        filed(final(b)@, r, seq!["anchor"@, "master"@, "type"@]),
{
    proof {
        reveal_strlit("anchor");
        reveal_strlit("master");
        reveal_strlit("type");
    }

    let t = AnyType::KeyRef(TKeyRef::default());
    let id = name("anchor", "master", "type");
    proof {
        assert(id.view() =~~= seq!["anchor"@, "master"@, "type"@]);
        assert(anchor_master_type_schema(t, b@));
    }
    file(b, id, t)
}

/// Files the schema type for the type of the further anchors.
fn anchor_type_type(b: &mut DefaultSchemaBuilder) -> (r: TypeRef)
    requires
        old(b)@.len() + 1 <= u32::MAX,
        described_all(old(b)@),
    ensures
        grows(old(b)@, final(b)@, 1),
        described_all(final(b)@),
        filed(final(b)@, r, seq!["anchor"@, "type"@]),
{
    proof {
        reveal_strlit("");
        reveal_strlit("anchor");
        reveal_strlit("type");
    }

    let t = AnyType::KeyRef(TKeyRef::default());
    let id = name("anchor", "type", "");
    proof {
        assert(id.view() =~~= seq!["anchor"@, "type"@]);
        assert(anchor_type_schema(t, b@));
    }
    file(b, id, t)
}

/// Files the schema type for the largest number of further anchors.
fn max_anchors_type(b: &mut DefaultSchemaBuilder) -> (r: TypeRef)
    requires
        old(b)@.len() + 1 <= u32::MAX,
        described_all(old(b)@),
    ensures
        grows(old(b)@, final(b)@, 1),
        described_all(final(b)@),
        filed(final(b)@, r, seq!["max"@, "anchors"@]),
{
    proof {
        reveal_strlit("");
        reveal_strlit("anchors");
        reveal_strlit("max");
    }

    let t = AnyType::UInt(TUInt::try_new(0, 4294967295u64).unwrap());
    let id = name("max", "anchors", "");
    proof {
        assert(id.view() =~~= seq!["max"@, "anchors"@]);
        assert(max_anchors_schema(t, b@));
    }
    file(b, id, t)
}

/// Files the schema type for an optional largest number of further anchors.
fn maybe_max_anchors_type(b: &mut DefaultSchemaBuilder) -> (r: TypeRef)
    requires
        old(b)@.len() + 2 <= u32::MAX,
        described_all(old(b)@),
    ensures
        grows(old(b)@, final(b)@, 2),
        described_all(final(b)@),
        filed(final(b)@, r, seq!["maybe"@, "max"@, "anchors"@]),
{
    proof {
        reveal_strlit("anchors");
        reveal_strlit("max");
        reveal_strlit("maybe");
    }
    let r_max_anchors = max_anchors_type(b);
    let t = AnyType::Option(TOption::new(r_max_anchors));
    let id = name("maybe", "max", "anchors");
    proof {
        assert(id.view() =~~= seq!["maybe"@, "max"@, "anchors"@]);
        assert(maybe_max_anchors_schema(t, b@));
    }
    file(b, id, t)
}

/// Files the schema type for an end of the length range of an ASCII text.
fn ascii_length_element_type(b: &mut DefaultSchemaBuilder) -> (r: TypeRef)
    requires
        old(b)@.len() + 1 <= u32::MAX,
        described_all(old(b)@),
    ensures
        grows(old(b)@, final(b)@, 1),
        described_all(final(b)@),
        filed(final(b)@, r, seq!["ascii"@, "length"@, "element"@]),
{
    proof {
        reveal_strlit("ascii");
        reveal_strlit("element");
        reveal_strlit("length");
    }

    let t = AnyType::UInt(TUInt::try_new(0, 18446744073709551615u64).unwrap());
    let id = name("ascii", "length", "element");
    proof {
        assert(id.view() =~~= seq!["ascii"@, "length"@, "element"@]);
        assert(ascii_length_element_schema(t, b@));
    }
    file(b, id, t)
}

/// Files the schema type for the length range of an ASCII text (both ends included).
fn ascii_length_type(b: &mut DefaultSchemaBuilder) -> (r: TypeRef)
    requires
        old(b)@.len() + 2 <= u32::MAX,
        described_all(old(b)@),
    ensures
        grows(old(b)@, final(b)@, 2),
        described_all(final(b)@),
        filed(final(b)@, r, seq!["ascii"@, "length"@]),
{
    proof {
        reveal_strlit("");
        reveal_strlit("ascii");
        reveal_strlit("length");
    }
    let r_ascii_length_element = ascii_length_element_type(b);
    let t = AnyType::Range(TRange::new(r_ascii_length_element, Inclusion::BothInclusive, true));
    let id = name("ascii", "length", "");
    proof {
        assert(id.view() =~~= seq!["ascii"@, "length"@]);
        assert(ascii_length_schema(t, b@));
    }
    file(b, id, t)
}

/// Files the schema type for an end of a range of character codes.
fn code_range_element_type(b: &mut DefaultSchemaBuilder) -> (r: TypeRef)
    requires
        old(b)@.len() + 1 <= u32::MAX,
        described_all(old(b)@),
    ensures
        grows(old(b)@, final(b)@, 1),
        described_all(final(b)@),
        filed(final(b)@, r, seq!["code"@, "range"@, "element"@]),
{
    proof {
        reveal_strlit("code");
        reveal_strlit("element");
        reveal_strlit("range");
    }

    let t = AnyType::UInt(TUInt::try_new(0, 4294967295u64).unwrap());
    let id = name("code", "range", "element");
    proof {
        assert(id.view() =~~= seq!["code"@, "range"@, "element"@]);
        assert(code_range_element_schema(t, b@));
    }
    file(b, id, t)
}

/// Files the schema type for a range of character codes, the end excluded.
fn code_range_type(b: &mut DefaultSchemaBuilder) -> (r: TypeRef)
    requires
        old(b)@.len() + 2 <= u32::MAX,
        described_all(old(b)@),
    ensures
        grows(old(b)@, final(b)@, 2),
        described_all(final(b)@),
        filed(final(b)@, r, seq!["code"@, "range"@]),
{
    proof {
        reveal_strlit("");
        reveal_strlit("code");
        reveal_strlit("range");
    }
    let r_code_range_element = code_range_element_type(b);
    let t = AnyType::Range(TRange::new(r_code_range_element, Inclusion::StartInclusive, false));
    let id = name("code", "range", "");
    proof {
        assert(id.view() =~~= seq!["code"@, "range"@]);
        assert(code_range_schema(t, b@));
    }
    file(b, id, t)
}

/// Files the schema type for the character codes of an ASCII text.
fn code_ranges_type(b: &mut DefaultSchemaBuilder) -> (r: TypeRef)
    requires
        old(b)@.len() + 3 <= u32::MAX,
        described_all(old(b)@),
    ensures
        grows(old(b)@, final(b)@, 3),
        described_all(final(b)@),
        filed(final(b)@, r, seq!["code"@, "ranges"@]),
{
    proof {
        reveal_strlit("");
        reveal_strlit("code");
        reveal_strlit("ranges");
    }
    let r_code_range = code_range_type(b);
    let t = AnyType::Sequence(TSeq::try_new(r_code_range, 1, 4294967295u32).unwrap());
    let id = name("code", "ranges", "");
    proof {
        assert(id.view() =~~= seq!["code"@, "ranges"@]);
        assert(code_ranges_schema(t, b@));
    }
    file(b, id, t)
}

/// Files the schema type for an end of the length range of a unicode text.
fn unicode_length_element_type(b: &mut DefaultSchemaBuilder) -> (r: TypeRef)
    requires
        old(b)@.len() + 1 <= u32::MAX,
        described_all(old(b)@),
    ensures
        grows(old(b)@, final(b)@, 1),
        described_all(final(b)@),
        filed(final(b)@, r, seq!["unicode"@, "length"@, "element"@]),
{
    proof {
        reveal_strlit("element");
        reveal_strlit("length");
        reveal_strlit("unicode");
    }

    let t = AnyType::UInt(TUInt::try_new(0, 18446744073709551615u64).unwrap());
    let id = name("unicode", "length", "element");
    proof {
        assert(id.view() =~~= seq!["unicode"@, "length"@, "element"@]);
        assert(unicode_length_element_schema(t, b@));
    }
    file(b, id, t)
}

/// Files the schema type for the length range of a unicode text (both ends included).
fn unicode_length_type(b: &mut DefaultSchemaBuilder) -> (r: TypeRef)
    requires
        old(b)@.len() + 2 <= u32::MAX,
        described_all(old(b)@),
    ensures
        grows(old(b)@, final(b)@, 2),
        described_all(final(b)@),
        filed(final(b)@, r, seq!["unicode"@, "length"@]),
{
    proof {
        reveal_strlit("");
        reveal_strlit("length");
        reveal_strlit("unicode");
    }
    let r_unicode_length_element = unicode_length_element_type(b);
    let t = AnyType::Range(TRange::new(r_unicode_length_element, Inclusion::BothInclusive, true));
    let id = name("unicode", "length", "");
    proof {
        assert(id.view() =~~= seq!["unicode"@, "length"@]);
        assert(unicode_length_schema(t, b@));
    }
    file(b, id, t)
}

/// Files the schema type for how the length of a text is measured.
fn length_type_type(b: &mut DefaultSchemaBuilder) -> (r: TypeRef)
    requires
        old(b)@.len() + 1 <= u32::MAX,
        described_all(old(b)@),
    ensures
        grows(old(b)@, final(b)@, 1),
        described_all(final(b)@),
        filed(final(b)@, r, seq!["length"@, "type"@]),
{
    proof {
        reveal_strlit("");
        reveal_strlit("byte");
        reveal_strlit("length");
        reveal_strlit("type");
        reveal_strlit("utf8");
    }
    let x = TEnum::default();
    let x = with_variant(x, name("utf8", "byte", ""), None);
    proof {
        assert(x.spec_variants()[0].spec_name().view() =~~= seq!["utf8"@, "byte"@]);
    }
    proof {
        lemma_enum_within(x, b@.len());
    }
    let t = AnyType::Enum(x);
    let id = name("length", "type", "");
    proof {
        assert(id.view() =~~= seq!["length"@, "type"@]);
        assert(length_type_schema(t, b@));
    }
    file(b, id, t)
}

/// Files the schema type for a documentation text: 1-4000 UTF-8 bytes.
fn documentation_type(b: &mut DefaultSchemaBuilder) -> (r: TypeRef)
    requires
        old(b)@.len() + 1 <= u32::MAX,
        described_all(old(b)@),
    ensures
        grows(old(b)@, final(b)@, 1),
        described_all(final(b)@),
        filed(final(b)@, r, seq!["documentation"@]),
{
    proof {
        reveal_strlit("");
        reveal_strlit("documentation");
    }

    let t = AnyType::Unicode(TUnicode::try_new(1, 4000, LengthType::Utf8Byte).unwrap());
    let id = name("documentation", "", "");
    proof {
        assert(id.view() =~~= seq!["documentation"@]);
        assert(documentation_schema(t, b@));
    }
    file(b, id, t)
}

/// Files the schema type for an optional documentation.
fn maybe_doc_type(b: &mut DefaultSchemaBuilder) -> (r: TypeRef)
    requires
        old(b)@.len() + 2 <= u32::MAX,
        described_all(old(b)@),
    ensures
        grows(old(b)@, final(b)@, 2),
        described_all(final(b)@),
        filed(final(b)@, r, seq!["maybe"@, "doc"@]),
{
    proof {
        reveal_strlit("");
        reveal_strlit("doc");
        reveal_strlit("maybe");
    }
    let r_documentation = documentation_type(b);
    let t = AnyType::Option(TOption::new(r_documentation));
    let id = name("maybe", "doc", "");
    proof {
        assert(id.view() =~~= seq!["maybe"@, "doc"@]);
        assert(maybe_doc_schema(t, b@));
    }
    file(b, id, t)
}

/// Files the schema type for a UUID a type implements.
fn implements_uuid_type(b: &mut DefaultSchemaBuilder) -> (r: TypeRef)
    requires
        old(b)@.len() + 1 <= u32::MAX,
        described_all(old(b)@),
    ensures
        grows(old(b)@, final(b)@, 1),
        described_all(final(b)@),
        filed(final(b)@, r, seq!["implements"@, "uuid"@]),
{
    proof {
        reveal_strlit("");
        reveal_strlit("implements");
        reveal_strlit("uuid");
    }

    let t = AnyType::Uuid(TUuid::default());
    let id = name("implements", "uuid", "");
    proof {
        assert(id.view() =~~= seq!["implements"@, "uuid"@]);
        assert(implements_uuid_schema(t, b@));
    }
    file(b, id, t)
}

/// Files the schema type for the UUIDs a type implements: 1-255, ascending, no duplicates.
fn implements_type(b: &mut DefaultSchemaBuilder) -> (r: TypeRef)
    requires
        old(b)@.len() + 2 <= u32::MAX,
        described_all(old(b)@),
    ensures
        grows(old(b)@, final(b)@, 2),
        described_all(final(b)@),
        filed(final(b)@, r, seq!["implements"@]),
{
    proof {
        reveal_strlit("");
        reveal_strlit("implements");
    }
    let r_implements_uuid = implements_uuid_type(b);
    let ordering = SeqOrdering::Sorted(Sorted { direction: Direction::Ascending, unique: true });
    let t = AnyType::Sequence(TSeq::new(r_implements_uuid, U32IneRange::try_new(1, 255).unwrap(), ordering));
    let id = name("implements", "", "");
    proof {
        assert(id.view() =~~= seq!["implements"@]);
        assert(implements_schema(t, b@));
    }
    file(b, id, t)
}

/// Files the schema type for an optional set of implemented UUIDs.
fn maybe_implements_type(b: &mut DefaultSchemaBuilder) -> (r: TypeRef)
    requires
        old(b)@.len() + 3 <= u32::MAX,
        described_all(old(b)@),
    ensures
        grows(old(b)@, final(b)@, 3),
        described_all(final(b)@),
        filed(final(b)@, r, seq!["maybe"@, "implements"@]),
{
    proof {
        reveal_strlit("");
        reveal_strlit("implements");
        reveal_strlit("maybe");
    }
    let r_implements = implements_type(b);
    let t = AnyType::Option(TOption::new(r_implements));
    let id = name("maybe", "implements", "");
    proof {
        assert(id.view() =~~= seq!["maybe"@, "implements"@]);
        assert(maybe_implements_schema(t, b@));
    }
    file(b, id, t)
}

/// Files the schema type for the metadata of a type.
fn meta_type(b: &mut DefaultSchemaBuilder) -> (r: TypeRef)
    requires
        old(b)@.len() + 6 <= u32::MAX,
        described_all(old(b)@),
    ensures
        grows(old(b)@, final(b)@, 6),
        described_all(final(b)@),
        filed(final(b)@, r, seq!["meta"@]),
{
    proof {
        reveal_strlit("");
        reveal_strlit("doc");
        reveal_strlit("implements");
        reveal_strlit("meta");
    }
    let r_maybe_doc = maybe_doc_type(b);
    let r_maybe_implements = maybe_implements_type(b);
    let x = TStruct::default()
        .add(Field::new(name("doc", "", ""), r_maybe_doc))
        .add(Field::new(name("implements", "", ""), r_maybe_implements));
    proof {
        lemma_struct_within(x, b@.len());
    }
    let t = AnyType::Struct(x);
    let id = name("meta", "", "");
    proof {
        assert(id.view() =~~= seq!["meta"@]);
        assert(meta_schema(t, b@));
    }
    file(b, id, t)
}

impl TBool {
    /// The schema of a boolean type without its metadata: a structure with one field per
    /// property of the type; the field types are filed in the builder.
    pub fn build_schema(b: &mut DefaultSchemaBuilder) -> (r: TStruct)
        requires
            old(b)@.len() + 0 <= u32::MAX,
            described_all(old(b)@),
        ensures
            grows(old(b)@, final(b)@, 0),
            described_all(final(b)@),
            r.spec_fields().len() == 0,
            r.spec_meta().doc is None && r.spec_meta().implements is None,
            fields_are(r.spec_fields(), final(b)@, Seq::<Seq<Seq<char>>>::empty(), Seq::<Seq<Seq<char>>>::empty()),
    {

        let r = TStruct::default();
        proof {
            assert(fields_are(r.spec_fields(), b@, Seq::<Seq<Seq<char>>>::empty(), Seq::<Seq<Seq<char>>>::empty())) by {
                assert forall|i: int| 0 <= i < r.spec_fields().len() implies (#[trigger] r.spec_fields()[i]).spec_name().view() == Seq::<Seq<Seq<char>>>::empty()[i] by {}
            }
        }
        r
    }
}

impl TOption {
    /// The schema of a optional value type without its metadata: a structure with one field per
    /// property of the type; the field types are filed in the builder.
    pub fn build_schema(b: &mut DefaultSchemaBuilder) -> (r: TStruct)
        requires
            old(b)@.len() + 1 <= u32::MAX,
            described_all(old(b)@),
        ensures
            grows(old(b)@, final(b)@, 1),
            described_all(final(b)@),
            r.spec_fields().len() == 1,
            r.spec_meta().doc is None && r.spec_meta().implements is None,
            fields_are(r.spec_fields(), final(b)@, seq![seq!["type"@]], seq![seq!["present"@, "type"@]]),
    {
        proof {
            reveal_strlit("");
            reveal_strlit("type");
        }
        let r_type = present_type_type(b);
        let r = TStruct::default()
            .add(Field::new(name("type", "", ""), r_type));
        proof {
            assert(fields_are(r.spec_fields(), b@, seq![seq!["type"@]], seq![seq!["present"@, "type"@]])) by {
                assert forall|i: int| 0 <= i < r.spec_fields().len() implies (#[trigger] r.spec_fields()[i]).spec_name().view() == seq![seq!["type"@]][i] by {}
            }
        }
        r
    }
}

impl TSeq {
    /// The schema of a sequence type without its metadata: a structure with one field per
    /// property of the type; the field types are filed in the builder.
    pub fn build_schema(b: &mut DefaultSchemaBuilder) -> (r: TStruct)
        requires
            old(b)@.len() + 9 <= u32::MAX,
            described_all(old(b)@),
        ensures
            grows(old(b)@, final(b)@, 9),
            described_all(final(b)@),
            r.spec_fields().len() == 4,
            r.spec_meta().doc is None && r.spec_meta().implements is None,
            fields_are(r.spec_fields(), final(b)@, seq![seq!["element"@], seq!["length"@], seq!["ordering"@], seq!["multiple"@, "of"@]], seq![seq!["element"@], seq!["seq"@, "length"@], seq!["ordering"@], seq!["maybe"@, "multiple"@, "of"@]]),
    {
        proof {
            reveal_strlit("");
            reveal_strlit("element");
            reveal_strlit("length");
            reveal_strlit("multiple");
            reveal_strlit("of");
            reveal_strlit("ordering");
        }
        let r_element = element_type(b);
        let r_length = seq_length_type(b);
        let r_ordering = ordering_type(b);
        let r_multiple_of = maybe_multiple_of_type(b);
        let r = TStruct::default()
            .add(Field::new(name("element", "", ""), r_element))
            .add(Field::new(name("length", "", ""), r_length))
            .add(Field::new(name("ordering", "", ""), r_ordering))
            .add(Field::new(name("multiple", "of", ""), r_multiple_of));
        proof {
            assert(fields_are(r.spec_fields(), b@, seq![seq!["element"@], seq!["length"@], seq!["ordering"@], seq!["multiple"@, "of"@]], seq![seq!["element"@], seq!["seq"@, "length"@], seq!["ordering"@], seq!["maybe"@, "multiple"@, "of"@]])) by {
                assert forall|i: int| 0 <= i < r.spec_fields().len() implies (#[trigger] r.spec_fields()[i]).spec_name().view() == seq![seq!["element"@], seq!["length"@], seq!["ordering"@], seq!["multiple"@, "of"@]][i] by {}
            }
        }
        r
    }
}

impl TBinary {
    /// The schema of a binary type without its metadata: a structure with one field per
    /// property of the type; the field types are filed in the builder.
    pub fn build_schema(b: &mut DefaultSchemaBuilder) -> (r: TStruct)
        requires
            old(b)@.len() + 2 <= u32::MAX,
            described_all(old(b)@),
        ensures
            grows(old(b)@, final(b)@, 2),
            described_all(final(b)@),
            r.spec_fields().len() == 1,
            r.spec_meta().doc is None && r.spec_meta().implements is None,
            fields_are(r.spec_fields(), final(b)@, seq![seq!["length"@]], seq![seq!["binary"@, "length"@]]),
    {
        proof {
            reveal_strlit("");
            reveal_strlit("length");
        }
        let r_length = binary_length_type(b);
        let r = TStruct::default()
            .add(Field::new(name("length", "", ""), r_length));
        proof {
            assert(fields_are(r.spec_fields(), b@, seq![seq!["length"@]], seq![seq!["binary"@, "length"@]])) by {
                assert forall|i: int| 0 <= i < r.spec_fields().len() implies (#[trigger] r.spec_fields()[i]).spec_name().view() == seq![seq!["length"@]][i] by {}
            }
        }
        r
    }
}

impl TUInt {
    /// The schema of a unsigned integer type without its metadata: a structure with one field per
    /// property of the type; the field types are filed in the builder.
    pub fn build_schema(b: &mut DefaultSchemaBuilder) -> (r: TStruct)
        requires
            old(b)@.len() + 2 <= u32::MAX,
            described_all(old(b)@),
        ensures
            grows(old(b)@, final(b)@, 2),
            described_all(final(b)@),
            r.spec_fields().len() == 1,
            r.spec_meta().doc is None && r.spec_meta().implements is None,
            fields_are(r.spec_fields(), final(b)@, seq![seq!["range"@]], seq![seq!["uint"@, "range"@]]),
    {
        proof {
            reveal_strlit("");
            reveal_strlit("range");
        }
        let r_range = uint_range_type(b);
        let r = TStruct::default()
            .add(Field::new(name("range", "", ""), r_range));
        proof {
            assert(fields_are(r.spec_fields(), b@, seq![seq!["range"@]], seq![seq!["uint"@, "range"@]])) by {
                assert forall|i: int| 0 <= i < r.spec_fields().len() implies (#[trigger] r.spec_fields()[i]).spec_name().view() == seq![seq!["range"@]][i] by {}
            }
        }
        r
    }
}

impl TSInt {
    /// The schema of a signed integer type without its metadata: a structure with one field per
    /// property of the type; the field types are filed in the builder.
    pub fn build_schema(b: &mut DefaultSchemaBuilder) -> (r: TStruct)
        requires
            old(b)@.len() + 2 <= u32::MAX,
            described_all(old(b)@),
        ensures
            grows(old(b)@, final(b)@, 2),
            described_all(final(b)@),
            r.spec_fields().len() == 1,
            r.spec_meta().doc is None && r.spec_meta().implements is None,
            fields_are(r.spec_fields(), final(b)@, seq![seq!["range"@]], seq![seq!["sint"@, "range"@]]),
    {
        proof {
            reveal_strlit("");
            reveal_strlit("range");
        }
        let r_range = sint_range_type(b);
        let r = TStruct::default()
            .add(Field::new(name("range", "", ""), r_range));
        proof {
            assert(fields_are(r.spec_fields(), b@, seq![seq!["range"@]], seq![seq!["sint"@, "range"@]])) by {
                assert forall|i: int| 0 <= i < r.spec_fields().len() implies (#[trigger] r.spec_fields()[i]).spec_name().view() == seq![seq!["range"@]][i] by {}
            }
        }
        r
    }
}

impl TEnum {
    /// The schema of a enum type without its metadata: a structure with one field per
    /// property of the type; the field types are filed in the builder.
    pub fn build_schema(b: &mut DefaultSchemaBuilder) -> (r: TStruct)
        requires
            old(b)@.len() + 7 <= u32::MAX,
            described_all(old(b)@),
        ensures
            grows(old(b)@, final(b)@, 7),
            described_all(final(b)@),
            r.spec_fields().len() == 1,
            r.spec_meta().doc is None && r.spec_meta().implements is None,
            fields_are(r.spec_fields(), final(b)@, seq![seq!["variants"@]], seq![seq!["variants"@]]),
    {
        proof {
            reveal_strlit("");
            reveal_strlit("variants");
        }
        let r_variants = variants_type(b);
        let r = TStruct::default()
            .add(Field::new(name("variants", "", ""), r_variants));
        proof {
            assert(fields_are(r.spec_fields(), b@, seq![seq!["variants"@]], seq![seq!["variants"@]])) by {
                assert forall|i: int| 0 <= i < r.spec_fields().len() implies (#[trigger] r.spec_fields()[i]).spec_name().view() == seq![seq!["variants"@]][i] by {}
            }
        }
        r
    }
}

impl TStruct {
    /// The schema of a structure type without its metadata: a structure with one field per
    /// property of the type; the field types are filed in the builder.
    pub fn build_schema(b: &mut DefaultSchemaBuilder) -> (r: TStruct)
        requires
            old(b)@.len() + 5 <= u32::MAX,
            described_all(old(b)@),
        ensures
            grows(old(b)@, final(b)@, 5),
            described_all(final(b)@),
            r.spec_fields().len() == 1,
            r.spec_meta().doc is None && r.spec_meta().implements is None,
            fields_are(r.spec_fields(), final(b)@, seq![seq!["fields"@]], seq![seq!["fields"@]]),
    {
        proof {
            reveal_strlit("");
            reveal_strlit("fields");
        }
        let r_fields = fields_type(b);
        let r = TStruct::default()
            .add(Field::new(name("fields", "", ""), r_fields));
        proof {
            assert(fields_are(r.spec_fields(), b@, seq![seq!["fields"@]], seq![seq!["fields"@]])) by {
                assert forall|i: int| 0 <= i < r.spec_fields().len() implies (#[trigger] r.spec_fields()[i]).spec_name().view() == seq![seq!["fields"@]][i] by {}
            }
        }
        r
    }
}

impl TMap {
    /// The schema of a map type without its metadata: a structure with one field per
    /// property of the type; the field types are filed in the builder.
    pub fn build_schema(b: &mut DefaultSchemaBuilder) -> (r: TStruct)
        requires
            old(b)@.len() + 6 <= u32::MAX,
            described_all(old(b)@),
        ensures
            grows(old(b)@, final(b)@, 6),
            described_all(final(b)@),
            r.spec_fields().len() == 5,
            r.spec_meta().doc is None && r.spec_meta().implements is None,
            fields_are(r.spec_fields(), final(b)@, seq![seq!["key"@], seq!["value"@], seq!["length"@], seq!["sorting"@], seq!["anchors"@]], seq![seq!["map"@, "key"@], seq!["map"@, "value"@], seq!["map"@, "length"@], seq!["map"@, "sorting"@], seq!["anchors"@]]),
    {
        proof {
            reveal_strlit("");
            reveal_strlit("anchors");
            reveal_strlit("key");
            reveal_strlit("length");
            reveal_strlit("sorting");
            reveal_strlit("value");
        }
        let r_key = map_key_type(b);
        let r_value = map_value_type(b);
        let r_length = map_length_type(b);
        let r_sorting = map_sorting_type(b);
        let r_anchors = anchors_type(b);
        let r = TStruct::default()
            .add(Field::new(name("key", "", ""), r_key))
            .add(Field::new(name("value", "", ""), r_value))
            .add(Field::new(name("length", "", ""), r_length))
            .add(Field::new(name("sorting", "", ""), r_sorting))
            .add(Field::new(name("anchors", "", ""), r_anchors));
        proof {
            assert(fields_are(r.spec_fields(), b@, seq![seq!["key"@], seq!["value"@], seq!["length"@], seq!["sorting"@], seq!["anchors"@]], seq![seq!["map"@, "key"@], seq!["map"@, "value"@], seq!["map"@, "length"@], seq!["map"@, "sorting"@], seq!["anchors"@]])) by {
                assert forall|i: int| 0 <= i < r.spec_fields().len() implies (#[trigger] r.spec_fields()[i]).spec_name().view() == seq![seq!["key"@], seq!["value"@], seq!["length"@], seq!["sorting"@], seq!["anchors"@]][i] by {}
            }
        }
        r
    }
}

impl TRootMap {
    /// The schema of a root map type without its metadata: a structure with one field per
    /// property of the type; the field types are filed in the builder.
    pub fn build_schema(b: &mut DefaultSchemaBuilder) -> (r: TStruct)
        requires
            old(b)@.len() + 6 <= u32::MAX,
            described_all(old(b)@),
        ensures
            grows(old(b)@, final(b)@, 6),
            described_all(final(b)@),
            r.spec_fields().len() == 5,
            r.spec_meta().doc is None && r.spec_meta().implements is None,
            fields_are(r.spec_fields(), final(b)@, seq![seq!["root"@], seq!["key"@], seq!["value"@], seq!["length"@], seq!["sorting"@]], seq![seq!["root"@], seq!["key"@], seq!["value"@], seq!["map"@, "length"@], seq!["map"@, "sorting"@]]),
    {
        proof {
            reveal_strlit("");
            reveal_strlit("key");
            reveal_strlit("length");
            reveal_strlit("root");
            reveal_strlit("sorting");
            reveal_strlit("value");
        }
        let r_root = root_type(b);
        let r_key = key_type(b);
        let r_value = value_type(b);
        let r_length = map_length_type(b);
        let r_sorting = map_sorting_type(b);
        let r = TStruct::default()
            .add(Field::new(name("root", "", ""), r_root))
            .add(Field::new(name("key", "", ""), r_key))
            .add(Field::new(name("value", "", ""), r_value))
            .add(Field::new(name("length", "", ""), r_length))
            .add(Field::new(name("sorting", "", ""), r_sorting));
        proof {
            assert(fields_are(r.spec_fields(), b@, seq![seq!["root"@], seq!["key"@], seq!["value"@], seq!["length"@], seq!["sorting"@]], seq![seq!["root"@], seq!["key"@], seq!["value"@], seq!["map"@, "length"@], seq!["map"@, "sorting"@]])) by {
                assert forall|i: int| 0 <= i < r.spec_fields().len() implies (#[trigger] r.spec_fields()[i]).spec_name().view() == seq![seq!["root"@], seq!["key"@], seq!["value"@], seq!["length"@], seq!["sorting"@]][i] by {}
            }
        }
        r
    }
}

impl TKeyRef {
    /// The schema of a key reference type without its metadata: a structure with one field per
    /// property of the type; the field types are filed in the builder.
    pub fn build_schema(b: &mut DefaultSchemaBuilder) -> (r: TStruct)
        requires
            old(b)@.len() + 1 <= u32::MAX,
            described_all(old(b)@),
        ensures
            grows(old(b)@, final(b)@, 1),
            described_all(final(b)@),
            r.spec_fields().len() == 1,
            r.spec_meta().doc is None && r.spec_meta().implements is None,
            fields_are(r.spec_fields(), final(b)@, seq![seq!["level"@]], seq![seq!["level"@]]),
    {
        proof {
            reveal_strlit("");
            reveal_strlit("level");
        }
        let r_level = level_type(b);
        let r = TStruct::default()
            .add(Field::new(name("level", "", ""), r_level));
        proof {
            assert(fields_are(r.spec_fields(), b@, seq![seq!["level"@]], seq![seq!["level"@]])) by {
                assert forall|i: int| 0 <= i < r.spec_fields().len() implies (#[trigger] r.spec_fields()[i]).spec_name().view() == seq![seq!["level"@]][i] by {}
            }
        }
        r
    }
}

impl TUuid {
    /// The schema of a UUID type without its metadata: a structure with one field per
    /// property of the type; the field types are filed in the builder.
    pub fn build_schema(b: &mut DefaultSchemaBuilder) -> (r: TStruct)
        requires
            old(b)@.len() + 0 <= u32::MAX,
            described_all(old(b)@),
        ensures
            grows(old(b)@, final(b)@, 0),
            described_all(final(b)@),
            r.spec_fields().len() == 0,
            r.spec_meta().doc is None && r.spec_meta().implements is None,
            fields_are(r.spec_fields(), final(b)@, Seq::<Seq<Seq<char>>>::empty(), Seq::<Seq<Seq<char>>>::empty()),
    {

        let r = TStruct::default();
        proof {
            assert(fields_are(r.spec_fields(), b@, Seq::<Seq<Seq<char>>>::empty(), Seq::<Seq<Seq<char>>>::empty())) by {
                assert forall|i: int| 0 <= i < r.spec_fields().len() implies (#[trigger] r.spec_fields()[i]).spec_name().view() == Seq::<Seq<Seq<char>>>::empty()[i] by {}
            }
        }
        r
    }
}

impl TRange {
    /// The schema of a range type without its metadata: a structure with one field per
    /// property of the type; the field types are filed in the builder.
    pub fn build_schema(b: &mut DefaultSchemaBuilder) -> (r: TStruct)
        requires
            old(b)@.len() + 3 <= u32::MAX,
            described_all(old(b)@),
        ensures
            grows(old(b)@, final(b)@, 3),
            described_all(final(b)@),
            r.spec_fields().len() == 3,
            r.spec_meta().doc is None && r.spec_meta().implements is None,
            fields_are(r.spec_fields(), final(b)@, seq![seq!["element"@], seq!["inclusion"@], seq!["allow"@, "equal"@]], seq![seq!["range"@, "element"@], seq!["inclusion"@], seq!["allow"@, "equal"@]]),
    {
        proof {
            reveal_strlit("");
            reveal_strlit("allow");
            reveal_strlit("element");
            reveal_strlit("equal");
            reveal_strlit("inclusion");
        }
        let r_element = range_element_type(b);
        let r_inclusion = inclusion_type(b);
        let r_allow_equal = allow_equal_type(b);
        let r = TStruct::default()
            .add(Field::new(name("element", "", ""), r_element))
            .add(Field::new(name("inclusion", "", ""), r_inclusion))
            .add(Field::new(name("allow", "equal", ""), r_allow_equal));
        proof {
            assert(fields_are(r.spec_fields(), b@, seq![seq!["element"@], seq!["inclusion"@], seq!["allow"@, "equal"@]], seq![seq!["range"@, "element"@], seq!["inclusion"@], seq!["allow"@, "equal"@]])) by {
                assert forall|i: int| 0 <= i < r.spec_fields().len() implies (#[trigger] r.spec_fields()[i]).spec_name().view() == seq![seq!["element"@], seq!["inclusion"@], seq!["allow"@, "equal"@]][i] by {}
            }
        }
        r
    }
}

impl TAnchors {
    /// The schema of a anchors type without its metadata: a structure with one field per
    /// property of the type; the field types are filed in the builder.
    pub fn build_schema(b: &mut DefaultSchemaBuilder) -> (r: TStruct)
        requires
            old(b)@.len() + 4 <= u32::MAX,
            described_all(old(b)@),
        ensures
            grows(old(b)@, final(b)@, 4),
            described_all(final(b)@),
            r.spec_fields().len() == 3,
            r.spec_meta().doc is None && r.spec_meta().implements is None,
            fields_are(r.spec_fields(), final(b)@, seq![seq!["master"@], seq!["anchor"@], seq!["max"@, "anchors"@]], seq![seq!["anchor"@, "master"@, "type"@], seq!["anchor"@, "type"@], seq!["maybe"@, "max"@, "anchors"@]]),
    {
        proof {
            reveal_strlit("");
            reveal_strlit("anchor");
            reveal_strlit("anchors");
            reveal_strlit("master");
            reveal_strlit("max");
        }
        let r_master = anchor_master_type_type(b);
        let r_anchor = anchor_type_type(b);
        let r_max_anchors = maybe_max_anchors_type(b);
        let r = TStruct::default()
            .add(Field::new(name("master", "", ""), r_master))
            .add(Field::new(name("anchor", "", ""), r_anchor))
            .add(Field::new(name("max", "anchors", ""), r_max_anchors));
        proof {
            assert(fields_are(r.spec_fields(), b@, seq![seq!["master"@], seq!["anchor"@], seq!["max"@, "anchors"@]], seq![seq!["anchor"@, "master"@, "type"@], seq!["anchor"@, "type"@], seq!["maybe"@, "max"@, "anchors"@]])) by {
                assert forall|i: int| 0 <= i < r.spec_fields().len() implies (#[trigger] r.spec_fields()[i]).spec_name().view() == seq![seq!["master"@], seq!["anchor"@], seq!["max"@, "anchors"@]][i] by {}
            }
        }
        r
    }
}

impl TReference {
    /// The schema of a anchor reference type without its metadata: a structure with one field per
    /// property of the type; the field types are filed in the builder.
    pub fn build_schema(b: &mut DefaultSchemaBuilder) -> (r: TStruct)
        requires
            old(b)@.len() + 0 <= u32::MAX,
            described_all(old(b)@),
        ensures
            grows(old(b)@, final(b)@, 0),
            described_all(final(b)@),
            r.spec_fields().len() == 0,
            r.spec_meta().doc is None && r.spec_meta().implements is None,
            fields_are(r.spec_fields(), final(b)@, Seq::<Seq<Seq<char>>>::empty(), Seq::<Seq<Seq<char>>>::empty()),
    {

        let r = TStruct::default();
        proof {
            assert(fields_are(r.spec_fields(), b@, Seq::<Seq<Seq<char>>>::empty(), Seq::<Seq<Seq<char>>>::empty())) by {
                assert forall|i: int| 0 <= i < r.spec_fields().len() implies (#[trigger] r.spec_fields()[i]).spec_name().view() == Seq::<Seq<Seq<char>>>::empty()[i] by {}
            }
        }
        r
    }
}

impl TAscii {
    /// The schema of a ASCII text type without its metadata: a structure with one field per
    /// property of the type; the field types are filed in the builder.
    pub fn build_schema(b: &mut DefaultSchemaBuilder) -> (r: TStruct)
        requires
            old(b)@.len() + 5 <= u32::MAX,
            described_all(old(b)@),
        ensures
            grows(old(b)@, final(b)@, 5),
            described_all(final(b)@),
            r.spec_fields().len() == 2,
            r.spec_meta().doc is None && r.spec_meta().implements is None,
            fields_are(r.spec_fields(), final(b)@, seq![seq!["length"@], seq!["codes"@]], seq![seq!["ascii"@, "length"@], seq!["code"@, "ranges"@]]),
    {
        proof {
            reveal_strlit("");
            reveal_strlit("codes");
            reveal_strlit("length");
        }
        let r_length = ascii_length_type(b);
        let r_codes = code_ranges_type(b);
        let r = TStruct::default()
            .add(Field::new(name("length", "", ""), r_length))
            .add(Field::new(name("codes", "", ""), r_codes));
        proof {
            assert(fields_are(r.spec_fields(), b@, seq![seq!["length"@], seq!["codes"@]], seq![seq!["ascii"@, "length"@], seq!["code"@, "ranges"@]])) by {
                assert forall|i: int| 0 <= i < r.spec_fields().len() implies (#[trigger] r.spec_fields()[i]).spec_name().view() == seq![seq!["length"@], seq!["codes"@]][i] by {}
            }
        }
        r
    }
}

impl TUnicode {
    /// The schema of a unicode text type without its metadata: a structure with one field per
    /// property of the type; the field types are filed in the builder.
    pub fn build_schema(b: &mut DefaultSchemaBuilder) -> (r: TStruct)
        requires
            old(b)@.len() + 3 <= u32::MAX,
            described_all(old(b)@),
        ensures
            grows(old(b)@, final(b)@, 3),
            described_all(final(b)@),
            r.spec_fields().len() == 2,
            r.spec_meta().doc is None && r.spec_meta().implements is None,
            fields_are(r.spec_fields(), final(b)@, seq![seq!["length"@], seq!["length"@, "type"@]], seq![seq!["unicode"@, "length"@], seq!["length"@, "type"@]]),
    {
        proof {
            reveal_strlit("");
            reveal_strlit("length");
            reveal_strlit("type");
        }
        let r_length = unicode_length_type(b);
        let r_length_type = length_type_type(b);
        let r = TStruct::default()
            .add(Field::new(name("length", "", ""), r_length))
            .add(Field::new(name("length", "type", ""), r_length_type));
        proof {
            assert(fields_are(r.spec_fields(), b@, seq![seq!["length"@], seq!["length"@, "type"@]], seq![seq!["unicode"@, "length"@], seq!["length"@, "type"@]])) by {
                assert forall|i: int| 0 <= i < r.spec_fields().len() implies (#[trigger] r.spec_fields()[i]).spec_name().view() == seq![seq!["length"@], seq!["length"@, "type"@]][i] by {}
            }
        }
        r
    }
}

/// Files the schemas (metadata included) of the kinds `bool`, `option`, `seq`, `binary`.
#[verifier::rlimit(50)]
fn container_kinds(b: &mut DefaultSchemaBuilder) -> (r: (TypeRef, TypeRef, TypeRef, TypeRef))
    requires
        old(b)@.len() + 40 <= u32::MAX,
        described_all(old(b)@),
    ensures
        grows(old(b)@, final(b)@, 40),
        described_all(final(b)@),
        filed(final(b)@, r.0, seq!["bool"@]),
        filed(final(b)@, r.1, seq!["option"@]),
        filed(final(b)@, r.2, seq!["seq"@]),
        filed(final(b)@, r.3, seq!["binary"@]),
{
    proof {
        reveal_strlit("");
        reveal_strlit("binary");
        reveal_strlit("bool");
        reveal_strlit("option");
        reveal_strlit("seq");
    }
    let inner = TBool::build_schema(b);
    let ghost e1 = b@;
    let s = WithMetaSchemaBuilder::build_schema(b, inner);
    let id = name("bool", "", "");
    let t = AnyType::Struct(s);
    proof {
        lemma_with_meta_fields(inner, s, e1, b@, Seq::<Seq<Seq<char>>>::empty(), Seq::<Seq<Seq<char>>>::empty());
        lemma_struct_within(s, b@.len());
        assert(id.view() =~~= seq!["bool"@]);
        assert(bool_schema(t, b@));
    }
    let ref_bool = file(b, id, t);
    let inner = TOption::build_schema(b);
    let ghost e1 = b@;
    let s = WithMetaSchemaBuilder::build_schema(b, inner);
    let id = name("option", "", "");
    let t = AnyType::Struct(s);
    proof {
        lemma_with_meta_fields(inner, s, e1, b@, seq![seq!["type"@]], seq![seq!["present"@, "type"@]]);
        lemma_struct_within(s, b@.len());
        assert(id.view() =~~= seq!["option"@]);
        assert(option_schema(t, b@));
    }
    let ref_option = file(b, id, t);
    let inner = TSeq::build_schema(b);
    let ghost e1 = b@;
    let s = WithMetaSchemaBuilder::build_schema(b, inner);
    let id = name("seq", "", "");
    let t = AnyType::Struct(s);
    proof {
        lemma_with_meta_fields(inner, s, e1, b@, seq![seq!["element"@], seq!["length"@], seq!["ordering"@], seq!["multiple"@, "of"@]], seq![seq!["element"@], seq!["seq"@, "length"@], seq!["ordering"@], seq!["maybe"@, "multiple"@, "of"@]]);
        lemma_struct_within(s, b@.len());
        assert(id.view() =~~= seq!["seq"@]);
        assert(seq_schema(t, b@));
    }
    let ref_seq = file(b, id, t);
    let inner = TBinary::build_schema(b);
    let ghost e1 = b@;
    let s = WithMetaSchemaBuilder::build_schema(b, inner);
    let id = name("binary", "", "");
    let t = AnyType::Struct(s);
    proof {
        lemma_with_meta_fields(inner, s, e1, b@, seq![seq!["length"@]], seq![seq!["binary"@, "length"@]]);
        lemma_struct_within(s, b@.len());
        assert(id.view() =~~= seq!["binary"@]);
        assert(binary_schema(t, b@));
    }
    let ref_binary = file(b, id, t);
    (ref_bool, ref_option, ref_seq, ref_binary)
}

/// Files the schemas (metadata included) of the kinds `uint`, `sint`, `enum`, `struct`.
#[verifier::rlimit(50)]
fn number_kinds(b: &mut DefaultSchemaBuilder) -> (r: (TypeRef, TypeRef, TypeRef, TypeRef))
    requires
        old(b)@.len() + 44 <= u32::MAX,
        described_all(old(b)@),
    ensures
        grows(old(b)@, final(b)@, 44),
        described_all(final(b)@),
        filed(final(b)@, r.0, seq!["uint"@]),
        filed(final(b)@, r.1, seq!["sint"@]),
        filed(final(b)@, r.2, seq!["enum"@]),
        filed(final(b)@, r.3, seq!["struct"@]),
{
    proof {
        reveal_strlit("");
        reveal_strlit("enum");
        reveal_strlit("sint");
        reveal_strlit("struct");
        reveal_strlit("uint");
    }
    let inner = TUInt::build_schema(b);
    let ghost e1 = b@;
    let s = WithMetaSchemaBuilder::build_schema(b, inner);
    let id = name("uint", "", "");
    let t = AnyType::Struct(s);
    proof {
        lemma_with_meta_fields(inner, s, e1, b@, seq![seq!["range"@]], seq![seq!["uint"@, "range"@]]);
        lemma_struct_within(s, b@.len());
        assert(id.view() =~~= seq!["uint"@]);
        assert(uint_schema(t, b@));
    }
    let ref_uint = file(b, id, t);
    let inner = TSInt::build_schema(b);
    let ghost e1 = b@;
    let s = WithMetaSchemaBuilder::build_schema(b, inner);
    let id = name("sint", "", "");
    let t = AnyType::Struct(s);
    proof {
        lemma_with_meta_fields(inner, s, e1, b@, seq![seq!["range"@]], seq![seq!["sint"@, "range"@]]);
        lemma_struct_within(s, b@.len());
        assert(id.view() =~~= seq!["sint"@]);
        assert(sint_schema(t, b@));
    }
    let ref_sint = file(b, id, t);
    let inner = TEnum::build_schema(b);
    let ghost e1 = b@;
    let s = WithMetaSchemaBuilder::build_schema(b, inner);
    let id = name("enum", "", "");
    let t = AnyType::Struct(s);
    proof {
        lemma_with_meta_fields(inner, s, e1, b@, seq![seq!["variants"@]], seq![seq!["variants"@]]);
        lemma_struct_within(s, b@.len());
        assert(id.view() =~~= seq!["enum"@]);
        assert(enum_schema(t, b@));
    }
    let ref_enum = file(b, id, t);
    let inner = TStruct::build_schema(b);
    let ghost e1 = b@;
    let s = WithMetaSchemaBuilder::build_schema(b, inner);
    let id = name("struct", "", "");
    let t = AnyType::Struct(s);
    proof {
        lemma_with_meta_fields(inner, s, e1, b@, seq![seq!["fields"@]], seq![seq!["fields"@]]);
        lemma_struct_within(s, b@.len());
        assert(id.view() =~~= seq!["struct"@]);
        assert(struct_schema(t, b@));
    }
    let ref_struct = file(b, id, t);
    (ref_uint, ref_sint, ref_enum, ref_struct)
}

/// Files the schemas (metadata included) of the kinds `map`, `root_map`, `key_ref`, `uuid`.
#[verifier::rlimit(50)]
fn map_kinds(b: &mut DefaultSchemaBuilder) -> (r: (TypeRef, TypeRef, TypeRef, TypeRef))
    requires
        old(b)@.len() + 41 <= u32::MAX,
        described_all(old(b)@),
    ensures
        grows(old(b)@, final(b)@, 41),
        described_all(final(b)@),
        filed(final(b)@, r.0, seq!["map"@]),
        filed(final(b)@, r.1, seq!["root"@, "map"@]),
        filed(final(b)@, r.2, seq!["key"@, "ref"@]),
        filed(final(b)@, r.3, seq!["uuid"@]),
{
    proof {
        reveal_strlit("");
        reveal_strlit("key");
        reveal_strlit("map");
        reveal_strlit("ref");
        reveal_strlit("root");
        reveal_strlit("uuid");
    }
    let inner = TMap::build_schema(b);
    let ghost e1 = b@;
    let s = WithMetaSchemaBuilder::build_schema(b, inner);
    let id = name("map", "", "");
    let t = AnyType::Struct(s);
    proof {
        lemma_with_meta_fields(inner, s, e1, b@, seq![seq!["key"@], seq!["value"@], seq!["length"@], seq!["sorting"@], seq!["anchors"@]], seq![seq!["map"@, "key"@], seq!["map"@, "value"@], seq!["map"@, "length"@], seq!["map"@, "sorting"@], seq!["anchors"@]]);
        lemma_struct_within(s, b@.len());
        assert(id.view() =~~= seq!["map"@]);
        assert(map_schema(t, b@));
    }
    let ref_map = file(b, id, t);
    let inner = TRootMap::build_schema(b);
    let ghost e1 = b@;
    let s = WithMetaSchemaBuilder::build_schema(b, inner);
    let id = name("root", "map", "");
    let t = AnyType::Struct(s);
    proof {
        lemma_with_meta_fields(inner, s, e1, b@, seq![seq!["root"@], seq!["key"@], seq!["value"@], seq!["length"@], seq!["sorting"@]], seq![seq!["root"@], seq!["key"@], seq!["value"@], seq!["map"@, "length"@], seq!["map"@, "sorting"@]]);
        lemma_struct_within(s, b@.len());
        assert(id.view() =~~= seq!["root"@, "map"@]);
        assert(root_map_schema(t, b@));
    }
    let ref_root_map = file(b, id, t);
    let inner = TKeyRef::build_schema(b);
    let ghost e1 = b@;
    let s = WithMetaSchemaBuilder::build_schema(b, inner);
    let id = name("key", "ref", "");
    let t = AnyType::Struct(s);
    proof {
        lemma_with_meta_fields(inner, s, e1, b@, seq![seq!["level"@]], seq![seq!["level"@]]);
        lemma_struct_within(s, b@.len());
        assert(id.view() =~~= seq!["key"@, "ref"@]);
        assert(key_ref_schema(t, b@));
    }
    let ref_key_ref = file(b, id, t);
    let inner = TUuid::build_schema(b);
    let ghost e1 = b@;
    let s = WithMetaSchemaBuilder::build_schema(b, inner);
    let id = name("uuid", "", "");
    let t = AnyType::Struct(s);
    proof {
        lemma_with_meta_fields(inner, s, e1, b@, Seq::<Seq<Seq<char>>>::empty(), Seq::<Seq<Seq<char>>>::empty());
        lemma_struct_within(s, b@.len());
        assert(id.view() =~~= seq!["uuid"@]);
        assert(uuid_schema(t, b@));
    }
    let ref_uuid = file(b, id, t);
    (ref_map, ref_root_map, ref_key_ref, ref_uuid)
}

/// Files the schemas (metadata included) of the kinds `range`, `anchor_container`, `reference`, `ascii`, `unicode`.
#[verifier::rlimit(50)]
fn text_kinds(b: &mut DefaultSchemaBuilder) -> (r: (TypeRef, TypeRef, TypeRef, TypeRef, TypeRef))
    requires
        old(b)@.len() + 50 <= u32::MAX,
        described_all(old(b)@),
    ensures
        grows(old(b)@, final(b)@, 50),
        described_all(final(b)@),
        filed(final(b)@, r.0, seq!["range"@]),
        filed(final(b)@, r.1, seq!["anchor"@, "container"@]),
        filed(final(b)@, r.2, seq!["reference"@]),
        filed(final(b)@, r.3, seq!["ascii"@]),
        filed(final(b)@, r.4, seq!["unicode"@]),
{
    proof {
        reveal_strlit("");
        reveal_strlit("anchor");
        reveal_strlit("ascii");
        reveal_strlit("container");
        reveal_strlit("range");
        reveal_strlit("reference");
        reveal_strlit("unicode");
    }
    let inner = TRange::build_schema(b);
    let ghost e1 = b@;
    let s = WithMetaSchemaBuilder::build_schema(b, inner);
    let id = name("range", "", "");
    let t = AnyType::Struct(s);
    proof {
        lemma_with_meta_fields(inner, s, e1, b@, seq![seq!["element"@], seq!["inclusion"@], seq!["allow"@, "equal"@]], seq![seq!["range"@, "element"@], seq!["inclusion"@], seq!["allow"@, "equal"@]]);
        lemma_struct_within(s, b@.len());
        assert(id.view() =~~= seq!["range"@]);
        assert(range_schema(t, b@));
    }
    let ref_range = file(b, id, t);
    let inner = TAnchors::build_schema(b);
    let ghost e1 = b@;
    let s = WithMetaSchemaBuilder::build_schema(b, inner);
    let id = name("anchor", "container", "");
    let t = AnyType::Struct(s);
    proof {
        lemma_with_meta_fields(inner, s, e1, b@, seq![seq!["master"@], seq!["anchor"@], seq!["max"@, "anchors"@]], seq![seq!["anchor"@, "master"@, "type"@], seq!["anchor"@, "type"@], seq!["maybe"@, "max"@, "anchors"@]]);
        lemma_struct_within(s, b@.len());
        assert(id.view() =~~= seq!["anchor"@, "container"@]);
        assert(anchor_container_schema(t, b@));
    }
    let ref_anchor_container = file(b, id, t);
    let inner = TReference::build_schema(b);
    let ghost e1 = b@;
    let s = WithMetaSchemaBuilder::build_schema(b, inner);
    let id = name("reference", "", "");
    let t = AnyType::Struct(s);
    proof {
        lemma_with_meta_fields(inner, s, e1, b@, Seq::<Seq<Seq<char>>>::empty(), Seq::<Seq<Seq<char>>>::empty());
        lemma_struct_within(s, b@.len());
        assert(id.view() =~~= seq!["reference"@]);
        assert(reference_schema(t, b@));
    }
    let ref_reference = file(b, id, t);
    let inner = TAscii::build_schema(b);
    let ghost e1 = b@;
    let s = WithMetaSchemaBuilder::build_schema(b, inner);
    let id = name("ascii", "", "");
    let t = AnyType::Struct(s);
    proof {
        lemma_with_meta_fields(inner, s, e1, b@, seq![seq!["length"@], seq!["codes"@]], seq![seq!["ascii"@, "length"@], seq!["code"@, "ranges"@]]);
        lemma_struct_within(s, b@.len());
        assert(id.view() =~~= seq!["ascii"@]);
        assert(ascii_schema(t, b@));
    }
    let ref_ascii = file(b, id, t);
    let inner = TUnicode::build_schema(b);
    let ghost e1 = b@;
    let s = WithMetaSchemaBuilder::build_schema(b, inner);
    let id = name("unicode", "", "");
    let t = AnyType::Struct(s);
    proof {
        lemma_with_meta_fields(inner, s, e1, b@, seq![seq!["length"@], seq!["length"@, "type"@]], seq![seq!["unicode"@, "length"@], seq!["length"@, "type"@]]);
        lemma_struct_within(s, b@.len());
        assert(id.view() =~~= seq!["unicode"@]);
        assert(unicode_schema(t, b@));
    }
    let ref_unicode = file(b, id, t);
    (ref_range, ref_anchor_container, ref_reference, ref_ascii, ref_unicode)
}

impl AnyType {
    /// The schema of a type: the enum `any_type` with one variant per kind of type, in the
    /// order of the variants of `AnyType`, each holding the schema of its kind (metadata
    /// included).
    #[verifier::rlimit(80)]
    pub fn build_schema(b: &mut DefaultSchemaBuilder) -> (r: TypeRef)
        requires
            old(b)@.len() + 176 <= u32::MAX,
            described_all(old(b)@),
        ensures
            grows(old(b)@, final(b)@, 176),
            described_all(final(b)@),
            filed(final(b)@, r, seq!["any"@, "type"@]),
    {
        proof {
            reveal_strlit("");
            reveal_strlit("anchor");
            reveal_strlit("anchors");
            reveal_strlit("any");
            reveal_strlit("ascii");
            reveal_strlit("binary");
            reveal_strlit("bool");
            reveal_strlit("container");
            reveal_strlit("enum");
            reveal_strlit("key");
            reveal_strlit("map");
            reveal_strlit("option");
            reveal_strlit("range");
            reveal_strlit("ref");
            reveal_strlit("reference");
            reveal_strlit("root");
            reveal_strlit("seq");
            reveal_strlit("sint");
            reveal_strlit("struct");
            reveal_strlit("type");
            reveal_strlit("uint");
            reveal_strlit("unicode");
            reveal_strlit("uuid");
        }
        let (ref_bool, ref_option, ref_seq, ref_binary) = container_kinds(b);
        let (ref_uint, ref_sint, ref_enum, ref_struct) = number_kinds(b);
        let (ref_map, ref_root_map, ref_key_ref, ref_uuid) = map_kinds(b);
        let (ref_range, ref_anchor_container, ref_reference, ref_ascii, ref_unicode) = text_kinds(b);
        let x = TEnum::default();
        let x = with_variant(x, name("bool", "", ""), Some(ref_bool));
        proof {
            assert(x.spec_variants()[0].spec_name().view() =~~= seq!["bool"@]);
        }
        let x = with_variant(x, name("option", "", ""), Some(ref_option));
        proof {
            assert(x.spec_variants()[1].spec_name().view() =~~= seq!["option"@]);
        }
        let x = with_variant(x, name("seq", "", ""), Some(ref_seq));
        proof {
            assert(x.spec_variants()[2].spec_name().view() =~~= seq!["seq"@]);
        }
        let x = with_variant(x, name("binary", "", ""), Some(ref_binary));
        proof {
            assert(x.spec_variants()[3].spec_name().view() =~~= seq!["binary"@]);
        }
        let x = with_variant(x, name("uint", "", ""), Some(ref_uint));
        proof {
            assert(x.spec_variants()[4].spec_name().view() =~~= seq!["uint"@]);
        }
        let x = with_variant(x, name("sint", "", ""), Some(ref_sint));
        proof {
            assert(x.spec_variants()[5].spec_name().view() =~~= seq!["sint"@]);
        }
        let x = with_variant(x, name("enum", "", ""), Some(ref_enum));
        proof {
            assert(x.spec_variants()[6].spec_name().view() =~~= seq!["enum"@]);
        }
        let x = with_variant(x, name("struct", "", ""), Some(ref_struct));
        proof {
            assert(x.spec_variants()[7].spec_name().view() =~~= seq!["struct"@]);
        }
        let x = with_variant(x, name("map", "", ""), Some(ref_map));
        proof {
            assert(x.spec_variants()[8].spec_name().view() =~~= seq!["map"@]);
        }
        let x = with_variant(x, name("root", "map", ""), Some(ref_root_map));
        proof {
            assert(x.spec_variants()[9].spec_name().view() =~~= seq!["root"@, "map"@]);
        }
        let x = with_variant(x, name("key", "ref", ""), Some(ref_key_ref));
        proof {
            assert(x.spec_variants()[10].spec_name().view() =~~= seq!["key"@, "ref"@]);
        }
        let x = with_variant(x, name("uuid", "", ""), Some(ref_uuid));
        proof {
            assert(x.spec_variants()[11].spec_name().view() =~~= seq!["uuid"@]);
        }
        let x = with_variant(x, name("range", "", ""), Some(ref_range));
        proof {
            assert(x.spec_variants()[12].spec_name().view() =~~= seq!["range"@]);
        }
        let x = with_variant(x, name("anchors", "", ""), Some(ref_anchor_container));
        proof {
            assert(x.spec_variants()[13].spec_name().view() =~~= seq!["anchors"@]);
        }
        let x = with_variant(x, name("reference", "", ""), Some(ref_reference));
        proof {
            assert(x.spec_variants()[14].spec_name().view() =~~= seq!["reference"@]);
        }
        let x = with_variant(x, name("ascii", "", ""), Some(ref_ascii));
        proof {
            assert(x.spec_variants()[15].spec_name().view() =~~= seq!["ascii"@]);
        }
        let x = with_variant(x, name("unicode", "", ""), Some(ref_unicode));
        proof {
            assert(x.spec_variants()[16].spec_name().view() =~~= seq!["unicode"@]);
        }
        proof {
            lemma_enum_within(x, b@.len());
        }
        let id = name("any", "type", "");
        let t = AnyType::Enum(x);
        proof {
            assert(id.view() =~~= seq!["any"@, "type"@]);
            assert(any_type_schema(t, b@));
        }
        file(b, id, t)
    }
}

impl Meta {
    /// The schema of the metadata every type carries (see `meta_schema`): a structure with an
    /// optional documentation (1 to 4000 UTF-8 bytes) and an optional set of UUIDs the type
    /// implements (1 to 255 of them, sorted ascending without duplicates).
    pub fn build_schema(b: &mut DefaultSchemaBuilder) -> (r: TypeRef)
        requires
            old(b)@.len() + 6 <= u32::MAX,
            described_all(old(b)@),
        ensures
            grows(old(b)@, final(b)@, 6),
            described_all(final(b)@),
            filed(final(b)@, r, seq!["meta"@]),
    {
        meta_type(b)
    }
}

/// Puts the metadata in front of the schema of a type's own properties.
pub struct WithMetaSchemaBuilder;

impl WithMetaSchemaBuilder {
    /// The schema of a type with its metadata: the structure `inner` (the schema of the
    /// type's own properties) with the field `meta` put first.
    pub fn build_schema(b: &mut DefaultSchemaBuilder, inner: TStruct) -> (r: TStruct)
        requires
            old(b)@.len() + 6 <= u32::MAX,
            described_all(old(b)@),
            refs_below(inner.spec_fields(), old(b)@.len()),
        ensures
            grows(old(b)@, final(b)@, 6),
            described_all(final(b)@),
            r.spec_fields().len() == inner.spec_fields().len() + 1,
            r.spec_fields()[0].spec_name().view() == seq!["meta"@],
            filed(final(b)@, r.spec_fields()[0].spec_type_ref(), seq!["meta"@]),
            forall|i: int|
                0 <= i < inner.spec_fields().len() ==> #[trigger] r.spec_fields()[i + 1]
                    == inner.spec_fields()[i],
            r.spec_meta() == inner.spec_meta(),
            refs_below(r.spec_fields(), final(b)@.len()),
    {
        proof {
            reveal_strlit("");
            reveal_strlit("meta");
        }
        let meta = Meta::build_schema(b);
        let mut r = inner;
        let id = name("meta", "", "");
        proof {
            assert(id.view() =~~= seq!["meta"@]);
        }
        r.prepend(Field::new(id, meta));
        proof {
            let fields = r.spec_fields();
            assert forall|i: int| 0 <= i < fields.len() implies (#[trigger] fields[i]).spec_type_ref().0
                < b@.len() by {
                if i > 0 {
                    assert(fields[i] == inner.spec_fields()[i - 1]);
                }
            }
        }
        r
    }
}

/// `root` is the root type of the schema of schemas: a root map from identifiers (the type
/// at `ident`) to types (the type at `any`), of any length, keys ascending, whose root value
/// is a type.
pub open spec fn root_of_schemas(root: AnyType, any: TypeRef, ident: TypeRef) -> bool {
    &&& root matches AnyType::RootMap(m)
    &&& m.spec_root() == any
    &&& m.spec_key() == ident
    &&& m.spec_value() == any
    &&& m.spec_length().spec_start() == 0
    &&& m.spec_length().spec_end() == u32::MAX
    &&& m.spec_sorting() == crate::map::Sorting::Ascending
    &&& plain(root)
}

/// The schema of schemas, added to the types of `b`: the types the schema of schemas files
/// (see `described`), and as root a root map from identifiers to types whose root value is a
/// type. Every reference in it points to one of its types.
pub fn schema_schema(b: DefaultSchemaBuilder) -> (r: Result<DefaultTypeContainer, LqError>)
    requires
        b@.len() + 300 <= u32::MAX,
        refs_closed(b@),
        described_all(b@),
    ensures
        entries_wf(b@) ==> (r matches Ok(c) && types_wf(c.spec_types())),
        r matches Ok(c) && c.spec_root() is RootMap && forall|j: int|
            0 <= j < c.spec_types().len() ==> refs_within(
                #[trigger] c.spec_types()[j],
                c.spec_types().len(),
            ),
        r matches Ok(c) && exists|
            e: Seq<Entry>,
            order: Seq<usize>,
            root: AnyType,
            any: TypeRef,
            ident: TypeRef,
        |
            #[trigger] finished(e, root, order, c) && #[trigger] root_of_schemas(root, any, ident)
                && prefix_of(b@, e) && described_all(e) && filed(e, any, seq!["any"@, "type"@])
                && filed(e, ident, seq!["identifier"@]),
{
    let ghost start = b@;
    let mut b = b;
    let any_type = AnyType::build_schema(&mut b);
    let identifier = identifier_type(&mut b);
    let root = AnyType::RootMap(TRootMap::new(any_type, identifier, any_type));
    let ghost entries = b@;
    let r = b.finish(root);
    proof {
        let c = r->Ok_0;
        let order = choose|order: Seq<usize>| #[trigger] finished(entries, root, order, c);
        assert forall|k: int| 0 <= k < c.spec_types().len() implies (entries_wf(start) ==> type_wf(
            #[trigger] c.spec_types()[k],
        )) && refs_within(c.spec_types()[k], c.spec_types().len()) by {
            let a = entries[order[k] as int].1;
            assert(renumbered_by(a, c.spec_types()[k], order));
        }
        assert(prefix_of(start, entries));
        assert(root_of_schemas(root, any_type, identifier));
        assert(finished(entries, root, order, c));
    }
    r
}

} // verus!
