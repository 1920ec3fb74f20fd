//! What validation, comparison and type equality are for, stated over their inputs: the
//! bounds a valid value keeps, the byte order of binaries and texts, that types counting as
//! the same validate and compare alike, and which characters an identifier segment holds.
use vstd::prelude::*;
use crate::any_type::{AnyType, same_kind};
use crate::identifier::segment_check;
use crate::map::TMap;
use crate::root_map::TRootMap;
use crate::schema_builder::Entry;
use crate::context::StateView;
use crate::error::LqError;
use crate::schema_core::{Cmp, Config, order_bytes};
use crate::self_schema::segment_schema;
use crate::seq::TSeq;
use crate::type_eq::same_type;
use crate::validation::{spec_compare_type, spec_validate_type};
use crate::value::Value;
use vstd::utf8::encode_utf8;

verus! {

/// A valid map value has a number of entries within the map's length range.
pub proof fn lemma_valid_map_length(
    tys: Seq<AnyType>,
    cfg: Config,
    m: TMap,
    entries: Vec<Value>,
    st: StateView,
)
    requires
        spec_validate_type(tys, cfg, AnyType::Mapping(m), Value::Sequence(entries), st) is Ok,
    ensures
        m.spec_length().spec_start() <= entries@.len() <= m.spec_length().spec_end(),
{
}

/// A valid root map value holds its entries and its root; the number of entries is within
/// the root map's length range.
pub proof fn lemma_valid_root_map_length(
    tys: Seq<AnyType>,
    cfg: Config,
    m: TRootMap,
    outer: Vec<Value>,
    st: StateView,
)
    requires
        spec_validate_type(tys, cfg, AnyType::RootMap(m), Value::Sequence(outer), st) is Ok,
    ensures
        outer@.len() == 2,
        outer@[0] is Sequence,
        m.spec_length().spec_start() <= outer@[0]->Sequence_0@.len() <= m.spec_length().spec_end(),
{
}

/// A valid sequence value has a number of elements within the sequence's length range, and
/// a multiple of `multiple_of` where that is given.
pub proof fn lemma_valid_sequence_length(
    tys: Seq<AnyType>,
    cfg: Config,
    s: TSeq,
    items: Vec<Value>,
    st: StateView,
)
    requires
        spec_validate_type(tys, cfg, AnyType::Sequence(s), Value::Sequence(items), st) is Ok,
    ensures
        s.length.spec_start() <= items@.len() <= s.length.spec_end(),
        s.multiple_of matches Some(k) ==> (items@.len() as int) % (k as int) == 0,
{
}

/// A valid scalar value lies within its type's range: unsigned and signed integers by their
/// value, binaries by their length, texts by the length of their UTF-8 encoding.
pub proof fn lemma_valid_scalar_within(
    tys: Seq<AnyType>,
    cfg: Config,
    t: AnyType,
    v: Value,
    st: StateView,
)
    requires
        spec_validate_type(tys, cfg, t, v, st) is Ok,
    ensures
        t matches AnyType::UInt(u) ==> (v matches Value::UInt(n) && u.range.spec_start() <= n
            <= u.range.spec_end()),
        t matches AnyType::SInt(x) ==> (v matches Value::SInt(n) && x.spec_range().spec_start()
            <= n <= x.spec_range().spec_end()),
        t matches AnyType::Binary(b) ==> (v matches Value::Binary(bytes)
            && b.spec_length().spec_start() <= bytes@.len() <= b.spec_length().spec_end()),
        t matches AnyType::Ascii(a) ==> (v matches Value::Unicode(text) && a.length.spec_start()
            <= encode_utf8(text@).len() <= a.length.spec_end()),
        t matches AnyType::Unicode(u) ==> (v matches Value::Unicode(text) && u.length.spec_start()
            <= encode_utf8(text@).len() <= u.length.spec_end()),
        t is Uuid ==> (v matches Value::Binary(bytes) && bytes@.len() == 16),
        t is Bool ==> v is Bool,
{
}

/// Byte strings compare equal exactly when they hold the same bytes.
pub proof fn lemma_order_bytes_equal(a: Seq<u8>, b: Seq<u8>)
    ensures
        (order_bytes(a, b) == Cmp::Equal) == (a == b),
    decreases a.len(),
{
    if a.len() > 0 && b.len() > 0 && a[0] == b[0] {
        lemma_order_bytes_equal(a.drop_first(), b.drop_first());
        if a.drop_first() == b.drop_first() {
            assert(a.len() == b.len());
            assert forall|i: int| 0 <= i < a.len() implies a[i] == b[i] by {
                if i > 0 {
                    assert(a[i] == a.drop_first()[i - 1]);
                    assert(b[i] == b.drop_first()[i - 1]);
                }
            }
            assert(a =~= b);
        }
        if a == b {
            assert(a.drop_first() =~= b.drop_first());
        }
    } else if a.len() == 0 && b.len() == 0 {
        assert(a =~= b);
    } else if a.len() > 0 && b.len() > 0 {
        assert(a[0] != b[0]);
    }
}

/// A byte string that agrees with another up to position `i`, where it has the smaller
/// byte, is less; so is a proper prefix.
pub proof fn lemma_order_bytes_first_difference(a: Seq<u8>, b: Seq<u8>, i: int)
    requires
        0 <= i <= a.len(),
        i <= b.len(),
        forall|j: int| 0 <= j < i ==> a[j] == b[j],
        (i == a.len() && i < b.len()) || (i < a.len() && i < b.len() && a[i] < b[i]),
    ensures
        order_bytes(a, b) == Cmp::Less,
        order_bytes(b, a) == Cmp::Greater,
    decreases i,
{
    if i > 0 {
        assert forall|j: int| 0 <= j < i - 1 implies a.drop_first()[j] == b.drop_first()[j] by {
            assert(a[j + 1] == b[j + 1]);
        }
        assert(a[0] == b[0]);
        lemma_order_bytes_first_difference(a.drop_first(), b.drop_first(), i - 1);
    }
}

/// Binaries and UUIDs compare by lexicographic byte order: equal exactly when they hold the
/// same bytes, less where the first differing byte is smaller or a proper prefix.
pub proof fn lemma_binary_compare(
    tys: Seq<AnyType>,
    t: AnyType,
    x: Vec<u8>,
    y: Vec<u8>,
    i: int,
)
    requires
        t is Binary || t is Uuid,
    ensures
        spec_compare_type(tys, t, Value::Binary(x), Value::Binary(y)) is Ok,
        (spec_compare_type(tys, t, Value::Binary(x), Value::Binary(y)) == Ok::<Cmp, LqError>(
            Cmp::Equal,
        )) == (x@ == y@),
        (0 <= i <= x@.len() && i <= y@.len() && (forall|j: int| 0 <= j < i ==> x@[j] == y@[j]) && (
        (i == x@.len() && i < y@.len()) || (i < x@.len() && i < y@.len() && x@[i] < y@[i])))
            ==> spec_compare_type(tys, t, Value::Binary(x), Value::Binary(y)) == Ok::<
            Cmp,
            LqError,
        >(Cmp::Less),
{
    lemma_order_bytes_equal(x@, y@);
    if 0 <= i <= x@.len() && i <= y@.len() && (forall|j: int| 0 <= j < i ==> x@[j] == y@[j]) && (
    (i == x@.len() && i < y@.len()) || (i < x@.len() && i < y@.len() && x@[i] < y@[i])) {
        lemma_order_bytes_first_difference(x@, y@, i);
    }
}

/// ASCII and unicode texts compare by the lexicographic order of their UTF-8 bytes: equal
/// exactly when the bytes are the same, less where the first differing byte is smaller or a
/// proper prefix.
pub proof fn lemma_text_compare(
    tys: Seq<AnyType>,
    t: AnyType,
    x: String,
    y: String,
    i: int,
)
    requires
        t is Ascii || t is Unicode,
    ensures
        spec_compare_type(tys, t, Value::Unicode(x), Value::Unicode(y)) is Ok,
        (spec_compare_type(tys, t, Value::Unicode(x), Value::Unicode(y)) == Ok::<Cmp, LqError>(
            Cmp::Equal,
        )) == (encode_utf8(x@) == encode_utf8(y@)),
        ({
            let (a, b) = (encode_utf8(x@), encode_utf8(y@));
            0 <= i <= a.len() && i <= b.len() && (forall|j: int| 0 <= j < i ==> a[j] == b[j]) && (
            (i == a.len() && i < b.len()) || (i < a.len() && i < b.len() && a[i] < b[i]))
        }) ==> spec_compare_type(tys, t, Value::Unicode(x), Value::Unicode(y)) == Ok::<
            Cmp,
            LqError,
        >(Cmp::Less),
{
    let (a, b) = (encode_utf8(x@), encode_utf8(y@));
    lemma_order_bytes_equal(a, b);
    if 0 <= i <= a.len() && i <= b.len() && (forall|j: int| 0 <= j < i ==> a[j] == b[j]) && ((i
        == a.len() && i < b.len()) || (i < a.len() && i < b.len() && a[i] < b[i])) {
        lemma_order_bytes_first_difference(a, b, i);
    }
}

/// Types that count as the same are of the same kind and hold the same references.
pub proof fn lemma_same_type_refs(a: AnyType, b: AnyType)
    requires
        same_type(a, b),
    ensures
        same_kind(a, b),
        a.spec_refs() == b.spec_refs(),
{
    match (a, b) {
        (AnyType::Struct(x), AnyType::Struct(y)) => {
            assert(a.spec_refs() =~= b.spec_refs()) by {
                assert forall|i: int| 0 <= i < a.spec_refs().len() implies a.spec_refs()[i]
                    == b.spec_refs()[i] by {
                    assert(x.spec_fields()[i].spec_type_ref() == y.spec_fields()[i].spec_type_ref());
                }
            }
        },
        (AnyType::Enum(x), AnyType::Enum(y)) => {
            lemma_same_variants_refs(x.spec_variants(), y.spec_variants());
        },
        _ => {},
    }
}

proof fn lemma_same_variants_refs(
    a: Seq<crate::enumeration::Variant>,
    b: Seq<crate::enumeration::Variant>,
)
    requires
        crate::type_eq::same_variants(a, b),
    ensures
        crate::enumeration::variants_refs(a) == crate::enumeration::variants_refs(b),
    decreases a.len(),
{
    if a.len() > 0 {
        let (ia, ib) = (a.drop_last(), b.drop_last());
        assert forall|i: int| 0 <= i < ia.len() implies (#[trigger] ia[i]).spec_name().view()
            == ib[i].spec_name().view() && ia[i].spec_values() == ib[i].spec_values() by {
            assert(ia[i] == a[i] && ib[i] == b[i]);
        }
        lemma_same_variants_refs(ia, ib);
        assert(a.last().spec_values() == b.last().spec_values()) by {
            assert(a.last() == a[a.len() - 1] && b.last() == b[b.len() - 1]);
        }
    }
}

/// Types that count as the same validate every value alike and compare every two values
/// alike.
pub proof fn lemma_same_type_validates_alike(
    a: AnyType,
    b: AnyType,
    tys: Seq<AnyType>,
    cfg: Config,
    v: Value,
    w: Value,
    st: StateView,
)
    requires
        same_type(a, b),
    ensures
        spec_validate_type(tys, cfg, a, v, st) == spec_validate_type(tys, cfg, b, v, st),
        spec_compare_type(tys, a, v, w) == spec_compare_type(tys, b, v, w),
{
    lemma_same_type_refs(a, b);
    match (a, b) {
        (AnyType::Struct(x), AnyType::Struct(y)) => {
            assert(crate::structure::field_refs(x.spec_fields()) =~= crate::structure::field_refs(
                y.spec_fields(),
            ));
        },
        (AnyType::Enum(x), AnyType::Enum(y)) => {
            assert forall|i: int| 0 <= i < x.spec_variants().len() implies (
            #[trigger] x.spec_variants()[i]).spec_values() == y.spec_variants()[i].spec_values() by {}
        },
        _ => {},
    }
}

/// A segment passes the segment check exactly when it has 1 to 30 bytes, each a lower case
/// letter `a`-`z` (0x61-0x7a) or a digit `0`-`9` (0x30-0x39); a segment of fitting length
/// with another byte is refused as holding an invalid character.
pub proof fn lemma_segment_bytes(bytes: Seq<u8>)
    ensures
        segment_check(bytes) is Ok <==> (1 <= bytes.len() <= 30 && forall|i: int|
            0 <= i < bytes.len() ==> (0x61 <= #[trigger] bytes[i] <= 0x7a) || (0x30 <= bytes[i]
                <= 0x39)),
        bytes.len() < 1 ==> segment_check(bytes) == Err::<(), LqError>(LqError::SegmentTooShort),
        bytes.len() > 30 ==> segment_check(bytes) == Err::<(), LqError>(LqError::SegmentTooLong),
        (1 <= bytes.len() <= 30 && exists|i: int|
            0 <= i < bytes.len() && !((0x61 <= #[trigger] bytes[i] <= 0x7a) || (0x30 <= bytes[i]
                <= 0x39))) ==> segment_check(bytes) == Err::<(), LqError>(
            LqError::SegmentInvalidChar,
        ),
{
}

/// The segment type of the schema of schemas accepts exactly the texts that are valid
/// segments: 1 to 30 bytes, each a lower case letter (0x61-0x7a) or a digit (0x30-0x39).
pub proof fn lemma_self_schema_segment(
    t: AnyType,
    e: Seq<Entry>,
    tys: Seq<AnyType>,
    cfg: Config,
    text: String,
    st: StateView,
)
    requires
        segment_schema(t, e),
    ensures
        spec_validate_type(tys, cfg, t, Value::Unicode(text), st) is Ok <==> segment_check(
            encode_utf8(text@),
        ) is Ok,
        spec_validate_type(tys, cfg, t, Value::Unicode(text), st) is Ok <==> ({
            let bytes = encode_utf8(text@);
            1 <= bytes.len() <= 30 && forall|i: int|
                0 <= i < bytes.len() ==> (0x61 <= #[trigger] bytes[i] <= 0x7a) || (0x30 <= bytes[i]
                    <= 0x39)
        }),
{
    let bytes = encode_utf8(text@);
    lemma_segment_bytes(bytes);
    let a = t->Ascii_0;
    assert forall|i: int| 0 <= i < bytes.len() implies (a.codes.spec_contains(
        #[trigger] bytes[i] as int,
    ) <==> ((0x61 <= bytes[i] <= 0x7a) || (0x30 <= bytes[i] <= 0x39))) by {
        if 0x30 <= bytes[i] <= 0x39 {
            assert(a.codes.spec_ranges()[0].0 <= bytes[i] < a.codes.spec_ranges()[0].1);
        }
        if 0x61 <= bytes[i] <= 0x7a {
            assert(a.codes.spec_ranges()[1].0 <= bytes[i] < a.codes.spec_ranges()[1].1);
        }
    }
}

} // verus!
