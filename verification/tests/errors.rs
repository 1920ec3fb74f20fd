#![allow(dead_code)]

use liquesco_schema::anchors::TAnchors;
use liquesco_schema::any_type::AnyType;
use liquesco_schema::ascii::TAscii;
use liquesco_schema::boolean::TBool;
use liquesco_schema::context::ValidationState;
use liquesco_schema::enumeration::{TEnum, Variant};
use liquesco_schema::error::LqError;
use liquesco_schema::identifier::{Identifier, Segment};
use liquesco_schema::key_ref::TKeyRef;
use liquesco_schema::map::TMap;
use liquesco_schema::metadata::{Implements, Uuid};
use liquesco_schema::option::TOption;
use liquesco_schema::range::{Inclusion, TRange};
use liquesco_schema::reference::TReference;
use liquesco_schema::root_map::TRootMap;
use liquesco_schema::schema::DefaultSchema;
use liquesco_schema::schema_core::{Config, TypeRef};
use liquesco_schema::seq::{Direction, SeqOrdering, Sorted, TSeq};
use liquesco_schema::structure::{Field, TStruct};
use liquesco_schema::type_container::DefaultTypeContainer;
use liquesco_schema::uint::TUInt;
use liquesco_schema::value::Value;

fn id(name: &str) -> Identifier {
    Identifier::try_from(name).unwrap()
}

/// Adds a type to the list of types; returns its reference.
fn add(types: &mut Vec<(Identifier, AnyType)>, name: &str, any_type: AnyType) -> TypeRef {
    types.push((id(name), any_type));
    TypeRef((types.len() - 1) as u32)
}

fn finish(types: Vec<(Identifier, AnyType)>, root: AnyType) -> DefaultSchema {
    DefaultSchema::new(DefaultTypeContainer::new(types, root))
}

fn assert_valid_strict(value: Value, schema: &DefaultSchema) {
    schema.validate(Config::strict(), &value).unwrap();
}

fn assert_invalid_strict(value: Value, schema: &DefaultSchema) {
    assert!(schema.validate(Config::strict(), &value).is_err());
}

fn seq(items: Vec<Value>) -> Value {
    Value::Sequence(items)
}

fn text(s: &str) -> Value {
    Value::Unicode(s.to_string())
}

fn uints(items: &[u64]) -> Value {
    Value::Sequence(items.iter().map(|n| Value::UInt(*n)).collect())
}

fn uint_types() -> Vec<(Identifier, AnyType)> {
    vec![(id("number"), AnyType::UInt(TUInt::try_new(0, 100).unwrap()))]
}

fn strict(schema: &DefaultSchema, value: Value) -> Result<(), LqError> {
    schema.validate(Config::strict(), &value)
}

fn lenient(schema: &DefaultSchema, value: Value) -> Result<(), LqError> {
    schema.validate(Config::new(), &value)
}

fn sorted_schema(direction: Direction, unique: bool) -> DefaultSchema {
    let mut seq_type = TSeq::try_new(TypeRef(0), 0, 10).unwrap();
    seq_type.ordering = SeqOrdering::Sorted(Sorted { direction, unique });
    finish(uint_types(), AnyType::Sequence(seq_type))
}

fn struct_schema() -> DefaultSchema {
    let root = TStruct::default()
        .add(Field::new(id("a"), TypeRef(0)))
        .add(Field::new(id("b"), TypeRef(0)));
    finish(uint_types(), AnyType::Struct(root))
}

fn enum_schema() -> DefaultSchema {
    let root = TEnum::default()
        .add_variant(Variant::new(id("none")))
        .add_variant(Variant::new(id("two")).add_value(TypeRef(0)).add_value(TypeRef(0)));
    finish(uint_types(), AnyType::Enum(root))
}

fn map_schema() -> DefaultSchema {
    finish(uint_types(), AnyType::Mapping(TMap::new(TypeRef(0), TypeRef(0))))
}

fn range_schema(inclusion: Inclusion, allow_equal: bool) -> DefaultSchema {
    finish(uint_types(), AnyType::Range(TRange::new(TypeRef(0), inclusion, allow_equal)))
}

/// Anchors of references: each anchor is a reference.
fn anchors_schema() -> DefaultSchema {
    let types = vec![(id("reference"), AnyType::Reference(TReference::default()))];
    finish(types, AnyType::Anchors(TAnchors::new(TypeRef(0), TypeRef(0))))
}

fn anchors(master: u64, others: &[u64]) -> Value {
    seq(vec![Value::UInt(master), uints(others)])
}

#[test]
fn error_unexpected_value() {
    let schema = finish(uint_types(), AnyType::UInt(TUInt::try_new(0, 10).unwrap()));
    assert_eq!(strict(&schema, Value::Bool(true)), Err(LqError::UnexpectedValue));
    assert_eq!(strict(&schema, Value::SInt(1)), Err(LqError::UnexpectedValue));
}

#[test]
fn error_type_not_found() {
    let schema = finish(vec![], AnyType::Option(TOption::new(TypeRef(3))));
    assert_eq!(strict(&schema, Value::Present(Box::new(Value::UInt(1)))), Err(LqError::TypeNotFound));
    // an absent value does not need the type
    assert_eq!(strict(&schema, Value::Absent), Ok(()));
}

#[test]
fn error_not_within_range() {
    let schema = finish(uint_types(), AnyType::UInt(TUInt::try_new(5, 10).unwrap()));
    assert_eq!(strict(&schema, Value::UInt(11)), Err(LqError::NotWithinRange));
    let seq_schema = finish(uint_types(), AnyType::Sequence(TSeq::try_new(TypeRef(0), 1, 2).unwrap()));
    assert_eq!(strict(&seq_schema, uints(&[])), Err(LqError::NotWithinRange));
    assert_eq!(strict(&seq_schema, uints(&[1, 2, 3])), Err(LqError::NotWithinRange));
    assert_eq!(strict(&seq_schema, uints(&[1, 2])), Ok(()));
}

#[test]
fn error_not_multiple_of() {
    let mut seq_type = TSeq::try_new(TypeRef(0), 0, 10).unwrap();
    seq_type.multiple_of = Some(2);
    let schema = finish(uint_types(), AnyType::Sequence(seq_type));
    assert_eq!(strict(&schema, uints(&[1, 2, 3])), Err(LqError::NotMultipleOf));
    assert_eq!(strict(&schema, uints(&[1, 2, 3, 4])), Ok(()));
    assert_eq!(strict(&schema, uints(&[])), Ok(()));
}

#[test]
fn error_wrong_ordering() {
    let ascending = sorted_schema(Direction::Ascending, true);
    assert_eq!(strict(&ascending, uints(&[2, 1])), Err(LqError::WrongOrdering));
    assert_eq!(strict(&ascending, uints(&[1, 2, 3])), Ok(()));
    let descending = sorted_schema(Direction::Descending, true);
    assert_eq!(strict(&descending, uints(&[1, 2])), Err(LqError::WrongOrdering));
    assert_eq!(strict(&descending, uints(&[3, 2, 1])), Ok(()));
}

#[test]
fn error_duplicate_element() {
    let unique = sorted_schema(Direction::Ascending, true);
    assert_eq!(strict(&unique, uints(&[1, 1])), Err(LqError::DuplicateElement));
    let not_unique = sorted_schema(Direction::Ascending, false);
    assert_eq!(strict(&not_unique, uints(&[1, 1, 2])), Ok(()));
}

#[test]
fn error_struct_length_mismatch() {
    let schema = struct_schema();
    assert_eq!(strict(&schema, uints(&[1, 2, 3])), Err(LqError::StructLengthMismatch));
    assert_eq!(strict(&schema, uints(&[1])), Err(LqError::StructLengthMismatch));
    // extensions are allowed unless the configuration forbids them
    assert_eq!(lenient(&schema, uints(&[1, 2, 3])), Ok(()));
}

#[test]
fn error_missing_fields() {
    let schema = struct_schema();
    assert_eq!(lenient(&schema, uints(&[1])), Err(LqError::MissingFields));
}

#[test]
fn error_no_such_variant() {
    let schema = enum_schema();
    assert_eq!(strict(&schema, Value::Enum(2, vec![])), Err(LqError::NoSuchVariant));
}

#[test]
fn error_variant_values_mismatch() {
    let schema = enum_schema();
    let three = Value::Enum(1, vec![Value::UInt(1), Value::UInt(2), Value::UInt(3)]);
    assert_eq!(strict(&schema, three), Err(LqError::VariantValuesMismatch));
    let three = Value::Enum(1, vec![Value::UInt(1), Value::UInt(2), Value::UInt(3)]);
    assert_eq!(lenient(&schema, three), Ok(()));
}

#[test]
fn error_missing_variant_values() {
    let schema = enum_schema();
    assert_eq!(lenient(&schema, Value::Enum(1, vec![Value::UInt(1)])), Err(LqError::MissingVariantValues));
}

#[test]
fn error_malformed_map_entry() {
    let schema = map_schema();
    assert_eq!(strict(&schema, seq(vec![uints(&[1])])), Err(LqError::MalformedMapEntry));
    assert_eq!(strict(&schema, seq(vec![Value::UInt(1)])), Err(LqError::MalformedMapEntry));
}

#[test]
fn error_map_key_ordering() {
    let schema = map_schema();
    assert_eq!(strict(&schema, seq(vec![uints(&[2, 0]), uints(&[1, 0])])), Err(LqError::MapKeyOrdering));
    // duplicate keys are not allowed either
    assert_eq!(strict(&schema, seq(vec![uints(&[1, 0]), uints(&[1, 5])])), Err(LqError::MapKeyOrdering));
    assert_eq!(strict(&schema, seq(vec![uints(&[1, 0]), uints(&[2, 0])])), Ok(()));
}

#[test]
fn error_malformed_root_map() {
    let schema = finish(uint_types(), AnyType::RootMap(TRootMap::new(TypeRef(0), TypeRef(0), TypeRef(0))));
    assert_eq!(strict(&schema, seq(vec![seq(vec![])])), Err(LqError::MalformedRootMap));
    assert_eq!(strict(&schema, seq(vec![seq(vec![]), Value::UInt(1)])), Ok(()));
}

#[test]
fn error_key_ref_out_of_bounds() {
    let types = vec![
        (id("key_ref"), AnyType::KeyRef(TKeyRef::default())),
        (id("key"), AnyType::UInt(TUInt::try_new(0, 100).unwrap())),
    ];
    let schema = finish(types, AnyType::RootMap(TRootMap::new(TypeRef(0), TypeRef(1), TypeRef(0))));
    // the root value references key 1 of a map with one entry
    let value = seq(vec![seq(vec![uints(&[0, 0])]), Value::UInt(1)]);
    assert_eq!(strict(&schema, value), Err(LqError::KeyRefOutOfBounds));
    let value = seq(vec![seq(vec![uints(&[0, 0])]), Value::UInt(0)]);
    assert_eq!(strict(&schema, value), Ok(()));
}

#[test]
fn error_key_ref_without_map() {
    let schema = finish(vec![], AnyType::KeyRef(TKeyRef::default()));
    assert_eq!(strict(&schema, Value::UInt(0)), Err(LqError::KeyRefWithoutMap));
}

#[test]
fn error_key_ref_stack_empty() {
    let mut state = ValidationState::new();
    assert_eq!(state.pop_key_ref_info(), Err(LqError::KeyRefStackEmpty));
}

#[test]
fn error_range_length() {
    let schema = range_schema(Inclusion::BothInclusive, false);
    assert_eq!(strict(&schema, uints(&[1, 2, 3])), Err(LqError::RangeLength));
    let supplied = range_schema(Inclusion::Supplied, false);
    assert_eq!(strict(&supplied, uints(&[1, 2])), Err(LqError::RangeLength));
    let value = seq(vec![Value::UInt(1), Value::UInt(2), Value::Bool(true), Value::Bool(false)]);
    assert_eq!(strict(&supplied, value), Ok(()));
}

#[test]
fn error_range_start_greater_than_end() {
    let schema = range_schema(Inclusion::BothInclusive, true);
    assert_eq!(strict(&schema, uints(&[2, 1])), Err(LqError::RangeStartGreaterThanEnd));
}

#[test]
fn error_range_start_equals_end() {
    let schema = range_schema(Inclusion::BothInclusive, false);
    assert_eq!(strict(&schema, uints(&[2, 2])), Err(LqError::RangeStartEqualsEnd));
    let allow_equal = range_schema(Inclusion::BothInclusive, true);
    assert_eq!(strict(&allow_equal, uints(&[2, 2])), Ok(()));
}

#[test]
fn error_malformed_anchors() {
    let schema = anchors_schema();
    assert_eq!(strict(&schema, uints(&[0])), Err(LqError::MalformedAnchors));
}

#[test]
fn error_unused_anchor() {
    let schema = anchors_schema();
    assert_eq!(strict(&schema, anchors(0, &[0])), Err(LqError::UnusedAnchor));
    // weak reference validation allows unused anchors
    let weak = Config { no_extension: true, weak_reference_validation: true };
    assert_eq!(schema.validate(weak, &anchors(0, &[0])), Ok(()));
}

#[test]
fn error_anchor_overflow() {
    let schema = anchors_schema();
    assert_eq!(strict(&schema, anchors(1, &[2])), Err(LqError::AnchorOverflow));
    assert_eq!(strict(&schema, anchors(1, &[1])), Ok(()));
}

#[test]
fn error_reference_skips_anchor() {
    let schema = anchors_schema();
    assert_eq!(strict(&schema, anchors(2, &[1, 1])), Err(LqError::ReferenceSkipsAnchor));
    assert_eq!(strict(&schema, anchors(1, &[2, 1])), Ok(()));
}

#[test]
fn error_reference_outside_anchors() {
    let schema = finish(vec![], AnyType::Reference(TReference::default()));
    assert_eq!(strict(&schema, Value::UInt(0)), Err(LqError::ReferenceOutsideAnchors));
}

#[test]
fn error_invalid_character() {
    let schema = finish(vec![], AnyType::Ascii(TAscii::try_new(0, 10, 97, 122).unwrap()));
    assert_eq!(strict(&schema, text("abC")), Err(LqError::InvalidCharacter));
    assert_eq!(strict(&schema, text("abcdefghijk")), Err(LqError::NotWithinRange));
    assert_eq!(strict(&schema, text("abc")), Ok(()));
}

#[test]
fn error_invalid_range() {
    assert_eq!(TUInt::try_new(5, 4), Err(LqError::InvalidRange));
    assert_eq!(TAscii::try_new(0, 10, 100, 99), Err(LqError::InvalidRange));
    assert_eq!(TSeq::try_new(TypeRef(0), 3, 2), Err(LqError::InvalidRange));
}

#[test]
fn error_no_such_reference() {
    let mut bool_type = AnyType::Bool(TBool::default());
    assert_eq!(bool_type.set_reference(0, TypeRef(1)), Err(LqError::NoSuchReference));
    let mut option = AnyType::Option(TOption::new(TypeRef(0)));
    assert_eq!(option.set_reference(1, TypeRef(1)), Err(LqError::NoSuchReference));
}

#[test]
fn error_segments() {
    assert_eq!(Segment::try_from("").err(), Some(LqError::SegmentTooShort));
    assert_eq!(Segment::try_from("abcdefghijabcdefghijabcdefghijx").err(), Some(LqError::SegmentTooLong));
    assert_eq!(Segment::try_from("aBc").err(), Some(LqError::SegmentInvalidChar));
    assert_eq!(Identifier::try_from("a_b_c_d_e_f_g_h_i_j_k_l_m").err(), Some(LqError::TooManySegments));
    assert!(Identifier::try_from("a_b_c_d_e_f_g_h_i_j_k_l").is_ok());
}

#[test]
fn error_implements() {
    assert_eq!(Implements::try_new(&[]).err(), Some(LqError::TooFewImplements));
    let many = vec![Uuid([0; 16]); 256];
    assert_eq!(Implements::try_new(&many).err(), Some(LqError::TooManyImplements));
    let mut implements = Implements::try_new(&many[0..255]).unwrap();
    assert_eq!(implements.add(Uuid([1; 16])), Err(LqError::TooManyImplements));
}
