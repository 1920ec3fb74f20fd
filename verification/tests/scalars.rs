#![allow(dead_code)]

use liquesco_schema::any_type::AnyType;
use liquesco_schema::ascii::TAscii;
use liquesco_schema::binary::TBinary;
use liquesco_schema::identifier::Identifier;
use liquesco_schema::schema::DefaultSchema;
use liquesco_schema::schema_core::{Config, TypeRef};
use liquesco_schema::seq::{Direction, SeqOrdering, Sorted, TSeq};
use liquesco_schema::sint::TSInt;
use liquesco_schema::structure::{Field, TStruct};
use liquesco_schema::type_container::DefaultTypeContainer;
use liquesco_schema::uint::TUInt;
use liquesco_schema::value::Value;

fn id(name: &str) -> Identifier {
    Identifier::try_from(name).unwrap()
}

fn single_schema(any_type: AnyType) -> DefaultSchema {
    DefaultSchema::new(DefaultTypeContainer::new(vec![], any_type))
}

fn assert_valid_strict(value: Value, schema: &DefaultSchema) {
    schema.validate(Config::strict(), &value).unwrap();
}

fn assert_invalid_strict(value: Value, schema: &DefaultSchema) {
    assert!(schema.validate(Config::strict(), &value).is_err());
}

/// A schema whose root is a sequence of `element`, sorted as given.
fn ord_schema(element: AnyType, direction: Direction, unique: bool) -> DefaultSchema {
    let types = vec![(id("element"), element)];
    let mut seq = TSeq::try_new(TypeRef(0), 0, u32::MAX).unwrap();
    seq.ordering = SeqOrdering::Sorted(Sorted { direction, unique });
    DefaultSchema::new(DefaultTypeContainer::new(types, AnyType::Sequence(seq)))
}

/// Both values are equal: a unique sorted sequence of them is invalid, a non-unique one valid.
fn ord_assert_equal(element: AnyType, item1: fn() -> Value, item2: fn() -> Value) {
    let schema_u = ord_schema(element.clone(), Direction::Descending, true);
    let schema = ord_schema(element, Direction::Descending, false);
    assert_invalid_strict(Value::Sequence(vec![item1(), item2()]), &schema_u);
    assert_valid_strict(Value::Sequence(vec![item1(), item2()]), &schema);
}

/// The first value is less than the second.
fn ord_assert_ascending(element: AnyType, item1: Value, item2: Value) {
    let schema = ord_schema(element, Direction::Ascending, true);
    assert_valid_strict(Value::Sequence(vec![item1, item2]), &schema);
}

fn text(s: &str) -> Value {
    Value::Unicode(s.to_string())
}

#[test]
fn uint_schema1() {
    let schema = single_schema(AnyType::UInt(TUInt::try_new(5, 158).unwrap()));

    assert_valid_strict(Value::UInt(5), &schema);
    assert_valid_strict(Value::UInt(6), &schema);
    assert_valid_strict(Value::UInt(157), &schema);
    assert_valid_strict(Value::UInt(158), &schema);

    assert_invalid_strict(Value::UInt(4), &schema);
    assert_invalid_strict(Value::UInt(3), &schema);
    assert_invalid_strict(Value::UInt(0), &schema);
    assert_invalid_strict(Value::UInt(159), &schema);
    assert_invalid_strict(Value::UInt(200), &schema);
    assert_invalid_strict(Value::UInt(20000000000), &schema);
}

#[test]
fn schema2() {
    let schema = single_schema(AnyType::UInt(TUInt::try_new(999, u64::MAX).unwrap()));

    assert_valid_strict(Value::UInt(999), &schema);
    assert_valid_strict(Value::UInt(1000), &schema);
    assert_valid_strict(Value::UInt(u64::MAX), &schema);

    assert_invalid_strict(Value::UInt(998), &schema);
    assert_invalid_strict(Value::UInt(0), &schema);
}

#[test]
fn uint_ordering() {
    let t = AnyType::UInt(TUInt::try_new(0, u64::MAX).unwrap());

    ord_assert_equal(t.clone(), || Value::UInt(100), || Value::UInt(100));
    ord_assert_equal(t.clone(), || Value::UInt(0), || Value::UInt(0));
    ord_assert_equal(t.clone(), || Value::UInt(u64::MAX), || Value::UInt(u64::MAX));

    ord_assert_ascending(t.clone(), Value::UInt(0), Value::UInt(u64::MAX));
    ord_assert_ascending(t, Value::UInt(5), Value::UInt(6));
}

#[test]
fn sint_schema1() {
    let schema = single_schema(AnyType::SInt(TSInt::try_new(-45, 4443444).unwrap()));

    assert_valid_strict(Value::SInt(-45), &schema);
    assert_valid_strict(Value::SInt(5), &schema);
    assert_valid_strict(Value::SInt(4443444), &schema);
    assert_valid_strict(Value::SInt(4443443), &schema);
    assert_valid_strict(Value::SInt(0), &schema);

    assert_invalid_strict(Value::SInt(-46), &schema);
    assert_invalid_strict(Value::SInt(4443445), &schema);
    assert_invalid_strict(Value::SInt(i64::MIN), &schema);
    assert_invalid_strict(Value::SInt(i64::MAX), &schema);
}

#[test]
fn sint_ordering() {
    let t = AnyType::SInt(TSInt::try_new(i64::MIN, i64::MAX).unwrap());

    ord_assert_equal(t.clone(), || Value::SInt(-100), || Value::SInt(-100));
    ord_assert_equal(t.clone(), || Value::SInt(0), || Value::SInt(0));
    ord_assert_equal(t.clone(), || Value::SInt(i64::MAX), || Value::SInt(i64::MAX));

    ord_assert_ascending(t.clone(), Value::SInt(0), Value::SInt(i64::MAX));
    ord_assert_ascending(t, Value::SInt(-5), Value::SInt(6));
}

#[test]
fn ascii_schema1() {
    let schema = single_schema(AnyType::Ascii(TAscii::try_new(5, 15, 97, 122).unwrap()));

    assert_valid_strict(text("hello"), &schema);
    assert_valid_strict(text("computer"), &schema);
    assert_valid_strict(text("under"), &schema);
    assert_valid_strict(text("qwertzuiopasdfg"), &schema);

    assert_invalid_strict(text("hell"), &schema);
    assert_invalid_strict(text("qwertzuiopasdfgh"), &schema);

    assert_invalid_strict(text("hell`"), &schema);
    assert_invalid_strict(text("hell{"), &schema);
    assert_invalid_strict(text("NoUppercase"), &schema);
}

#[test]
fn ascii_ordering() {
    let t = AnyType::Ascii(TAscii::try_new(0, 500, 0, 127).unwrap());

    ord_assert_equal(t.clone(), || text(""), || text(""));
    ord_assert_equal(t.clone(), || text("hello"), || text("hello"));

    ord_assert_ascending(t.clone(), text(""), text("a"));
    ord_assert_ascending(t.clone(), text("aaaaaaaaaa"), text("ab"));
    ord_assert_ascending(t, text("aaaaaaaaaa"), text("aaaaaaaaaab"));
}

#[test]
fn binary_schema1() {
    let types = vec![(id("binary"), AnyType::Binary(TBinary::try_new(1, 20).unwrap()))];
    let root = AnyType::Struct(TStruct::default().add(Field::new(id("bin"), TypeRef(0))));
    let schema = DefaultSchema::new(DefaultTypeContainer::new(types, root));
    let data = |bytes: &[u8]| Value::Sequence(vec![Value::Binary(bytes.to_vec())]);

    assert_valid_strict(data(b"hello"), &schema);
    // maximum length
    assert_valid_strict(data(b"hellohellohellohello"), &schema);
    // minimum length
    assert_valid_strict(data("h".as_bytes()), &schema);
    // err: too short
    assert_invalid_strict(data(b""), &schema);
    // err: too long
    assert_invalid_strict(data(b"hellohellohellohellox"), &schema);
}
