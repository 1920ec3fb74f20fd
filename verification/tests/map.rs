#![allow(dead_code)]

use liquesco_schema::any_type::AnyType;
use liquesco_schema::identifier::Identifier;
use liquesco_schema::map::TMap;
use liquesco_schema::schema::DefaultSchema;
use liquesco_schema::schema_core::{Config, TypeRef};
use liquesco_schema::sint::TSInt;
use liquesco_schema::type_container::DefaultTypeContainer;
use liquesco_schema::unicode::{LengthType, TUnicode};
use liquesco_schema::value::Value;
use std::collections::BTreeMap;

fn id(name: &str) -> Identifier {
    Identifier::try_from(name).unwrap()
}

/// Adds a type to the list of types; returns its reference.
fn add(types: &mut Vec<(Identifier, AnyType)>, name: &str, any_type: AnyType) -> TypeRef {
    types.push((id(name), any_type));
    TypeRef((types.len() - 1) as u32)
}

fn finish(types: Vec<(Identifier, AnyType)>, root: AnyType) -> DefaultSchema {
    DefaultSchema::new(DefaultTypeContainer::new(types, root))
}

fn assert_valid_strict(value: Value, schema: &DefaultSchema) {
    schema.validate(Config::strict(), &value).unwrap();
}

fn assert_invalid_strict(value: Value, schema: &DefaultSchema) {
    assert!(schema.validate(Config::strict(), &value).is_err());
}

fn seq(items: Vec<Value>) -> Value {
    Value::Sequence(items)
}

fn text(s: &str) -> Value {
    Value::Unicode(s.to_string())
}

fn uints(items: &[u64]) -> Value {
    Value::Sequence(items.iter().map(|n| Value::UInt(*n)).collect())
}

fn text_map(entries: &[(&str, &str)]) -> Value {
    seq(entries.iter().map(|(k, v)| seq(vec![text(k), text(v)])).collect())
}

fn number_map(entries: &[(i64, i64)]) -> Value {
    seq(entries.iter().map(|(k, v)| seq(vec![Value::SInt(*k), Value::SInt(*v)])).collect())
}

fn create_schema1() -> DefaultSchema {
    let mut types = Vec::new();
    let key = add(
        &mut types,
        "key",
        AnyType::Unicode(TUnicode::try_new(0, 100, LengthType::Utf8Byte).unwrap()),
    );
    let value = add(
        &mut types,
        "value",
        AnyType::Unicode(TUnicode::try_new(0, 100, LengthType::Utf8Byte).unwrap()),
    );
    finish(types, AnyType::Mapping(TMap::new(key, value)))
}

fn create_schema_numbers() -> DefaultSchema {
    let mut types = Vec::new();
    let key = add(&mut types, "key", AnyType::SInt(TSInt::try_new(-1000, 1000).unwrap()));
    let value = add(&mut types, "value", AnyType::SInt(TSInt::try_new(-1000, 1000).unwrap()));
    finish(types, AnyType::Mapping(TMap::new(key, value)))
}

#[test]
fn ok_empty_map() {
    let schema = create_schema1();
    assert_valid_strict(text_map(&[]), &schema);
}

#[test]
fn ok_map() {
    let schema = create_schema1();
    let map = text_map(&[("aaa", "C Some Value"), ("bbb", "A Some Value"), ("ccc", "B Some Value")]);
    assert_valid_strict(map, &schema);
}

#[test]
fn ok_map_numbers() {
    let schema = create_schema_numbers();
    let map = number_map(&[(10, 30), (20, 20), (30, 10), (70, 50), (71, 50)]);
    assert_valid_strict(map, &schema);
}

#[test]
fn err_wrong_ordering_string() {
    let schema = create_schema1();
    let map = text_map(&[("bbb", "C Some Value"), ("ccc", "A Some Value"), ("aaa", "B Some Value")]);
    assert_invalid_strict(map, &schema);
}

#[test]
fn err_wrong_key_ordering() {
    let schema = create_schema_numbers();
    let map = number_map(&[(10, 30), (11, 30), (9, 20)]);
    assert_invalid_strict(map, &schema);
}

/// Entries taken from a BTreeMap come in the right key order.
#[test]
fn ok_with_btree() {
    let mut my_map: BTreeMap<i64, i64> = BTreeMap::new();
    for index in 0..300 {
        let key = index % 31;
        let value = index % 7;
        my_map.insert(key, value);
    }
    let entries: Vec<(i64, i64)> = my_map.into_iter().collect();

    let schema = create_schema_numbers();
    assert_valid_strict(number_map(&entries), &schema);
}
