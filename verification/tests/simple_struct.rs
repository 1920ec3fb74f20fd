#![allow(dead_code)]

use liquesco_schema::any_type::AnyType;
use liquesco_schema::ascii::TAscii;
use liquesco_schema::boolean::TBool;
use liquesco_schema::identifier::Identifier;
use liquesco_schema::schema::DefaultSchema;
use liquesco_schema::schema_core::{Config, TypeRef};
use liquesco_schema::seq::{Direction, SeqOrdering, Sorted, TSeq};
use liquesco_schema::sint::TSInt;
use liquesco_schema::structure::{Field, TStruct};
use liquesco_schema::type_container::DefaultTypeContainer;
use liquesco_schema::uint::TUInt;
use liquesco_schema::value::Value;

fn id(name: &str) -> Identifier {
    Identifier::try_from(name).unwrap()
}

/// Adds a type to the list of types; returns its reference.
fn add(types: &mut Vec<(Identifier, AnyType)>, name: &str, any_type: AnyType) -> TypeRef {
    types.push((id(name), any_type));
    TypeRef((types.len() - 1) as u32)
}

fn finish(types: Vec<(Identifier, AnyType)>, root: AnyType) -> DefaultSchema {
    DefaultSchema::new(DefaultTypeContainer::new(types, root))
}

fn assert_valid_strict(value: Value, schema: &DefaultSchema) {
    schema.validate(Config::strict(), &value).unwrap();
}

fn assert_invalid_strict(value: Value, schema: &DefaultSchema) {
    assert!(schema.validate(Config::strict(), &value).is_err());
}

fn seq(items: Vec<Value>) -> Value {
    Value::Sequence(items)
}

fn text(s: &str) -> Value {
    Value::Unicode(s.to_string())
}

fn uints(items: &[u64]) -> Value {
    Value::Sequence(items.iter().map(|n| Value::UInt(*n)).collect())
}

fn assert_valid_extended(value: Value, schema: &DefaultSchema) {
    schema.validate(Config::new(), &value).unwrap();
}

fn assert_invalid_extended(value: Value, schema: &DefaultSchema) {
    assert!(schema.validate(Config::new(), &value).is_err());
}

#[test]
fn simple_struct_schema1() {
    let mut types = Vec::new();
    let int = add(&mut types, "int", AnyType::UInt(TUInt::try_new(2, 144).unwrap()));
    let upper_case =
        add(&mut types, "upper_case", AnyType::Ascii(TAscii::try_new(2, 10, 65, 90).unwrap()));
    let root = add(
        &mut types,
        "root",
        AnyType::Struct(
            TStruct::default().add(Field::new(id("age"), int)).add(Field::new(id("name"), upper_case)),
        ),
    );
    let root_type = types[root.0 as usize].1.clone();
    let schema = finish(types, root_type);

    // valid
    assert_valid_strict(seq(vec![Value::UInt(45), text("JOHN")]), &schema);
    assert_valid_strict(seq(vec![Value::UInt(144), text("ZZZZZZZZZZ")]), &schema);
    assert_valid_strict(seq(vec![Value::UInt(2), text("AA")]), &schema);

    // invalid
    assert_invalid_strict(seq(vec![Value::UInt(1), text("AA")]), &schema);
    assert_invalid_strict(seq(vec![Value::UInt(20), text("aaa")]), &schema);
    assert_invalid_strict(seq(vec![Value::UInt(20)]), &schema);
    assert_invalid_strict(seq(vec![Value::UInt(20), text("JOHN"), Value::Bool(true)]), &schema);
}

fn ordering_create_schema() -> DefaultSchema {
    let mut types = Vec::new();
    let type_x = add(&mut types, "type_x", AnyType::UInt(TUInt::try_new(0, u64::MAX).unwrap()));
    let type_y =
        add(&mut types, "type_y", AnyType::SInt(TSInt::try_new(i64::MIN, i64::MAX).unwrap()));
    let inner_struct = add(
        &mut types,
        "inner_struct",
        AnyType::Struct(
            TStruct::default().add(Field::new(id("x"), type_x)).add(Field::new(id("y"), type_y)),
        ),
    );
    let type_more = add(&mut types, "type_more", AnyType::Bool(TBool::default()));
    let element = add(
        &mut types,
        "struct",
        AnyType::Struct(
            TStruct::default()
                .add(Field::new(id("content"), inner_struct))
                .add(Field::new(id("more"), type_more)),
        ),
    );
    let mut seq_type = TSeq::try_new(element, 0, u32::MAX).unwrap();
    seq_type.ordering =
        SeqOrdering::Sorted(Sorted { direction: Direction::Ascending, unique: true });
    finish(types, AnyType::Sequence(seq_type))
}

/// `{ content: { x, y }, more }`
fn container(x: u64, y: i64, more: bool) -> Value {
    seq(vec![seq(vec![Value::UInt(x), Value::SInt(y)]), Value::Bool(more)])
}

/// `{ content: { x, y, more_data }, more, more2 }`: with fields the schema does not know.
fn container_ext(x: u64, y: i64, more_data: &str, more: bool, more2: bool) -> Value {
    seq(vec![
        seq(vec![Value::UInt(x), Value::SInt(y), text(more_data)]),
        Value::Bool(more),
        Value::Bool(more2),
    ])
}

#[test]
fn simple_struct_ordering_no_extension() {
    let schema = ordering_create_schema();

    // "normal" check (no extensions) - valid
    assert_valid_strict(
        seq(vec![container(10, 20, false), container(10, 20, true), container(10, 21, false)]),
        &schema,
    );

    // "normal" check (no extensions) - invalid because of duplicate
    assert_invalid_strict(seq(vec![container(10, 20, false), container(10, 20, false)]), &schema);

    // "normal" check (no extensions) - invalid because wrong ordering
    assert_invalid_strict(seq(vec![container(10, 20, true), container(10, 20, false)]), &schema);
}

/// Only the parts defined in the schema are used to compare two items.
#[test]
fn simple_struct_ordering_extension() {
    let schema = ordering_create_schema();

    assert_valid_extended(
        seq(vec![
            container(10, 20, false),
            container_ext(10, 20, "This field is ignored", true, false),
        ]),
        &schema,
    );

    // Not equal value by value, but equal as far as the schema goes: a duplicate.
    assert_invalid_extended(
        seq(vec![
            container(10, 20, false),
            container_ext(10, 20, "This field is ignored", false, false),
        ]),
        &schema,
    );
}
