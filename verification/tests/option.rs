#![allow(dead_code)]

use liquesco_schema::any_type::AnyType;
use liquesco_schema::ascii::TAscii;
use liquesco_schema::boolean::TBool;
use liquesco_schema::identifier::Identifier;
use liquesco_schema::option::TOption;
use liquesco_schema::schema::DefaultSchema;
use liquesco_schema::schema_core::{Config, TypeRef};
use liquesco_schema::seq::{Direction, SeqOrdering, Sorted, TSeq};
use liquesco_schema::type_container::DefaultTypeContainer;
use liquesco_schema::value::Value;

fn id(name: &str) -> Identifier {
    Identifier::try_from(name).unwrap()
}

/// Adds a type to the list of types; returns its reference.
fn add(types: &mut Vec<(Identifier, AnyType)>, name: &str, any_type: AnyType) -> TypeRef {
    types.push((id(name), any_type));
    TypeRef((types.len() - 1) as u32)
}

fn finish(types: Vec<(Identifier, AnyType)>, root: AnyType) -> DefaultSchema {
    DefaultSchema::new(DefaultTypeContainer::new(types, root))
}

fn assert_valid_strict(value: Value, schema: &DefaultSchema) {
    schema.validate(Config::strict(), &value).unwrap();
}

fn assert_invalid_strict(value: Value, schema: &DefaultSchema) {
    assert!(schema.validate(Config::strict(), &value).is_err());
}

fn seq(items: Vec<Value>) -> Value {
    Value::Sequence(items)
}

fn text(s: &str) -> Value {
    Value::Unicode(s.to_string())
}

fn uints(items: &[u64]) -> Value {
    Value::Sequence(items.iter().map(|n| Value::UInt(*n)).collect())
}

fn some(v: Value) -> Value {
    Value::Present(Box::new(v))
}

#[test]
fn option_schema1() {
    let mut types = Vec::new();
    let boolean = add(&mut types, "boolean", AnyType::Bool(TBool::default()));
    let schema = finish(types, AnyType::Option(TOption::new(boolean)));

    // some valid items
    assert_valid_strict(Value::Absent, &schema);
    assert_valid_strict(some(Value::Bool(true)), &schema);

    // completely wrong type
    assert_invalid_strict(some(text("expecting a bool here")), &schema);
}

fn ordering_create_schema() -> DefaultSchema {
    let mut types = Vec::new();
    let element = add(
        &mut types,
        "element_in_ord",
        AnyType::Ascii(TAscii::try_new(0, u64::MAX, 0, 127).unwrap()),
    );
    let option = add(&mut types, "option_element_in_ord", AnyType::Option(TOption::new(element)));
    let mut seq_type = TSeq::try_new(option, 0, u32::MAX).unwrap();
    seq_type.ordering =
        SeqOrdering::Sorted(Sorted { direction: Direction::Ascending, unique: true });
    finish(types, AnyType::Sequence(seq_type))
}

#[test]
fn option_ordering() {
    let schema = ordering_create_schema();

    // Present is always greater than absent
    assert_valid_strict(seq(vec![Value::Absent, some(text(""))]), &schema);
    assert_valid_strict(seq(vec![some(text("a")), some(text("b"))]), &schema);
    assert_valid_strict(seq(vec![some(text("aaaaa")), some(text("aaaaaa"))]), &schema);
    assert_valid_strict(seq(vec![some(text("aaaaaaaaa")), some(text("aaaab"))]), &schema);

    // invalid: duplicate
    assert_invalid_strict(seq(vec![Value::Absent, Value::Absent]), &schema);
    // invalid: duplicate
    assert_invalid_strict(seq(vec![some(text("aaaab")), some(text("aaaab"))]), &schema);
    // invalid: wrong ordering
    assert_invalid_strict(seq(vec![some(text("aaaab")), some(text("aaaaa"))]), &schema);
    // invalid: wrong ordering
    assert_invalid_strict(seq(vec![some(text("")), Value::Absent]), &schema);
}
