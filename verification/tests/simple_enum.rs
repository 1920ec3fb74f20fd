#![allow(dead_code)]

use liquesco_schema::any_type::AnyType;
use liquesco_schema::ascii::TAscii;
use liquesco_schema::enumeration::{TEnum, Variant};
use liquesco_schema::identifier::Identifier;
use liquesco_schema::schema::DefaultSchema;
use liquesco_schema::schema_core::{Config, TypeRef};
use liquesco_schema::seq::{Direction, SeqOrdering, Sorted, TSeq};
use liquesco_schema::type_container::DefaultTypeContainer;
use liquesco_schema::uint::TUInt;
use liquesco_schema::value::Value;

fn id(name: &str) -> Identifier {
    Identifier::try_from(name).unwrap()
}

/// Adds a type to the list of types; returns its reference.
fn add(types: &mut Vec<(Identifier, AnyType)>, name: &str, any_type: AnyType) -> TypeRef {
    types.push((id(name), any_type));
    TypeRef((types.len() - 1) as u32)
}

fn finish(types: Vec<(Identifier, AnyType)>, root: AnyType) -> DefaultSchema {
    DefaultSchema::new(DefaultTypeContainer::new(types, root))
}

fn assert_valid_strict(value: Value, schema: &DefaultSchema) {
    schema.validate(Config::strict(), &value).unwrap();
}

fn assert_invalid_strict(value: Value, schema: &DefaultSchema) {
    assert!(schema.validate(Config::strict(), &value).is_err());
}

fn seq(items: Vec<Value>) -> Value {
    Value::Sequence(items)
}

fn text(s: &str) -> Value {
    Value::Unicode(s.to_string())
}

fn uints(items: &[u64]) -> Value {
    Value::Sequence(items.iter().map(|n| Value::UInt(*n)).collect())
}

fn assert_valid_extended(value: Value, schema: &DefaultSchema) {
    schema.validate(Config::new(), &value).unwrap();
}

fn variant(ordinal: u32, values: Vec<Value>) -> Value {
    Value::Enum(ordinal, values)
}

#[test]
fn simple_enum_schema1() {
    let mut types = Vec::new();
    let int = add(&mut types, "int", AnyType::UInt(TUInt::try_new(1, 200).unwrap()));
    let upper_case =
        add(&mut types, "upper_case", AnyType::Ascii(TAscii::try_new(2, 10, 65, 90).unwrap()));
    let schema = finish(
        types,
        AnyType::Enum(
            TEnum::default()
                .add_variant(Variant::new(id("shutdown")))
                .add_variant(Variant::new(id("add")).add_value(int))
                .add_variant(Variant::new(id("delete_account")).add_value(upper_case)),
        ),
    );

    // valid
    assert_valid_strict(variant(0, vec![]), &schema);
    assert_valid_strict(variant(1, vec![Value::UInt(45)]), &schema);
    assert_valid_strict(variant(2, vec![text("MYACCOUNT")]), &schema);

    // invalid
    assert_invalid_strict(variant(1, vec![Value::UInt(201)]), &schema);
    assert_invalid_strict(variant(2, vec![text("MYACCOUNTXX")]), &schema);
    // a variant the schema does not have
    assert_invalid_strict(variant(3, vec![]), &schema);
    // too many values
    assert_invalid_strict(variant(1, vec![Value::UInt(45), Value::UInt(45)]), &schema);
}

fn ordering_create_schema() -> DefaultSchema {
    let mut types = Vec::new();
    let variant1_type =
        add(&mut types, "variant1_type", AnyType::UInt(TUInt::try_new(0, u64::MAX).unwrap()));
    let element = add(
        &mut types,
        "the_enum",
        AnyType::Enum(
            TEnum::default()
                .add_variant(Variant::new(id("variant1")).add_value(variant1_type))
                .add_variant(Variant::new(id("variant2"))),
        ),
    );
    let mut seq_type = TSeq::try_new(element, 0, u32::MAX).unwrap();
    seq_type.ordering =
        SeqOrdering::Sorted(Sorted { direction: Direction::Ascending, unique: true });
    finish(types, AnyType::Sequence(seq_type))
}

#[test]
fn simple_enum_ordering_no_extension() {
    let schema = ordering_create_schema();

    // variant ordinals are compared first (so variant1 is always < variant2)
    assert_valid_strict(seq(vec![variant(0, vec![Value::UInt(158)]), variant(1, vec![])]), &schema);
    assert_valid_strict(
        seq(vec![variant(0, vec![Value::UInt(10)]), variant(0, vec![Value::UInt(11)])]),
        &schema,
    );

    // duplicates
    assert_invalid_strict(
        seq(vec![variant(0, vec![Value::UInt(158)]), variant(0, vec![Value::UInt(158)])]),
        &schema,
    );
    assert_invalid_strict(seq(vec![variant(1, vec![]), variant(1, vec![])]), &schema);

    // wrong ordering
    assert_invalid_strict(seq(vec![variant(1, vec![]), variant(0, vec![Value::UInt(158)])]), &schema);
    assert_invalid_strict(
        seq(vec![variant(0, vec![Value::UInt(159)]), variant(0, vec![Value::UInt(158)])]),
        &schema,
    );
}

#[test]
fn simple_enum_ordering_extension() {
    let schema = ordering_create_schema();

    // values the schema does not know are ignored when comparing
    assert_valid_extended(
        seq(vec![variant(0, vec![Value::UInt(158)]), variant(1, vec![text("this is ignored")])]),
        &schema,
    );
    assert_valid_extended(
        seq(vec![
            variant(0, vec![Value::UInt(158), Value::UInt(44444), text("ignored")]),
            variant(0, vec![Value::UInt(159)]),
        ]),
        &schema,
    );

    // duplicates: not equal value by value, but the extra values are not in the schema
    assert_invalid_strict(
        seq(vec![
            variant(0, vec![Value::UInt(159), Value::UInt(232), text("ignored")]),
            variant(0, vec![Value::UInt(159)]),
        ]),
        &schema,
    );
    assert_invalid_strict(seq(vec![variant(1, vec![text("ignored")]), variant(1, vec![])]), &schema);

    // wrong ordering
    assert_invalid_strict(
        seq(vec![
            variant(0, vec![Value::UInt(159)]),
            variant(0, vec![Value::UInt(158), Value::UInt(232), text("ignored")]),
        ]),
        &schema,
    );
}
