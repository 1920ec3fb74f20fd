#![allow(dead_code)]

use liquesco_schema::anchors::TAnchors;
use liquesco_schema::any_type::AnyType;
use liquesco_schema::ascii::TAscii;
use liquesco_schema::boolean::TBool;
use liquesco_schema::identifier::Identifier;
use liquesco_schema::reference::TReference;
use liquesco_schema::schema::DefaultSchema;
use liquesco_schema::schema_core::{Config, TypeRef};
use liquesco_schema::seq::TSeq;
use liquesco_schema::structure::{Field, TStruct};
use liquesco_schema::type_container::DefaultTypeContainer;
use liquesco_schema::value::Value;

fn id(name: &str) -> Identifier {
    Identifier::try_from(name).unwrap()
}

/// Adds a type to the list of types; returns its reference.
fn add(types: &mut Vec<(Identifier, AnyType)>, name: &str, any_type: AnyType) -> TypeRef {
    types.push((id(name), any_type));
    TypeRef((types.len() - 1) as u32)
}

fn finish(types: Vec<(Identifier, AnyType)>, root: AnyType) -> DefaultSchema {
    DefaultSchema::new(DefaultTypeContainer::new(types, root))
}

fn assert_valid_strict(value: Value, schema: &DefaultSchema) {
    schema.validate(Config::strict(), &value).unwrap();
}

fn assert_invalid_strict(value: Value, schema: &DefaultSchema) {
    assert!(schema.validate(Config::strict(), &value).is_err());
}

fn seq(items: Vec<Value>) -> Value {
    Value::Sequence(items)
}

fn text(s: &str) -> Value {
    Value::Unicode(s.to_string())
}

fn uints(items: &[u64]) -> Value {
    Value::Sequence(items.iter().map(|n| Value::UInt(*n)).collect())
}

fn create_schema1() -> DefaultSchema {
    let mut types = Vec::new();
    let reference = add(&mut types, "reference", AnyType::Reference(TReference::default()));
    let name = add(&mut types, "name", AnyType::Ascii(TAscii::try_new(0, 100, 0, 127).unwrap()));
    let bool_field = add(&mut types, "bool_field", AnyType::Bool(TBool::default()));
    let structure = add(
        &mut types,
        "structure",
        AnyType::Struct(
            TStruct::default()
                .add(Field::new(id("name"), name))
                .add(Field::new(id("reference"), reference)),
        ),
    );
    let structure_master = add(
        &mut types,
        "structure_master",
        AnyType::Struct(
            TStruct::default()
                .add(Field::new(id("name"), name))
                .add(Field::new(id("reference"), reference))
                .add(Field::new(id("i_am_great"), bool_field)),
        ),
    );
    finish(types, AnyType::Anchors(TAnchors::new(structure_master, structure)))
}

/// `{ name, next_ref, i_am_great }`
fn master(name: &str, next_ref: u64, i_am_great: bool) -> Value {
    seq(vec![text(name), Value::UInt(next_ref), Value::Bool(i_am_great)])
}

/// `{ name, next_ref }`
fn anchor(name: &str, next_ref: u64) -> Value {
    seq(vec![text(name), Value::UInt(next_ref)])
}

#[test]
fn container_has_to_have_two_elements() {
    let schema = create_schema1();
    assert_invalid_strict(seq(vec![]), &schema);
}

/// No need to have anchors at all
#[test]
fn master_alone_is_sufficient() {
    let schema = create_schema1();
    // the master references itself
    assert_valid_strict(seq(vec![master("hello master!", 0, true), seq(vec![])]), &schema);
}

#[test]
fn with_one_anchor() {
    let schema = create_schema1();
    assert_valid_strict(
        seq(vec![master("hello master!", 1, true), seq(vec![anchor("frist slave", 0)])]),
        &schema,
    );
}

/// Invalid: the anchor at index 1 is only referenced by itself. Only the master may be
/// unreferenced.
#[test]
fn unused_anchor() {
    let schema = create_schema1();
    assert_invalid_strict(
        seq(vec![master("hello master!", 0, true), seq(vec![anchor("frist slave", 1)])]),
        &schema,
    );
}

#[test]
fn unused_anchor_v2() {
    let schema = create_schema1();
    assert_invalid_strict(
        seq(vec![
            master("hello master!", 1, true),
            seq(vec![anchor("index 1", 2), anchor("index 2", 2), anchor("index 3", 1)]),
        ]),
        &schema,
    );
}

#[test]
fn with_4_anchors() {
    let schema = create_schema1();
    assert_valid_strict(
        seq(vec![
            master("hello master!", 1, true),
            seq(vec![anchor("index 1", 2), anchor("index 2", 3), anchor("index 3", 1)]),
        ]),
        &schema,
    );
}

#[test]
fn wrong_ordering() {
    let schema = create_schema1();
    // index 1 references index 3 (skips index 2)
    assert_invalid_strict(
        seq(vec![
            master("hello master!", 1, true),
            seq(vec![anchor("index 1", 3), anchor("index 2", 2), anchor("index 3", 2)]),
        ]),
        &schema,
    );
}

fn create_complex_schema() -> DefaultSchema {
    let mut types = Vec::new();
    let reference = add(&mut types, "reference", AnyType::Reference(TReference::default()));
    let text_type =
        add(&mut types, "text", AnyType::Ascii(TAscii::try_new(0, 100, 0, 127).unwrap()));
    let children =
        add(&mut types, "children", AnyType::Sequence(TSeq::try_new(reference, 0, 1000).unwrap()));
    let structure = add(
        &mut types,
        "structure",
        AnyType::Struct(
            TStruct::default()
                .add(Field::new(id("text"), text_type))
                .add(Field::new(id("children"), children)),
        ),
    );
    finish(types, AnyType::Anchors(TAnchors::new(structure, structure)))
}

/// `{ text, children }`
fn complex(name: &str, children: &[u64]) -> Value {
    seq(vec![text(name), uints(children)])
}

#[test]
fn can_reference_multiple() {
    let schema = create_complex_schema();
    assert_valid_strict(
        seq(vec![
            complex("hello master!", &[1, 2, 3]),
            seq(vec![complex("index 1", &[]), complex("index 2", &[]), complex("index 3", &[])]),
        ]),
        &schema,
    );
}

#[test]
fn can_reference_multiple_overflow() {
    let schema = create_complex_schema();
    // index 4 does not exist
    assert_invalid_strict(
        seq(vec![
            complex("hello master!", &[1, 2, 3, 4]),
            seq(vec![complex("index 1", &[]), complex("index 2", &[]), complex("index 3", &[])]),
        ]),
        &schema,
    );
}

#[test]
fn unused_item() {
    let schema = create_complex_schema();
    // index 4 is not referenced
    assert_invalid_strict(
        seq(vec![
            complex("hello master!", &[1, 2, 3]),
            seq(vec![
                complex("index 1", &[]),
                complex("index 2", &[]),
                complex("index 3", &[]),
                complex("index 4", &[]),
            ]),
        ]),
        &schema,
    );
}

#[test]
fn five_anchors() {
    let schema = create_complex_schema();
    assert_valid_strict(
        seq(vec![
            complex("hello master!", &[1, 2, 3]),
            seq(vec![
                complex("index 1", &[]),
                complex("index 2", &[]),
                complex("index 3", &[4]),
                // referenced by 3, references 0 again
                complex("index 4", &[0]),
            ]),
        ]),
        &schema,
    );
}

#[test]
fn can_back_reference() {
    let schema = create_complex_schema();
    assert_valid_strict(
        seq(vec![
            complex("hello master!", &[1, 2, 3]),
            seq(vec![
                complex("index 1", &[3, 2, 1]),
                complex("index 2", &[2, 3, 1]),
                complex("index 3", &[4, 1, 3, 2]),
                complex("index 4", &[0, 1, 2, 3, 4]),
            ]),
        ]),
        &schema,
    );
}
