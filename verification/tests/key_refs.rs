#![allow(dead_code)]

use liquesco_schema::any_type::AnyType;
use liquesco_schema::identifier::Identifier;
use liquesco_schema::key_ref::TKeyRef;
use liquesco_schema::map::TMap;
use liquesco_schema::root_map::TRootMap;
use liquesco_schema::schema::DefaultSchema;
use liquesco_schema::schema_core::{Config, TypeRef};
use liquesco_schema::seq::TSeq;
use liquesco_schema::structure::{Field, TStruct};
use liquesco_schema::type_container::DefaultTypeContainer;
use liquesco_schema::unicode::{LengthType, TUnicode};
use liquesco_schema::value::Value;

fn id(name: &str) -> Identifier {
    Identifier::try_from(name).unwrap()
}

/// Adds a type to the list of types; returns its reference.
fn add(types: &mut Vec<(Identifier, AnyType)>, name: &str, any_type: AnyType) -> TypeRef {
    types.push((id(name), any_type));
    TypeRef((types.len() - 1) as u32)
}

fn finish(types: Vec<(Identifier, AnyType)>, root: AnyType) -> DefaultSchema {
    DefaultSchema::new(DefaultTypeContainer::new(types, root))
}

fn assert_valid_strict(value: Value, schema: &DefaultSchema) {
    schema.validate(Config::strict(), &value).unwrap();
}

fn assert_invalid_strict(value: Value, schema: &DefaultSchema) {
    assert!(schema.validate(Config::strict(), &value).is_err());
}

fn seq(items: Vec<Value>) -> Value {
    Value::Sequence(items)
}

fn text(s: &str) -> Value {
    Value::Unicode(s.to_string())
}

fn uints(items: &[u64]) -> Value {
    Value::Sequence(items.iter().map(|n| Value::UInt(*n)).collect())
}

fn unicode() -> AnyType {
    AnyType::Unicode(TUnicode::try_new(0, 100, LengthType::Utf8Byte).unwrap())
}

/// Adds the value type `{ refs0, refs1 }`: key refs into the innermost map (level 0) and into
/// the map around it (level 1).
fn add_refs_struct(types: &mut Vec<(Identifier, AnyType)>) -> TypeRef {
    let single_ref_level0 = add(types, "ref_level0", AnyType::KeyRef(TKeyRef::default()));
    let refs_level0 = add(
        types,
        "refs_level0",
        AnyType::Sequence(TSeq::try_new(single_ref_level0, 0, 100).unwrap()),
    );
    let single_ref_level1 =
        add(types, "ref_level1", AnyType::KeyRef(TKeyRef::default().with_level(1)));
    let refs_level1 = add(
        types,
        "refs_level1",
        AnyType::Sequence(TSeq::try_new(single_ref_level1, 0, 100).unwrap()),
    );
    add(
        types,
        "struct",
        AnyType::Struct(
            TStruct::default()
                .add(Field::new(id("refs0"), refs_level0))
                .add(Field::new(id("refs1"), refs_level1)),
        ),
    )
}

/// `{ refs0, refs1 }`
fn refs(refs0: &[u64], refs1: &[u64]) -> Value {
    seq(vec![uints(refs0), uints(refs1)])
}

/// A map: its entries `[key, value]`.
fn map(entries: Vec<(Value, Value)>) -> Value {
    seq(entries.into_iter().map(|(k, v)| seq(vec![k, v])).collect())
}

// Keys cannot reference their own map.

fn create_cannot_reference_keys_schema() -> DefaultSchema {
    let mut types = Vec::new();
    let value = add_refs_struct(&mut types);
    let key_entry = add(&mut types, "key_entry", AnyType::KeyRef(TKeyRef::default()));
    let key_inner =
        add(&mut types, "key_inner", AnyType::Sequence(TSeq::try_new(key_entry, 0, 100).unwrap()));
    let key_outer = add(&mut types, "key_outer", unicode());
    let inner_map = add(
        &mut types,
        "inner_map",
        AnyType::Mapping(TMap::new(key_inner, value).with_anchors(true)),
    );
    finish(types, AnyType::Mapping(TMap::new(key_outer, inner_map).with_anchors(true)))
}

#[test]
fn key_refs_cannot_reference_keys_ok_empty() {
    let schema = create_cannot_reference_keys_schema();
    assert_valid_strict(map(vec![]), &schema);
}

#[test]
fn key_refs_cannot_reference_keys_ok1() {
    let schema = create_cannot_reference_keys_schema();
    // The keys of the inner maps reference at level 0, which is the OUTER map.
    let inner_map1 = map(vec![
        (uints(&[]), refs(&[], &[0, 1])),
        (uints(&[0]), refs(&[0, 1, 2], &[])),
        (uints(&[1, 0]), refs(&[2, 1, 0], &[0, 1])),
    ]);
    let inner_map2 = map(vec![(uints(&[1, 0]), refs(&[], &[]))]);
    let outer_map = map(vec![(text("outer1"), inner_map1), (text("outer2"), inner_map2)]);
    assert_valid_strict(outer_map, &schema);
}

#[test]
fn err_ref_out_of_bounds() {
    let schema = create_cannot_reference_keys_schema();
    // The key [1, 0, 2]: 2 would be fine in the inner map, but keys reference the outer map,
    // which has 2 entries.
    let inner_map1 = map(vec![
        (uints(&[]), refs(&[], &[0, 1])),
        (uints(&[0]), refs(&[0, 1, 2], &[])),
        (uints(&[1, 0, 2]), refs(&[2, 1, 0], &[0, 1])),
    ]);
    let inner_map2 = map(vec![(uints(&[1, 0]), refs(&[], &[]))]);
    let outer_map = map(vec![(text("outer1"), inner_map1), (text("outer2"), inner_map2)]);
    assert_invalid_strict(outer_map, &schema);
}

// Key refs into two levels of maps.

fn create_multi_level_schema() -> DefaultSchema {
    let mut types = Vec::new();
    let value = add_refs_struct(&mut types);
    let key = add(&mut types, "key", unicode());
    let inner_map =
        add(&mut types, "inner_map", AnyType::Mapping(TMap::new(key, value).with_anchors(true)));
    finish(types, AnyType::Mapping(TMap::new(key, inner_map).with_anchors(true)))
}

fn multi_level_map(inner1_entry3_refs0: &[u64], inner2_entry3_refs1: &[u64]) -> Value {
    let inner_map1 = map(vec![
        (text("entry1"), refs(&[], &[0, 1])),
        (text("entry2"), refs(&[0, 1, 2], &[])),
        (text("entry3"), refs(inner1_entry3_refs0, &[0, 1])),
    ]);
    let inner_map2 = map(vec![
        (text("entry1"), refs(&[], &[])),
        (text("entry2"), refs(&[], &[1, 0])),
        (text("entry3"), refs(&[0, 1, 2, 3], inner2_entry3_refs1)),
        (text("entry4"), refs(&[3, 1, 2, 0], &[])),
    ]);
    map(vec![(text("outer1"), inner_map1), (text("outer2"), inner_map2)])
}

#[test]
fn key_refs_multi_level_ok_empty() {
    let schema = create_multi_level_schema();
    assert_valid_strict(map(vec![]), &schema);
}

#[test]
fn key_refs_multi_level_ok1() {
    let schema = create_multi_level_schema();
    assert_valid_strict(multi_level_map(&[2, 1, 0], &[]), &schema);
}

#[test]
fn err_outer_map_out_of_bounds() {
    let schema = create_multi_level_schema();
    // level 1 is the outer map, which has 2 entries: index 2 is out of bounds
    assert_invalid_strict(multi_level_map(&[2, 1, 0], &[0, 1, 2]), &schema);
}

#[test]
fn err_inner_map_out_of_bounds() {
    let schema = create_multi_level_schema();
    // the first inner map has 3 entries: index 3 is out of bounds
    assert_invalid_strict(multi_level_map(&[2, 1, 0, 3], &[0, 1]), &schema);
}

// Key refs in a root map.

fn create_root_map_schema() -> DefaultSchema {
    let mut types = Vec::new();
    let key = add(&mut types, "key", unicode());
    let field_text = add(&mut types, "field_text", unicode());
    let single_ref = add(&mut types, "single_ref", AnyType::KeyRef(TKeyRef::default()));
    let field_refs =
        add(&mut types, "field_refs", AnyType::Sequence(TSeq::try_new(single_ref, 0, 100).unwrap()));
    let value = add(
        &mut types,
        "value",
        AnyType::Struct(
            TStruct::default()
                .add(Field::new(id("text"), field_text))
                .add(Field::new(id("refs"), field_refs)),
        ),
    );
    let root = add(
        &mut types,
        "root",
        AnyType::Struct(TStruct::default().add(Field::new(id("refs"), field_refs))),
    );
    finish(types, AnyType::RootMap(TRootMap::new(root, key, value)))
}

/// `{ text, refs }`
fn item(name: &str, references: &[u64]) -> Value {
    seq(vec![text(name), uints(references)])
}

/// A root map `[entries, { refs }]`.
fn root_map(entries: Vec<(&str, Value)>, root_refs: &[u64]) -> Value {
    let entries = entries.into_iter().map(|(k, v)| (text(k), v)).collect();
    seq(vec![map(entries), seq(vec![uints(root_refs)])])
}

#[test]
fn key_refs_root_map_ok_empty() {
    let schema = create_root_map_schema();
    assert_valid_strict(root_map(vec![], &[]), &schema);
}

#[test]
fn ok_no_references() {
    let schema = create_root_map_schema();
    assert_valid_strict(
        root_map(
            vec![("item_a", item("Some text", &[])), ("item_b", item("Some other text", &[]))],
            &[],
        ),
        &schema,
    );
}

#[test]
fn ok_with_references() {
    let schema = create_root_map_schema();
    // the root references everything
    assert_valid_strict(
        root_map(
            vec![
                ("item_a", item("Some text", &[0, 0, 0, 2])),
                ("item_b", item("Some other text", &[2, 2, 2])),
                ("item_c", item("Some other text", &[1])),
            ],
            &[0, 2, 1],
        ),
        &schema,
    );
}

#[test]
fn err_out_of_index() {
    let schema = create_root_map_schema();
    // 3 is out of bounds
    assert_invalid_strict(
        root_map(
            vec![
                ("item_a", item("Some text", &[0, 0, 0, 2])),
                ("item_b", item("Some other text", &[2, 2, 2])),
                ("item_c", item("Some other text", &[1])),
            ],
            &[3],
        ),
        &schema,
    );
}
