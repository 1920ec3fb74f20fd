#![allow(dead_code)]

use liquesco_schema::any_type::AnyType;
use liquesco_schema::code_receiver::{Code, CodeReceiver, DefaultCodeReceiver, Path};
use liquesco_schema::context::ValidationState;
use liquesco_schema::identifier::{Format, Identifier};
use liquesco_schema::map::TMap;
use liquesco_schema::metadata::{Meta, MetadataSetter, WithMetadata};
use liquesco_schema::option::TOption;
use liquesco_schema::schema::DefaultSchema;
use liquesco_schema::schema_core::{Cmp, Config, TypeRef};
use liquesco_schema::seq::{Direction, SeqOrdering, Sorted, TSeq};
use liquesco_schema::structure::{Field, TStruct};
use liquesco_schema::key_ref::TKeyRef;
use liquesco_schema::type_container::DefaultTypeContainer;
use liquesco_schema::uint::TUInt;
use liquesco_schema::unicode::{LengthType, TUnicode};
use liquesco_schema::value::Value;

fn id(name: &str) -> Identifier {
    Identifier::try_from(name).unwrap()
}

/// Adds a type to the list of types; returns its reference.
fn add(types: &mut Vec<(Identifier, AnyType)>, name: &str, any_type: AnyType) -> TypeRef {
    types.push((id(name), any_type));
    TypeRef((types.len() - 1) as u32)
}

fn finish(types: Vec<(Identifier, AnyType)>, root: AnyType) -> DefaultSchema {
    DefaultSchema::new(DefaultTypeContainer::new(types, root))
}

fn assert_valid_strict(value: Value, schema: &DefaultSchema) {
    schema.validate(Config::strict(), &value).unwrap();
}

fn assert_invalid_strict(value: Value, schema: &DefaultSchema) {
    assert!(schema.validate(Config::strict(), &value).is_err());
}

fn seq(items: Vec<Value>) -> Value {
    Value::Sequence(items)
}

fn text(s: &str) -> Value {
    Value::Unicode(s.to_string())
}

fn uints(items: &[u64]) -> Value {
    Value::Sequence(items.iter().map(|n| Value::UInt(*n)).collect())
}

/// Types: 0 a number, 1 an optional number, 2 a pair of numbers, 3 a text.
fn container() -> DefaultTypeContainer {
    let types = vec![
        (id("number"), AnyType::UInt(TUInt::try_new(0, 1000).unwrap())),
        (id("maybe_number"), AnyType::Option(TOption::new(TypeRef(0)))),
        (
            id("pair"),
            AnyType::Struct(
                TStruct::default()
                    .add(Field::new(id("a"), TypeRef(0)))
                    .add(Field::new(id("b"), TypeRef(0))),
            ),
        ),
        (id("text"), AnyType::Unicode(TUnicode::try_new(0, 100, LengthType::Utf8Byte).unwrap())),
    ];
    DefaultTypeContainer::new(types, AnyType::UInt(TUInt::try_new(0, 1000).unwrap()))
}

#[test]
fn law_compare_swapped_reverses() {
    let c = container();
    assert_eq!(c.compare(TypeRef(0), &Value::UInt(3), &Value::UInt(7)), Ok(Cmp::Less));
    assert_eq!(c.compare(TypeRef(0), &Value::UInt(7), &Value::UInt(3)), Ok(Cmp::Greater));

    let absent = Value::Absent;
    let present = Value::Present(Box::new(Value::UInt(0)));
    assert_eq!(c.compare(TypeRef(1), &absent, &present), Ok(Cmp::Less));
    assert_eq!(c.compare(TypeRef(1), &present, &absent), Ok(Cmp::Greater));

    let p1 = uints(&[1, 9]);
    let p2 = uints(&[2, 0]);
    assert_eq!(c.compare(TypeRef(2), &p1, &p2), Ok(Cmp::Less));
    assert_eq!(c.compare(TypeRef(2), &p2, &p1), Ok(Cmp::Greater));

    assert_eq!(c.compare(TypeRef(3), &text("ab"), &text("b")), Ok(Cmp::Less));
    assert_eq!(c.compare(TypeRef(3), &text("b"), &text("ab")), Ok(Cmp::Greater));

    // values that cannot be compared fail the same way either way round
    assert_eq!(c.compare(TypeRef(2), &p1, &Value::UInt(1)), c.compare(TypeRef(2), &Value::UInt(1), &p1));
    assert!(c.compare(TypeRef(2), &p1, &Value::UInt(1)).is_err());
    assert_eq!(c.compare(TypeRef(9), &p1, &p2), c.compare(TypeRef(9), &p2, &p1));
}

#[test]
fn law_valid_value_equals_itself() {
    let c = container();
    let values = vec![
        (TypeRef(0), Value::UInt(5)),
        (TypeRef(1), Value::Present(Box::new(Value::UInt(5)))),
        (TypeRef(1), Value::Absent),
        (TypeRef(2), uints(&[4, 2])),
        (TypeRef(3), text("hello")),
    ];
    for (r, v) in values.iter() {
        let mut state = ValidationState::new();
        assert_eq!(c.validate(Config::strict(), *r, v, &mut state), Ok(()));
        assert_eq!(c.compare(*r, v, v), Ok(Cmp::Equal));
    }
}

#[test]
fn law_validation_keeps_key_refs() {
    // a map whose keys can be referenced; its values reference them
    let types = vec![
        (id("key"), AnyType::UInt(TUInt::try_new(0, 100).unwrap())),
        (id("key_ref"), AnyType::KeyRef(TKeyRef::default())),
        (id("the_map"), AnyType::Mapping(TMap::new(TypeRef(0), TypeRef(1)).with_anchors(true))),
    ];
    let c = DefaultTypeContainer::new(types, AnyType::Mapping(TMap::new(TypeRef(0), TypeRef(2))));
    let inner = seq(vec![uints(&[1, 1]), uints(&[2, 0])]);
    let value = seq(vec![seq(vec![Value::UInt(7), inner])]);
    let mut state = ValidationState::new();
    assert_eq!(c.validate_type(Config::strict(), c.root(), &value, &mut state), Ok(()));
    assert_eq!(state.key_refs.len(), 0);
    assert_eq!(state.anchor_index, None);
}

#[test]
fn law_strict_valid_is_lenient_valid() {
    let c = container();
    let schema = DefaultSchema::new(c);
    let weak = Config { no_extension: false, weak_reference_validation: true };
    for v in [Value::UInt(0), Value::UInt(1000)] {
        assert_eq!(schema.validate(Config::strict(), &v), Ok(()));
        assert_eq!(schema.validate(Config::new(), &v), Ok(()));
        assert_eq!(schema.validate(weak, &v), Ok(()));
    }
    // the converse does not hold: an extended structure is only valid leniently
    let types = vec![(id("number"), AnyType::UInt(TUInt::try_new(0, 10).unwrap()))];
    let root = AnyType::Struct(TStruct::default().add(Field::new(id("a"), TypeRef(0))));
    let schema = finish(types, root);
    assert!(schema.validate(Config::strict(), &uints(&[1, 2])).is_err());
    assert_eq!(schema.validate(Config::new(), &uints(&[1, 2])), Ok(()));
}

#[test]
fn law_valid_sorted_sequence_in_order() {
    let mut seq_type = TSeq::try_new(TypeRef(0), 0, 100).unwrap();
    seq_type.ordering = SeqOrdering::Sorted(Sorted { direction: Direction::Descending, unique: true });
    let c = container();
    let items = vec![Value::UInt(9), Value::UInt(5), Value::UInt(2), Value::UInt(0)];
    let value = Value::Sequence(items);
    let mut state = ValidationState::new();
    assert_eq!(c.validate_type(Config::strict(), &AnyType::Sequence(seq_type), &value, &mut state), Ok(()));
    if let Value::Sequence(items) = &value {
        for j in 1..items.len() {
            assert_eq!(c.compare(TypeRef(0), &items[j - 1], &items[j]), Ok(Cmp::Greater));
        }
    }
}

#[test]
fn law_valid_map_keys_in_order() {
    let c = container();
    let map_type = AnyType::Mapping(TMap::new(TypeRef(3), TypeRef(0)));
    let keys = ["alpha", "beta", "gamma"];
    let entries: Vec<Value> = keys.iter().map(|k| seq(vec![text(k), Value::UInt(1)])).collect();
    let mut state = ValidationState::new();
    assert_eq!(c.validate_type(Config::strict(), &map_type, &seq(entries), &mut state), Ok(()));
    for j in 1..keys.len() {
        assert_eq!(c.compare(TypeRef(3), &text(keys[j]), &text(keys[j - 1])), Ok(Cmp::Greater));
    }
}

#[test]
fn law_take_returns_added() {
    let mut receiver = DefaultCodeReceiver::default();
    let path = |p: &str| Path::new(p.to_string());
    receiver.add(path("a.rs"), Code::String("first".to_string()));
    receiver.add(path("b.rs"), Code::String("other".to_string()));
    receiver.add(path("a.rs"), Code::String("second".to_string()));

    assert_eq!(receiver.take_string(&path("a.rs")), Ok(Some("second".to_string())));
    // taken: it is gone
    assert_eq!(receiver.take_string(&path("a.rs")), Ok(None));
    // other paths are kept
    assert_eq!(receiver.take_string(&path("b.rs")), Ok(Some("other".to_string())));
    assert_eq!(receiver.take_string(&path("c.rs")), Ok(None));
}

#[test]
fn law_identifier_round_trip() {
    for text in ["hello", "hello_world", "a1_b2_c3", "x_y_z_w"] {
        let identifier = Identifier::try_from(text).unwrap();
        assert_eq!(identifier.to_string(Format::SnakeCase), text.to_string());
        assert_eq!(identifier.segments().len(), text.split('_').count());
    }
}

#[test]
fn law_set_reference_then_reference() {
    let mut map_type = AnyType::Mapping(TMap::new(TypeRef(0), TypeRef(1)));
    assert_eq!(map_type.reference(0), Some(TypeRef(0)));
    assert_eq!(map_type.reference(1), Some(TypeRef(1)));
    assert_eq!(map_type.reference(2), None);
    assert_eq!(map_type.set_reference(1, TypeRef(7)), Ok(()));
    assert_eq!(map_type.reference(1), Some(TypeRef(7)));
    assert_eq!(map_type.reference(0), Some(TypeRef(0)));
}

#[test]
fn law_compare_transitive() {
    let c = container();
    let pairs = [uints(&[1, 5]), uints(&[1, 7]), uints(&[2, 0])];
    assert_eq!(c.compare(TypeRef(2), &pairs[0], &pairs[1]), Ok(Cmp::Less));
    assert_eq!(c.compare(TypeRef(2), &pairs[1], &pairs[2]), Ok(Cmp::Less));
    assert_eq!(c.compare(TypeRef(2), &pairs[0], &pairs[2]), Ok(Cmp::Less));
    // equal values compare the same with a third one
    let same = uints(&[1, 5]);
    assert_eq!(c.compare(TypeRef(2), &same, &pairs[0]), Ok(Cmp::Equal));
    assert_eq!(c.compare(TypeRef(2), &same, &pairs[2]), c.compare(TypeRef(2), &pairs[0], &pairs[2]));
}

#[test]
fn law_valid_values_comparable() {
    let c = container();
    let values = [text(""), text("a"), text("zz"), text("ab")];
    for a in values.iter() {
        for b in values.iter() {
            let mut state = ValidationState::new();
            assert_eq!(c.validate(Config::strict(), TypeRef(3), a, &mut state), Ok(()));
            assert!(c.compare(TypeRef(3), a, b).is_ok());
        }
    }
    // an invalid value (not a text) cannot be compared
    assert!(c.compare(TypeRef(3), &values[0], &Value::UInt(1)).is_err());
}

#[test]
fn law_meta_lens() {
    let mut meta = Meta::empty();
    meta.set_doc("a number".to_string());
    let t = TUInt::try_new(1, 2).unwrap().with_meta(meta.clone());
    assert_eq!(t.meta(), &meta);
    assert_eq!(t.range, TUInt::try_new(1, 2).unwrap().range);
    let t = t.with_doc("another".to_string());
    assert_eq!(t.meta().doc(), Some("another"));
    let mut t2 = t.clone();
    t2.set_meta(Meta::empty());
    assert_eq!(t2.meta(), &Meta::empty());
    assert_eq!(t2.range, t.range);
}

#[test]
fn law_extension_keeps_valid_and_equal() {
    let c = container();
    let pair = uints(&[4, 2]);
    let extended = seq(vec![Value::UInt(4), Value::UInt(2), text("a later field"), Value::Bool(true)]);
    let mut state = ValidationState::new();
    assert_eq!(c.validate(Config::new(), TypeRef(2), &pair, &mut state), Ok(()));
    let mut state = ValidationState::new();
    assert_eq!(c.validate(Config::new(), TypeRef(2), &extended, &mut state), Ok(()));
    // not with extensions forbidden
    let mut state = ValidationState::new();
    assert!(c.validate(Config::strict(), TypeRef(2), &extended, &mut state).is_err());
    // the appended values are not compared
    assert_eq!(c.compare(TypeRef(2), &pair, &extended), Ok(Cmp::Equal));
    assert_eq!(c.compare(TypeRef(2), &extended, &uints(&[4, 3])), c.compare(TypeRef(2), &pair, &uints(&[4, 3])));
}
