use liquesco_schema::any_type::AnyType;
use liquesco_schema::boolean::TBool;
use liquesco_schema::error::LqError;
use liquesco_schema::identifier::{Format, Identifier, Segment};
use liquesco_schema::schema_core::{Cmp, TypeRef};
use liquesco_schema::type_container::DefaultTypeContainer;
use liquesco_schema::uint::TUInt;
use liquesco_schema::value::Value;

fn texts(items: &[&str]) -> Value {
    Value::Sequence(items.iter().map(|s| Value::Unicode(s.to_string())).collect())
}

#[test]
fn identifier_data_round_trip() {
    let id = Identifier::try_from("hello_world_2").unwrap();
    let data = id.serialize();
    assert_eq!(data, texts(&["hello", "world", "2"]));
    let read = Identifier::de_serialize(&data).unwrap();
    assert!(read.is_equal(&id));
    assert_eq!(read.to_string(Format::SnakeCase), "hello_world_2".to_string());
}

#[test]
fn identifier_data_errors() {
    assert_eq!(Identifier::de_serialize(&texts(&[])).err(), Some(LqError::TooFewSegments));
    let thirteen = ["a"; 13];
    assert_eq!(Identifier::de_serialize(&texts(&thirteen)).err(), Some(LqError::TooManySegments));
    let twelve = ["a"; 12];
    assert!(Identifier::de_serialize(&texts(&twelve)).is_ok());
    assert_eq!(Identifier::de_serialize(&texts(&["ok", "No"])).err(), Some(LqError::SegmentInvalidChar));
    assert_eq!(Identifier::de_serialize(&texts(&["ok", ""])).err(), Some(LqError::SegmentTooShort));
    let mixed = Value::Sequence(vec![Value::Unicode("ok".to_string()), Value::UInt(1)]);
    assert_eq!(Identifier::de_serialize(&mixed).err(), Some(LqError::UnexpectedValue));
    assert_eq!(Identifier::de_serialize(&Value::UInt(1)).err(), Some(LqError::UnexpectedValue));
}

#[test]
fn type_info_of_types() {
    let types = vec![
        (Identifier::try_from("flag").unwrap(), AnyType::Bool(TBool::default())),
        (Identifier::try_from("the_number").unwrap(), AnyType::UInt(TUInt::try_new(1, 2).unwrap())),
    ];
    let container = DefaultTypeContainer::new(types, AnyType::Bool(TBool::default()));
    let info = container.type_info(TypeRef(1)).unwrap();
    assert_eq!(info.reference(), TypeRef(1));
    assert_eq!(info.identifier().to_string(Format::SnakeCase), "the_number".to_string());
    assert_eq!(info.any_type(), &AnyType::UInt(TUInt::try_new(1, 2).unwrap()));
    assert!(container.type_info(TypeRef(2)).is_err());
    assert_eq!(container.identifier(TypeRef(0)).unwrap().to_string(Format::SnakeCase), "flag".to_string());
}

#[test]
fn appended_identifier_data_round_trip() {
    let mut id = Identifier::try_from("alpha").unwrap();
    id.append(Segment::try_from("beta2").unwrap()).unwrap();
    let copy = id.clone();
    let read = Identifier::de_serialize(&copy.serialize()).unwrap();
    assert_eq!(read, id);
    assert_eq!(read.segments().len(), 2);
    assert_eq!(read.segments()[1].as_str(), "beta2");
}

#[test]
fn identifiers_order_segment_by_segment() {
    let id = |s: &str| Identifier::try_from(s).unwrap();
    assert_eq!(id("alpha_b").compare(&id("alpha_c")), Cmp::Less);
    assert_eq!(id("alpha").compare(&id("alpha_b")), Cmp::Less);
    assert_eq!(id("beta").compare(&id("alpha_zzz")), Cmp::Greater);
    assert_eq!(id("ab_c").compare(&id("abc")), Cmp::Less);
    assert_eq!(id("x_y").compare(&id("x_y")), Cmp::Equal);
}
