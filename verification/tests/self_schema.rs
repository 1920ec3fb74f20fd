// The schema of schemas, written as data, is valid against itself.

use liquesco_schema::any_type::AnyType;
use liquesco_schema::ascii::CodeRange;
use liquesco_schema::enumeration::TEnum;
use liquesco_schema::error::LqError;
use liquesco_schema::identifier::Identifier;
use liquesco_schema::ine_range::{I64IneRange, U32IneRange, U64IneRange};
use liquesco_schema::map::Sorting;
use liquesco_schema::metadata::Meta;
use liquesco_schema::option::TOption;
use liquesco_schema::range::Inclusion;
use liquesco_schema::schema::DefaultSchema;
use liquesco_schema::schema_anchors::{SchemaAnchors, SchemaAnchorsBuilder};
use liquesco_schema::schema_builder::DefaultSchemaBuilder;
use liquesco_schema::schema_core::{Config, TypeRef};
use liquesco_schema::self_schema::schema_schema;
use liquesco_schema::seq::{Direction, SeqOrdering, TSeq};
use liquesco_schema::structure::TStruct;
use liquesco_schema::type_container::DefaultTypeContainer;
use liquesco_schema::uint::TUInt;
use liquesco_schema::value::Value;

fn build_liquesco_type_container() -> DefaultTypeContainer {
    schema_schema(DefaultSchemaBuilder::new()).unwrap()
}

fn segments(id: &Identifier) -> Vec<String> {
    id.segments().iter().map(|s| s.as_str().to_string()).collect()
}

fn seq(items: Vec<Value>) -> Value {
    Value::Sequence(items)
}

fn opt(value: Option<Value>) -> Value {
    match value {
        Some(v) => Value::Present(Box::new(v)),
        None => Value::Absent,
    }
}

/// Writes a type container as data: a root map from identifiers to types (sorted by
/// identifier; references become positions in that order), and the root type.
struct Writer {
    /// For each type (by its reference), its position in the sorted map.
    positions: Vec<u64>,
}

impl Writer {
    fn type_ref(&self, r: TypeRef) -> Value {
        Value::UInt(self.positions[r.0 as usize])
    }

    fn u32_range(&self, r: &U32IneRange) -> Value {
        seq(vec![Value::UInt(r.start() as u64), Value::UInt(r.end() as u64)])
    }

    fn u64_range(&self, r: &U64IneRange) -> Value {
        seq(vec![Value::UInt(r.start()), Value::UInt(r.end())])
    }

    fn i64_range(&self, r: &I64IneRange) -> Value {
        seq(vec![Value::SInt(r.start()), Value::SInt(r.end())])
    }

    fn identifier(&self, id: &Identifier) -> Value {
        seq(segments(id).into_iter().map(Value::Unicode).collect())
    }

    fn meta(&self, meta: &Meta) -> Value {
        let doc = meta.doc().map(|d| Value::Unicode(d.to_string()));
        let implements = if meta.implements().is_empty() {
            None
        } else {
            Some(seq(meta.implements().iter().map(|u| Value::Binary(u.0.to_vec())).collect()))
        };
        seq(vec![opt(doc), opt(implements)])
    }

    fn code_ranges(&self, codes: &CodeRange) -> Value {
        seq(codes
            .ranges()
            .iter()
            .map(|(start, end)| seq(vec![Value::UInt(*start as u64), Value::UInt(*end as u64)]))
            .collect())
    }

    fn variants(&self, e: &TEnum) -> Value {
        seq(e
            .variants()
            .iter()
            .map(|v| {
                let values: Vec<Value> = v.values().iter().map(|r| self.type_ref(*r)).collect();
                let values = if values.is_empty() { None } else { Some(seq(values)) };
                seq(vec![self.identifier(v.name()), opt(values)])
            })
            .collect())
    }

    fn fields(&self, s: &TStruct) -> Value {
        seq(s
            .fields()
            .iter()
            .map(|f| seq(vec![self.identifier(f.name()), self.type_ref(*f.type_ref())]))
            .collect())
    }

    fn sorting(&self, sorting: Sorting) -> Value {
        match sorting {
            Sorting::Ascending => Value::Enum(0, vec![]),
            Sorting::Descending => Value::Enum(1, vec![]),
        }
    }

    fn any_type(&self, t: &AnyType) -> Value {
        let mut fields = vec![self.meta(t.meta())];
        let ordinal: u32 = match t {
            AnyType::Bool(_) => 0,
            AnyType::Option(o) => {
                fields.push(self.type_ref(*o.type_ref()));
                1
            }
            AnyType::Sequence(s) => {
                fields.push(self.type_ref(s.element));
                fields.push(self.u32_range(&s.length));
                fields.push(match s.ordering {
                    SeqOrdering::Unordered => Value::Enum(0, vec![]),
                    SeqOrdering::Sorted(sorted) => {
                        let direction = match sorted.direction {
                            Direction::Ascending => Value::Enum(0, vec![]),
                            Direction::Descending => Value::Enum(1, vec![]),
                        };
                        Value::Enum(1, vec![seq(vec![direction, Value::Bool(sorted.unique)])])
                    }
                });
                fields.push(opt(s.multiple_of.map(|m| Value::UInt(m as u64))));
                2
            }
            AnyType::Binary(b) => {
                fields.push(self.u64_range(b.length()));
                3
            }
            AnyType::UInt(u) => {
                fields.push(self.u64_range(u.range()));
                4
            }
            AnyType::SInt(s) => {
                fields.push(self.i64_range(s.range()));
                5
            }
            AnyType::Enum(e) => {
                fields.push(self.variants(e));
                6
            }
            AnyType::Struct(s) => {
                fields.push(self.fields(s));
                7
            }
            AnyType::Mapping(m) => {
                fields.push(self.type_ref(*m.key()));
                fields.push(self.type_ref(*m.value()));
                fields.push(self.u32_range(m.length()));
                fields.push(self.sorting(m.sorting()));
                fields.push(Value::Bool(m.anchors()));
                8
            }
            AnyType::RootMap(m) => {
                fields.push(self.type_ref(m.root()));
                fields.push(self.type_ref(m.key()));
                fields.push(self.type_ref(m.value()));
                fields.push(self.u32_range(m.length()));
                fields.push(self.sorting(m.sorting()));
                9
            }
            AnyType::KeyRef(k) => {
                fields.push(Value::UInt(k.level() as u64));
                10
            }
            AnyType::Uuid(_) => 11,
            AnyType::Range(r) => {
                fields.push(self.type_ref(r.element()));
                let inclusion: u32 = match r.inclusion() {
                    Inclusion::BothInclusive => 0,
                    Inclusion::StartInclusive => 1,
                    Inclusion::BothExclusive => 2,
                    Inclusion::EndInclusive => 3,
                    Inclusion::Supplied => 4,
                };
                fields.push(Value::Enum(inclusion, vec![]));
                fields.push(Value::Bool(r.allow_equal()));
                12
            }
            AnyType::Anchors(a) => {
                fields.push(self.type_ref(a.master()));
                fields.push(self.type_ref(a.anchor()));
                fields.push(opt(a.max_anchors().map(|m| Value::UInt(m as u64))));
                13
            }
            AnyType::Reference(_) => 14,
            AnyType::Ascii(a) => {
                fields.push(self.u64_range(&a.length));
                fields.push(self.code_ranges(&a.codes));
                15
            }
            AnyType::Unicode(u) => {
                fields.push(self.u64_range(&u.length));
                fields.push(Value::Enum(0, vec![]));
                16
            }
        };
        Value::Enum(ordinal, vec![seq(fields)])
    }
}

/// The type container written as data, as the schema of schemas describes it.
fn to_value(container: &DefaultTypeContainer) -> Value {
    let n = container.len();
    let mut order: Vec<(Vec<String>, usize)> = (0..n)
        .map(|i| (segments(container.identifier(TypeRef(i as u32)).unwrap()), i))
        .collect();
    order.sort();
    let mut positions = vec![0u64; n];
    for (position, (_, index)) in order.iter().enumerate() {
        positions[*index] = position as u64;
    }
    let writer = Writer { positions };
    let entries = order
        .iter()
        .map(|(_, index)| {
            let reference = TypeRef(*index as u32);
            let id = container.identifier(reference).unwrap();
            let t = container.maybe_type(reference).unwrap();
            seq(vec![writer.identifier(id), writer.any_type(t)])
        })
        .collect();
    seq(vec![seq(entries), writer.any_type(container.root())])
}

#[test]
fn test_self_schema_is_valid() {
    let type_container = build_liquesco_type_container();
    let value = to_value(&type_container);

    // Now validate using itself
    let mut schema = DefaultSchema::new(build_liquesco_type_container());
    schema.set_extended_diagnostics(true);
    schema
        .validate(Config { no_extension: true, weak_reference_validation: true }, &value)
        .expect("The schema itself is not valid");
}

#[test]
fn self_schema_is_valid_with_strict_references() {
    let value = to_value(&build_liquesco_type_container());
    let schema = DefaultSchema::new(build_liquesco_type_container());
    schema.validate(Config::strict(), &value).expect("The schema itself is not valid");
}

#[test]
fn self_schema_identifiers_are_unique_and_root_is_a_root_map() {
    let container = build_liquesco_type_container();
    let mut ids: Vec<Vec<String>> = (0..container.len())
        .map(|i| segments(container.identifier(TypeRef(i as u32)).unwrap()))
        .collect();
    let n = ids.len();
    ids.sort();
    ids.dedup();
    assert_eq!(ids.len(), n);
    assert!(matches!(container.root(), AnyType::RootMap(_)));
    assert!(ids.contains(&vec!["any".to_string(), "type".to_string()]));
    assert!(ids.contains(&vec!["identifier".to_string()]));
}

#[test]
fn a_broken_schema_value_is_refused() {
    let container = build_liquesco_type_container();
    let value = to_value(&container);
    // Drop the root type: the root map then has one element only.
    let broken = match value {
        Value::Sequence(mut items) => {
            items.pop();
            Value::Sequence(items)
        }
        other => other,
    };
    let schema = DefaultSchema::new(build_liquesco_type_container());
    assert!(schema.validate(Config::strict(), &broken).is_err());
}

#[test]
fn schema_builder_accepts_the_same_type_again_and_refuses_a_different_one() {
    let mut builder = DefaultSchemaBuilder::new();
    let first = builder.add(Identifier::try_from("flag").unwrap(), AnyType::Bool(Default::default()));
    let second = builder.add(
        Identifier::try_from("other").unwrap(),
        AnyType::UInt(TUInt::try_new(1, 5).unwrap()),
    );
    assert_eq!(first, Ok(TypeRef(0)));
    assert_eq!(second, Ok(TypeRef(1)));
    // The same type under the same identifier: its reference, nothing added.
    let again = builder.add(Identifier::try_from("flag").unwrap(), AnyType::Bool(Default::default()));
    assert_eq!(again, Ok(TypeRef(0)));
    assert_eq!(builder.len(), 2);
    // A different type under a filed identifier: refused, nothing added.
    let different = builder.add(
        Identifier::try_from("other").unwrap(),
        AnyType::UInt(TUInt::try_new(1, 6).unwrap()),
    );
    assert_eq!(different, Err(LqError::DuplicateIdentifier));
    assert_eq!(builder.len(), 2);
    assert!(builder.finish(AnyType::Bool(Default::default())).is_ok());
}

#[test]
fn schema_builder_sorts_by_identifier_and_renumbers_references() {
    let mut builder = DefaultSchemaBuilder::new();
    // "zeta" refers to "alpha" by the reference `add` returned for it.
    builder
        .add(Identifier::try_from("zeta").unwrap(), AnyType::Option(TOption::new(TypeRef(1))))
        .unwrap();
    let alpha = builder.add(Identifier::try_from("alpha").unwrap(), AnyType::Bool(Default::default()));
    assert_eq!(alpha, Ok(TypeRef(1)));
    let root = AnyType::Option(TOption::new(TypeRef(0)));
    let container = builder.finish(root).unwrap();
    assert_eq!(container.len(), 2);
    assert_eq!(segments(container.identifier(TypeRef(0)).unwrap()), vec!["alpha".to_string()]);
    assert_eq!(segments(container.identifier(TypeRef(1)).unwrap()), vec!["zeta".to_string()]);
    assert!(matches!(container.maybe_type(TypeRef(0)), Some(AnyType::Bool(_))));
    match container.maybe_type(TypeRef(1)) {
        Some(AnyType::Option(o)) => assert_eq!(*o.type_ref(), TypeRef(0)),
        _ => panic!("zeta is an option"),
    }
    match container.root() {
        AnyType::Option(o) => assert_eq!(*o.type_ref(), TypeRef(1)),
        _ => panic!("the root is an option"),
    }
}

#[test]
fn schema_builder_refuses_a_reference_to_no_type() {
    let mut builder = DefaultSchemaBuilder::new();
    builder
        .add(Identifier::try_from("dangling").unwrap(), AnyType::Option(TOption::new(TypeRef(5))))
        .unwrap();
    assert_eq!(
        builder.finish(AnyType::Bool(Default::default())).err(),
        Some(LqError::TypeNotFound)
    );
}

#[test]
fn schema_anchors_need_a_main_type() {
    assert_eq!(SchemaAnchors::try_from(SchemaAnchorsBuilder::default()).err(), Some(LqError::NoMainType));
}

#[test]
fn schema_anchors_find_every_added_type_by_its_reference() {
    let mut builder = SchemaAnchorsBuilder::default();
    let further = builder.add(AnyType::UInt(TUInt::try_new(1, 9).unwrap()));
    let again = builder.add(AnyType::UInt(TUInt::try_new(1, 9).unwrap()));
    let main = builder.add(AnyType::Bool(Default::default()));
    assert_eq!(further, TypeRef(0));
    assert_eq!(again, TypeRef(0));
    assert_eq!(main, TypeRef(1));
    let anchors = SchemaAnchors::try_from(builder).unwrap();
    assert_eq!(anchors.main_type(), main);
    assert!(matches!(anchors.maybe_type(further), Some(AnyType::UInt(_))));
    assert!(matches!(anchors.maybe_type(anchors.main_type()), Some(AnyType::Bool(_))));
    assert!(anchors.maybe_type(TypeRef(2)).is_none());
}

#[test]
fn sequence_schema_fields_and_types() {
    let mut builder = DefaultSchemaBuilder::new();
    let s = TSeq::build_schema(&mut builder);
    let names: Vec<Vec<String>> = s.fields().iter().map(|f| segments(f.name())).collect();
    assert_eq!(
        names,
        vec![
            vec!["element".to_string()],
            vec!["length".to_string()],
            vec!["ordering".to_string()],
            vec!["multiple".to_string(), "of".to_string()],
        ]
    );
    let container = builder.finish(AnyType::Struct(s)).unwrap();
    let root_fields = match container.root() {
        AnyType::Struct(s) => s.fields().to_vec(),
        _ => panic!("the root is a structure"),
    };
    // multiple_of: an option of an unsigned integer within [2, u32::MAX]
    match container.maybe_type(*root_fields[3].type_ref()) {
        Some(AnyType::Option(o)) => match container.maybe_type(*o.type_ref()) {
            Some(AnyType::UInt(u)) => {
                assert_eq!(u.range.start(), 2);
                assert_eq!(u.range.end(), u32::MAX as u64);
            }
            _ => panic!("multiple_of is an unsigned integer"),
        },
        _ => panic!("the field is an option"),
    }
    // length: a range of unsigned 32 bit integers, both ends included
    match container.maybe_type(*root_fields[1].type_ref()) {
        Some(AnyType::Range(r)) => {
            assert_eq!(r.inclusion, Inclusion::BothInclusive);
            match container.maybe_type(r.element) {
                Some(AnyType::UInt(u)) => {
                    assert_eq!(u.range.start(), 0);
                    assert_eq!(u.range.end(), u32::MAX as u64);
                }
                _ => panic!("the length element is an unsigned integer"),
            }
        }
        _ => panic!("the length is a range"),
    }
}
