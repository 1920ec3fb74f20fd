# liquesco schema

Schemas for liquesco data, and validation of data against them, verified with Verus.

A schema is a list of types (`DefaultTypeContainer`) plus a root type; types refer to each
other by index (`TypeRef`). Data is given as a `Value` tree: the values that reading liquesco
data yields (sequences, enum ordinals with their values, options, integers, texts, bytes).

Layout of `src/`:

- `validation.rs`: what validating a value against a type, and comparing two values of a
  type, mean (specification).
- `validator.rs`, `compare.rs`: the executable validation and comparison, proved to compute
  exactly what `validation.rs` specifies.
- `schema.rs`: `DefaultSchema`, which validates data against its root type.
- `compare_laws.rs`: comparison is antisymmetric and transitive.
- `validation_laws.rs`: properties proved for every schema and value: valid values are
  comparable and equal to themselves, sorted sequences and map keys of valid data are in
  order, every anchor of valid anchors is referenced, validation is monotonic in the
  configuration and leaves the key reference stack as it found it.
- `schema_builder.rs`: `DefaultSchemaBuilder`, which files types under identifiers and hands
  out the references to them (adding the same type again gives its reference; a different
  type under a filed identifier is refused); `finish` sorts the types by identifier,
  renumbers every reference accordingly, and refuses a reference that points to no type.
  `id_order.rs` holds that order of identifiers, `type_eq.rs` when two types are the same.
- `self_schema.rs`: the schema of schemas. What it files under each identifier is stated by
  a spec function (`seq_schema`, `seq_length_schema`, ...). Each kind of type builds the
  schema of its own properties (`TSeq::build_schema`, ...), `WithMetaSchemaBuilder` puts the
  metadata in front, `AnyType::build_schema` joins the kinds into one enum, and
  `schema_schema` makes the root map from identifiers to types. The test
  `tests/self_schema.rs` writes that schema as data and validates it against itself.
- `schema_anchors.rs`: a schema as further types plus a main type, found by number, and the
  builder that collects them.
- one module per type (`uint.rs`, `seq.rs`, `map.rs`, `anchors.rs`, ...), `identifier.rs`,
  `metadata.rs`, `ine_range.rs`, `context.rs` (validation state), `type_info.rs`,
  `code_receiver.rs`.

`app/` holds what is left outside the verified library: floating point types and code
artifacts read from I/O streams.

Not here at all:

- decimal numbers (`TDecimal`): its number type, with its normalisation and its ordering,
  belongs to a support crate that is not part of this project, and no kind of type refers to
  it;
- `DocType`, a wrapper that names and describes a type: the type it documents with is not
  part of this project; the metadata schema (`Meta::build_schema`) describes the
  documentation types carry;
- the naming of types for generated documentation (`Names`): it names a type by a name in
  its metadata, which the metadata here does not have, or else by a hash of the type;
- the plugin and schema reader interfaces of the processing tools: `DefaultTypeContainer::
  type_info` gives what a reader hands out.
