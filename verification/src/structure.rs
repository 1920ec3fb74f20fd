use vstd::prelude::*;
use crate::error::LqError;
use crate::identifier::Identifier;
use crate::metadata::{Meta, MetadataSetter, WithMetadata};
use crate::schema_core::TypeRef;

verus! {

/// A structure consists of 0-n fields.
#[derive(Clone, Debug, PartialEq, Eq, Hash)]
pub struct TStruct {
    meta: Meta,
    fields: Vec<Field>,
}

/// A single field in a structure.
#[derive(Clone, Debug, PartialEq, Eq, Hash)]
pub struct Field {
    name: Identifier,
    type_ref: TypeRef,
}

/// The type references of the given fields, in order.
pub open spec fn field_refs(fields: Seq<Field>) -> Seq<TypeRef> {
    Seq::new(fields.len(), |i: int| fields[i].spec_type_ref())
}

impl Field {
    pub closed spec fn spec_name(&self) -> Identifier {
        self.name
    }

    pub closed spec fn spec_type_ref(&self) -> TypeRef {
        self.type_ref
    }

    pub fn new(name: Identifier, type_ref: TypeRef) -> (r: Field)
        ensures
            r.spec_name() == name,
            r.spec_type_ref() == type_ref,
    {
        Field { name, type_ref }
    }

    /// The name of the field.
    pub fn name(&self) -> (r: &Identifier)
        ensures
            *r == self.spec_name(),
    {
        &self.name
    }

    /// The type of the field value.
    pub fn type_ref(&self) -> (r: &TypeRef)
        ensures
            *r == self.spec_type_ref(),
    {
        &self.type_ref
    }
}

impl Default for TStruct {
    fn default() -> (r: TStruct)
        ensures
            r.spec_fields() == Seq::<Field>::empty(),
            r.spec_meta().doc is None,
            r.spec_meta().implements is None,
    {
        TStruct { meta: Meta::empty(), fields: Vec::new() }
    }
}

impl TStruct {
    pub closed spec fn spec_fields(&self) -> Seq<Field> {
        self.fields@
    }

    /// This structure with the given field appended.
    pub fn add(self, field: Field) -> (r: TStruct)
        ensures
            r.spec_fields() == self.spec_fields().push(field),
            r.spec_meta() == self.spec_meta(),
    {
        let mut result = self;
        result.fields.push(field);
        result
    }

    /// Inserts the given field as the first field.
    pub fn prepend(&mut self, field: Field)
        ensures
            final(self).spec_fields() == seq![field] + old(self).spec_fields(),
            final(self).spec_meta() == old(self).spec_meta(),
    {
        self.fields.insert(0, field);
        assert(self.fields@ =~= seq![field] + old(self).fields@);
    }

    /// The fields of this structure.
    pub fn fields(&self) -> (r: &[Field])
        ensures
            r@ == self.spec_fields(),
    {
        self.fields.as_slice()
    }

    /// The types of the fields, in order.
    pub fn field_type_refs(&self) -> (r: Vec<TypeRef>)
        ensures
            r@ == field_refs(self.spec_fields()),
    {
        let mut result: Vec<TypeRef> = Vec::new();
        let mut i: usize = 0;
        while i < self.fields.len()
            invariant
                0 <= i <= self.fields@.len(),
                result@.len() == i,
                forall|j: int| 0 <= j < i ==> result@[j] == #[trigger] self.fields@[j].spec_type_ref(),
            decreases self.fields@.len() - i,
        {
            result.push(self.fields[i].type_ref);
            i += 1;
        }
        assert(result@ =~= field_refs(self.spec_fields()));
        result
    }

    /// The embedded type references: the types of the fields.
    pub open spec fn spec_refs(&self) -> Seq<TypeRef> {
        field_refs(self.spec_fields())
    }

    /// The embedded reference at `index` (`None` past the last one).
    pub fn reference(&self, index: usize) -> (r: Option<TypeRef>)
        ensures
            index < self.spec_refs().len() ==> r == Some(self.spec_refs()[index as int]),
            index >= self.spec_refs().len() ==> r is None,
    {
        if index >= self.fields.len() {
            None
        } else {
            Some(self.fields[index].type_ref)
        }
    }

    /// Replaces the embedded reference at `index` (the type of field `index`).
    pub fn set_reference(&mut self, index: usize, type_ref: TypeRef) -> (r: Result<(), LqError>)
        ensures
            final(self).spec_meta() == old(self).spec_meta(),
            final(self).spec_fields().len() == old(self).spec_fields().len(),
            forall|i: int|
                0 <= i < old(self).spec_fields().len() ==> #[trigger] final(self).spec_fields()[i].spec_name() == old(self).spec_fields()[i].spec_name(),
            index < old(self).spec_refs().len() ==> (r is Ok && final(self).spec_refs()
                == old(self).spec_refs().update(index as int, type_ref)),
            index >= old(self).spec_refs().len() ==> (r == Err::<(), LqError>(
                LqError::NoSuchReference,
            ) && *final(self) == *old(self)),
    {
        if index >= self.fields.len() {
            Err(LqError::NoSuchReference)
        } else {
            let field = self.fields.remove(index);
            self.fields.insert(index, Field { name: field.name, type_ref });
            assert(self.spec_refs() =~= old(self).spec_refs().update(index as int, type_ref));
            Ok(())
        }
    }
}

impl WithMetadata for TStruct {
    closed spec fn spec_meta(&self) -> Meta {
        self.meta
    }

    closed spec fn spec_with_meta(self, meta: Meta) -> Self {
        TStruct { meta, ..self }
    }

    fn meta(&self) -> (r: &Meta) {
        &self.meta
    }

    proof fn lemma_meta_lens(self, m1: Meta, m2: Meta) {
    }
}

impl MetadataSetter for TStruct {
    fn set_meta(&mut self, meta: Meta) {
        self.meta = meta;
    }

    fn with_meta(self, meta: Meta) -> (r: Self) {
        let mut result = self;
        result.meta = meta;
        result
    }

    fn with_doc(self, doc: String) -> (r: Self) {
        let mut result = self;
        result.meta = Meta { doc: Some(doc), implements: result.meta.implements };
        result
    }
}

} // verus!
