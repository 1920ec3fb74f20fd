//! A type of a schema together with its reference and its identifier.
use vstd::prelude::*;
use crate::any_type::AnyType;
use crate::error::LqError;
use crate::identifier::Identifier;
use crate::schema_core::TypeRef;
use crate::type_container::DefaultTypeContainer;

verus! {

/// A type of a schema, the reference to it and its identifier.
pub struct TypeInfo<'a> {
    any_type: &'a AnyType,
    reference: TypeRef,
    id: &'a Identifier,
}

impl<'a> TypeInfo<'a> {
    pub closed spec fn spec_any_type(&self) -> AnyType {
        *self.any_type
    }

    pub closed spec fn spec_reference(&self) -> TypeRef {
        self.reference
    }

    pub closed spec fn spec_identifier(&self) -> Identifier {
        *self.id
    }

    pub fn new(any_type: &'a AnyType, reference: TypeRef, id: &'a Identifier) -> (r: TypeInfo<'a>)
        ensures
            r.spec_any_type() == *any_type,
            r.spec_reference() == reference,
            r.spec_identifier() == *id,
    {
        TypeInfo { any_type, reference, id }
    }

    pub fn any_type(&self) -> (r: &AnyType)
        ensures
            *r == self.spec_any_type(),
    {
        self.any_type
    }

    pub fn reference(&self) -> (r: TypeRef)
        ensures
            r == self.spec_reference(),
    {
        self.reference
    }

    pub fn identifier(&self) -> (r: &Identifier)
        ensures
            *r == self.spec_identifier(),
    {
        self.id
    }
}

impl DefaultTypeContainer {
    /// The type the reference refers to, with its identifier; `TypeNotFound` if there is no
    /// such type.
    pub fn type_info(&self, reference: TypeRef) -> (r: Result<TypeInfo, LqError>)
        ensures
            (reference.0 as int) < self.spec_types().len() ==> (r matches Ok(info)
                && info.spec_any_type() == self.spec_types()[reference.0 as int]
                && info.spec_reference() == reference && info.spec_identifier()
                == self.spec_identifiers()[reference.0 as int]),
            (reference.0 as int) >= self.spec_types().len() ==> r matches Err(
                LqError::TypeNotFound,
            ),
    {
        proof {
            self.lemma_same_len();
        }
        let any_type = match self.require_type(reference) {
            Ok(any_type) => any_type,
            Err(e) => {
                return Err(e);
            },
        };
        match self.identifier(reference) {
            Some(id) => Ok(TypeInfo::new(any_type, reference, id)),
            None => Err(LqError::TypeNotFound),
        }
    }
}

} // verus!
