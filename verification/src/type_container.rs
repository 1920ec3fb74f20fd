use vstd::prelude::*;
use crate::any_type::AnyType;
use crate::error::LqError;
use crate::identifier::Identifier;
use crate::schema_core::TypeRef;

verus! {

/// The types of a schema, each with its identifier, and the root type. A `TypeRef` refers to
/// a type by its index in `types`.
pub struct DefaultTypeContainer {
    types: Vec<(Identifier, AnyType)>,
    root: AnyType,
}

/// The type part of an entry `(identifier, type)`.
pub open spec fn entry_type(entry: (Identifier, AnyType)) -> AnyType {
    entry.1
}

/// The identifier part of an entry `(identifier, type)`.
pub open spec fn entry_identifier(entry: (Identifier, AnyType)) -> Identifier {
    entry.0
}

impl DefaultTypeContainer {
    /// The types, in the order in which `TypeRef`s index them.
    pub closed spec fn spec_types(&self) -> Seq<AnyType> {
        self.types@.map_values(|e: (Identifier, AnyType)| entry_type(e))
    }

    /// The identifiers of the types, in the same order.
    pub closed spec fn spec_identifiers(&self) -> Seq<Identifier> {
        self.types@.map_values(|e: (Identifier, AnyType)| entry_identifier(e))
    }

    /// There is an identifier for every type.
    pub proof fn lemma_same_len(&self)
        ensures
            self.spec_identifiers().len() == self.spec_types().len(),
    {
    }

    /// The root type.
    pub closed spec fn spec_root(&self) -> AnyType {
        self.root
    }

    /// A container with the given identified types and the given root type.
    pub fn new(types: Vec<(Identifier, AnyType)>, root: AnyType) -> (r: DefaultTypeContainer)
        ensures
            r.spec_types() == types@.map_values(|e: (Identifier, AnyType)| entry_type(e)),
            r.spec_identifiers() == types@.map_values(
                |e: (Identifier, AnyType)| entry_identifier(e),
            ),
            r.spec_root() == root,
    {
        DefaultTypeContainer { types, root }
    }

    /// The number of (non-root) types.
    pub fn len(&self) -> (r: usize)
        ensures
            r == self.spec_types().len(),
    {
        self.types.len()
    }

    /// Returns the type the reference refers to, if there is one.
    pub fn maybe_type(&self, reference: TypeRef) -> (r: Option<&AnyType>)
        ensures
            (reference.0 as int) < self.spec_types().len() ==> r == Some(
                &self.spec_types()[reference.0 as int],
            ),
            (reference.0 as int) >= self.spec_types().len() ==> r is None,
    {
        let index = reference.0 as usize;
        if index < self.types.len() {
            Some(&self.types[index].1)
        } else {
            None
        }
    }

    /// The root type.
    pub fn root(&self) -> (r: &AnyType)
        ensures
            *r == self.spec_root(),
    {
        &self.root
    }

    /// Returns the identifier of the type the reference refers to, if there is one.
    pub fn identifier(&self, reference: TypeRef) -> (r: Option<&Identifier>)
        ensures
            (reference.0 as int) < self.spec_identifiers().len() ==> r == Some(
                &self.spec_identifiers()[reference.0 as int],
            ),
            (reference.0 as int) >= self.spec_identifiers().len() ==> r is None,
    {
        let index = reference.0 as usize;
        if index < self.types.len() {
            Some(&self.types[index].0)
        } else {
            None
        }
    }

    /// Returns the type the reference refers to; `TypeNotFound` if there is none.
    pub fn require_type(&self, reference: TypeRef) -> (r: Result<&AnyType, LqError>)
        ensures
            (reference.0 as int) < self.spec_types().len() ==> r == Ok::<&AnyType, LqError>(
                &self.spec_types()[reference.0 as int],
            ),
            (reference.0 as int) >= self.spec_types().len() ==> r == Err::<&AnyType, LqError>(
                LqError::TypeNotFound,
            ),
    {
        match self.maybe_type(reference) {
            Some(t) => Ok(t),
            None => Err(LqError::TypeNotFound),
        }
    }
}

} // verus!
