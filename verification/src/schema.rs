//! A schema: a type container whose root type data is validated against.
use vstd::prelude::*;
use crate::any_type::AnyType;
use crate::context::{ValidationState, initial_state};
use crate::error::LqError;
use crate::identifier::Identifier;
use crate::schema_core::{Config, TypeRef};
use crate::type_container::DefaultTypeContainer;
use crate::validation::{spec_validate_type, type_wf, types_wf};
use crate::value::Value;

verus! {

/// The result of validating `v` against the root type `root` of a schema with the types
/// `tys`, starting with no anchors and no maps.
pub open spec fn spec_validate_schema(
    tys: Seq<AnyType>,
    root: AnyType,
    cfg: Config,
    v: Value,
) -> Result<(), LqError> {
    match spec_validate_type(tys, cfg, root, v, initial_state()) {
        Ok(_) => Ok(()),
        Err(e) => Err(e),
    }
}

/// A schema that validates data against the root type of its type container.
pub struct DefaultSchema {
    types: DefaultTypeContainer,
    extended_diagnostics: bool,
}

impl DefaultSchema {
    /// The types of the schema.
    pub closed spec fn spec_container(&self) -> DefaultTypeContainer {
        self.types
    }

    /// Whether errors are to carry extended diagnostics.
    pub closed spec fn spec_extended_diagnostics(&self) -> bool {
        self.extended_diagnostics
    }

    /// True if every type of the schema can be validated (see `type_wf`).
    pub open spec fn spec_wf(&self) -> bool {
        types_wf(self.spec_container().spec_types()) && type_wf(self.spec_container().spec_root())
    }

    /// A schema with the given types; extended diagnostics are off.
    pub fn new(types: DefaultTypeContainer) -> (r: DefaultSchema)
        ensures
            r.spec_container() == types,
            !r.spec_extended_diagnostics(),
    {
        DefaultSchema { types, extended_diagnostics: false }
    }

    /// Switches extended diagnostics on or off.
    pub fn set_extended_diagnostics(&mut self, enabled: bool)
        ensures
            final(self).spec_container() == old(self).spec_container(),
            final(self).spec_extended_diagnostics() == enabled,
    {
        self.extended_diagnostics = enabled;
    }

    /// Whether extended diagnostics are on.
    pub fn extended_diagnostics(&self) -> (r: bool)
        ensures
            r == self.spec_extended_diagnostics(),
    {
        self.extended_diagnostics
    }

    /// The types of the schema.
    pub fn types(&self) -> (r: &DefaultTypeContainer)
        ensures
            *r == self.spec_container(),
    {
        &self.types
    }

    /// Returns the type the reference refers to, if there is one.
    pub fn maybe_type(&self, reference: TypeRef) -> (r: Option<&AnyType>)
        ensures
            (reference.0 as int) < self.spec_container().spec_types().len() ==> r == Some(
                &self.spec_container().spec_types()[reference.0 as int],
            ),
            (reference.0 as int) >= self.spec_container().spec_types().len() ==> r is None,
    {
        self.types.maybe_type(reference)
    }

    /// The root type.
    pub fn root(&self) -> (r: &AnyType)
        ensures
            *r == self.spec_container().spec_root(),
    {
        self.types.root()
    }

    /// Returns the identifier of the type the reference refers to, if there is one.
    pub fn identifier(&self, reference: TypeRef) -> (r: Option<&Identifier>)
        ensures
            (reference.0 as int) < self.spec_container().spec_identifiers().len() ==> r == Some(
                &self.spec_container().spec_identifiers()[reference.0 as int],
            ),
            (reference.0 as int) >= self.spec_container().spec_identifiers().len() ==> r is None,
    {
        self.types.identifier(reference)
    }

    /// Returns the type the reference refers to; `TypeNotFound` if there is none.
    pub fn require_type(&self, reference: TypeRef) -> (r: Result<&AnyType, LqError>)
        ensures
            (reference.0 as int) < self.spec_container().spec_types().len() ==> r == Ok::<
                &AnyType,
                LqError,
            >(&self.spec_container().spec_types()[reference.0 as int]),
            (reference.0 as int) >= self.spec_container().spec_types().len() ==> r == Err::<
                &AnyType,
                LqError,
            >(LqError::TypeNotFound),
    {
        self.types.require_type(reference)
    }

    /// Validates `value` against the root type.
    pub fn validate(&self, config: Config, value: &Value) -> (r: Result<(), LqError>)
        requires
            self.spec_wf(),
        ensures
            r == spec_validate_schema(
                self.spec_container().spec_types(),
                self.spec_container().spec_root(),
                config,
                *value,
            ),
    {
        let mut state = ValidationState::new();
        match self.types.validate_type(config, self.types.root(), value, &mut state) {
            Ok(()) => Ok(()),
            Err(e) => Err(e),
        }
    }
}

} // verus!
