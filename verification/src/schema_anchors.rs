//! A schema as anchors: further types and a main type, found by number. The types are
//! numbered in the order a builder collected them: the further types first (0 to n - 1),
//! the main type last (n).
use vstd::prelude::*;
use crate::any_type::AnyType;
use crate::error::LqError;
use crate::schema_core::TypeRef;
use crate::type_eq::{is_same_type, same_type};

verus! {

/// The base of a schema: further types and its main type.
pub struct SchemaAnchors {
    main: AnyType,
    types: Vec<AnyType>,
}

/// The type a reference points to in a schema with the given main and further types: `n`
/// (n below the number of further types) is the further type `n`, one past them the main
/// type.
pub open spec fn anchored_type(main: AnyType, types: Seq<AnyType>, reference: TypeRef) -> Option<
    AnyType,
> {
    if (reference.0 as int) < types.len() {
        Some(types[reference.0 as int])
    } else if reference.0 as int == types.len() {
        Some(main)
    } else {
        None
    }
}

/// Collects the types of a schema; a type that is already there (see `same_type`) is not
/// added again.
pub struct SchemaAnchorsBuilder {
    types: Vec<AnyType>,
}

impl SchemaAnchorsBuilder {
    /// The collected types, in the order of their references.
    pub closed spec fn view(&self) -> Seq<AnyType> {
        self.types@
    }

    /// Adds a type and returns its reference: the reference of the first collected type that
    /// is the same, or else the next number.
    pub fn add(&mut self, t: AnyType) -> (r: TypeRef)
        requires
            old(self)@.len() < u32::MAX,
        ensures
            (r.0 as int) < final(self)@.len(),
            same_type(final(self)@[r.0 as int], t),
            (exists|j: int| 0 <= j < old(self)@.len() && same_type(#[trigger] old(self)@[j], t))
                ==> (final(self)@ == old(self)@ && forall|j: int|
                0 <= j < r.0 ==> !same_type(#[trigger] old(self)@[j], t)),
            (forall|j: int| 0 <= j < old(self)@.len() ==> !same_type(#[trigger] old(self)@[j], t))
                ==> (r.0 == old(self)@.len() && final(self)@ == old(self)@.push(t)),
    {
        let mut i: usize = 0;
        while i < self.types.len()
            invariant
                0 <= i <= self.types@.len(),
                self.types@.len() < u32::MAX,
                forall|j: int| 0 <= j < i ==> !same_type(#[trigger] self.types@[j], t),
            decreases self.types@.len() - i,
        {
            if is_same_type(&self.types[i], &t) {
                return TypeRef(i as u32);
            }
            i += 1;
        }
        let index = self.types.len() as u32;
        self.types.push(t);
        proof {
            lemma_same_type_reflexive(t);
        }
        TypeRef(index)
    }
}

impl Default for SchemaAnchorsBuilder {
    fn default() -> (r: SchemaAnchorsBuilder)
        ensures
            r@ == Seq::<AnyType>::empty(),
    {
        SchemaAnchorsBuilder { types: Vec::new() }
    }
}

/// Every type is the same as itself.
pub proof fn lemma_same_type_reflexive(t: AnyType)
    ensures
        same_type(t, t),
{
}

impl SchemaAnchors {
    pub closed spec fn spec_main(&self) -> AnyType {
        self.main
    }

    pub closed spec fn spec_types(&self) -> Seq<AnyType> {
        self.types@
    }

    /// The anchors of the collected types: the last collected type is the main type, those
    /// before it are the further types; every reference the builder handed out finds its type
    /// again. `NoMainType` when no type was collected.
    pub fn try_from(builder: SchemaAnchorsBuilder) -> (r: Result<SchemaAnchors, LqError>)
        ensures
            builder@.len() == 0 ==> r == Err::<SchemaAnchors, LqError>(LqError::NoMainType),
            builder@.len() > 0 ==> (r matches Ok(a) && a.spec_main() == builder@.last()
                && a.spec_types() == builder@.drop_last() && forall|n: int|
                0 <= n < builder@.len() && n <= u32::MAX ==> #[trigger] anchored_type(
                    a.spec_main(),
                    a.spec_types(),
                    TypeRef(n as u32),
                ) == Some(builder@[n])),
    {
        let ghost collected = builder@;
        let mut types = builder.types;
        match types.pop() {
            Some(main) => {
                let a = SchemaAnchors { main, types };
                proof {
                    assert(a.spec_types() =~= collected.drop_last());
                    assert forall|n: int| 0 <= n < collected.len() && n <= u32::MAX implies #[trigger] anchored_type(
                        a.spec_main(),
                        a.spec_types(),
                        TypeRef(n as u32),
                    ) == Some(collected[n]) by {
                        assert((n as u32) as int == n);
                    }
                }
                Ok(a)
            },
            None => Err(LqError::NoMainType),
        }
    }

    /// The reference of the main type (one past the further types).
    pub fn main_type(&self) -> (r: TypeRef)
        requires
            self.spec_types().len() <= u32::MAX,
        ensures
            r.0 == self.spec_types().len(),
            anchored_type(self.spec_main(), self.spec_types(), r) == Some(self.spec_main()),
    {
        TypeRef(self.types.len() as u32)
    }

    /// The type the reference points to (see `anchored_type`).
    pub fn maybe_type(&self, reference: TypeRef) -> (r: Option<&AnyType>)
        ensures
            r matches Some(t) ==> anchored_type(self.spec_main(), self.spec_types(), reference)
                == Some(*t),
            r is None ==> anchored_type(self.spec_main(), self.spec_types(), reference) is None,
    {
        let index = reference.0 as usize;
        if index < self.types.len() {
            Some(&self.types[index])
        } else if index == self.types.len() {
            Some(&self.main)
        } else {
            None
        }
    }
}

} // verus!
