use vstd::prelude::*;
use crate::error::LqError;
use crate::ine_range::U32IneRange;
use crate::map::Sorting;
use crate::metadata::{Meta, MetadataSetter, WithMetadata};
use crate::schema_core::TypeRef;

verus! {

/// A map with a root. Keys have to be unique. The keys can be referenced. The root cannot be
/// referenced. The root can reference keys.
///
/// Technical details: Internally a root map looks like this:
/// `[[[key1, value1], [key2, value2], ...], root]`.
#[derive(Clone, Debug, PartialEq, Eq, Hash)]
pub struct TRootMap {
    meta: Meta,
    root: TypeRef,
    key: TypeRef,
    value: TypeRef,
    length: U32IneRange,
    sorting: Sorting,
}

impl TRootMap {
    pub closed spec fn spec_root(&self) -> TypeRef {
        self.root
    }

    pub closed spec fn spec_key(&self) -> TypeRef {
        self.key
    }

    pub closed spec fn spec_value(&self) -> TypeRef {
        self.value
    }

    pub closed spec fn spec_length(&self) -> U32IneRange {
        self.length
    }

    pub closed spec fn spec_sorting(&self) -> Sorting {
        self.sorting
    }

    /// A new root map; any length; sorting: ascending.
    pub fn new(root: TypeRef, key: TypeRef, value: TypeRef) -> (r: TRootMap)
        ensures
            r.spec_root() == root,
            r.spec_key() == key,
            r.spec_value() == value,
            r.spec_length().spec_start() == 0,
            r.spec_length().spec_end() == u32::MAX,
            r.spec_sorting() == Sorting::Ascending,
            r.spec_meta().doc is None,
            r.spec_meta().implements is None,
    {
        TRootMap {
            meta: Meta::empty(),
            root,
            key,
            value,
            length: U32IneRange::full(),
            sorting: Sorting::Ascending,
        }
    }

    /// The type of the root value.
    pub fn root(&self) -> (r: TypeRef)
        ensures
            r == self.spec_root(),
    {
        self.root
    }

    /// The type of the keys.
    pub fn key(&self) -> (r: TypeRef)
        ensures
            r == self.spec_key(),
    {
        self.key
    }

    /// The type of the values.
    pub fn value(&self) -> (r: TypeRef)
        ensures
            r == self.spec_value(),
    {
        self.value
    }

    /// The allowed number of entries.
    pub fn length(&self) -> (r: &U32IneRange)
        ensures
            *r == self.spec_length(),
    {
        &self.length
    }

    /// The sorting of the keys.
    pub fn sorting(&self) -> (r: Sorting)
        ensures
            r == self.spec_sorting(),
    {
        self.sorting
    }

    /// The embedded type references: root, key, then value.
    pub open spec fn spec_refs(&self) -> Seq<TypeRef> {
        seq![self.spec_root(), self.spec_key(), self.spec_value()]
    }

    /// The embedded reference at `index` (`None` past the last one).
    pub fn reference(&self, index: usize) -> (r: Option<TypeRef>)
        ensures
            index < self.spec_refs().len() ==> r == Some(self.spec_refs()[index as int]),
            index >= self.spec_refs().len() ==> r is None,
    {
        match index {
            0 => Some(self.root),
            1 => Some(self.key),
            2 => Some(self.value),
            _ => None,
        }
    }

    /// Replaces the embedded reference at `index`.
    pub fn set_reference(&mut self, index: usize, type_ref: TypeRef) -> (r: Result<(), LqError>)
        ensures
            final(self).spec_meta() == old(self).spec_meta(),
            final(self).spec_length() == old(self).spec_length(),
            final(self).spec_sorting() == old(self).spec_sorting(),
            index < old(self).spec_refs().len() ==> (r is Ok && final(self).spec_refs()
                == old(self).spec_refs().update(index as int, type_ref)),
            index >= old(self).spec_refs().len() ==> (r == Err::<(), LqError>(
                LqError::NoSuchReference,
            ) && *final(self) == *old(self)),
    {
        match index {
            0 => {
                self.root = type_ref;
                assert(self.spec_refs() =~= old(self).spec_refs().update(0, type_ref));
                Ok(())
            },
            1 => {
                self.key = type_ref;
                assert(self.spec_refs() =~= old(self).spec_refs().update(1, type_ref));
                Ok(())
            },
            2 => {
                self.value = type_ref;
                assert(self.spec_refs() =~= old(self).spec_refs().update(2, type_ref));
                Ok(())
            },
            _ => Err(LqError::NoSuchReference),
        }
    }
}

impl WithMetadata for TRootMap {
    closed spec fn spec_meta(&self) -> Meta {
        self.meta
    }

    closed spec fn spec_with_meta(self, meta: Meta) -> Self {
        TRootMap { meta, ..self }
    }

    fn meta(&self) -> (r: &Meta) {
        &self.meta
    }

    proof fn lemma_meta_lens(self, m1: Meta, m2: Meta) {
    }
}

impl MetadataSetter for TRootMap {
    fn set_meta(&mut self, meta: Meta) {
        self.meta = meta;
    }

    fn with_meta(self, meta: Meta) -> (r: Self) {
        let mut result = self;
        result.meta = meta;
        result
    }

    fn with_doc(self, doc: String) -> (r: Self) {
        let mut result = self;
        result.meta = Meta { doc: Some(doc), implements: result.meta.implements };
        result
    }
}

} // verus!
