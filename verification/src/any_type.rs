use vstd::prelude::*;
use crate::error::LqError;
use crate::metadata::{Meta, WithMetadata};
use crate::schema_core::TypeRef;
use crate::boolean::TBool;
use crate::option::TOption;
use crate::seq::TSeq;
use crate::binary::TBinary;
use crate::uint::TUInt;
use crate::sint::TSInt;
use crate::enumeration::TEnum;
use crate::structure::TStruct;
use crate::map::TMap;
use crate::root_map::TRootMap;
use crate::key_ref::TKeyRef;
use crate::uuid::TUuid;
use crate::range::TRange;
use crate::anchors::TAnchors;
use crate::reference::TReference;
use crate::ascii::TAscii;
use crate::unicode::TUnicode;

verus! {

/// This is an enumeration of all types that are known to the system.
#[derive(Clone, Debug, PartialEq, Eq, Hash)]
pub enum AnyType {
    Bool(TBool),
    Option(TOption),
    Sequence(TSeq),
    Binary(TBinary),
    UInt(TUInt),
    SInt(TSInt),
    Enum(TEnum),
    Struct(TStruct),
    Mapping(TMap),
    RootMap(TRootMap),
    KeyRef(TKeyRef),
    Uuid(TUuid),
    Range(TRange),
    Anchors(TAnchors),
    Reference(TReference),
    Ascii(TAscii),
    Unicode(TUnicode),
}

/// True if both types are of the same kind (the same variant of `AnyType`).
pub open spec fn same_kind(a: AnyType, b: AnyType) -> bool {
    match (a, b) {
        (AnyType::Bool(_), AnyType::Bool(_)) => true,
        (AnyType::Option(_), AnyType::Option(_)) => true,
        (AnyType::Sequence(_), AnyType::Sequence(_)) => true,
        (AnyType::Binary(_), AnyType::Binary(_)) => true,
        (AnyType::UInt(_), AnyType::UInt(_)) => true,
        (AnyType::SInt(_), AnyType::SInt(_)) => true,
        (AnyType::Enum(_), AnyType::Enum(_)) => true,
        (AnyType::Struct(_), AnyType::Struct(_)) => true,
        (AnyType::Mapping(_), AnyType::Mapping(_)) => true,
        (AnyType::RootMap(_), AnyType::RootMap(_)) => true,
        (AnyType::KeyRef(_), AnyType::KeyRef(_)) => true,
        (AnyType::Uuid(_), AnyType::Uuid(_)) => true,
        (AnyType::Range(_), AnyType::Range(_)) => true,
        (AnyType::Anchors(_), AnyType::Anchors(_)) => true,
        (AnyType::Reference(_), AnyType::Reference(_)) => true,
        (AnyType::Ascii(_), AnyType::Ascii(_)) => true,
        (AnyType::Unicode(_), AnyType::Unicode(_)) => true,
        _ => false,
    }
}

/// `b` is `a` with (at most) its embedded type references changed: the same kind of type, with
/// the same metadata, lengths, orderings and names.
pub open spec fn same_apart_from_refs(a: AnyType, b: AnyType) -> bool {
    match (a, b) {
        (AnyType::Option(x), AnyType::Option(y)) => x.spec_meta() == y.spec_meta(),
        (AnyType::Sequence(x), AnyType::Sequence(y)) => x.meta == y.meta && x.length == y.length
            && x.ordering == y.ordering && x.multiple_of == y.multiple_of,
        (AnyType::Enum(x), AnyType::Enum(y)) => x.spec_meta() == y.spec_meta()
            && x.spec_variants().len() == y.spec_variants().len() && forall|i: int|
            0 <= i < x.spec_variants().len() ==> #[trigger] y.spec_variants()[i].spec_name()
                == x.spec_variants()[i].spec_name(),
        (AnyType::Struct(x), AnyType::Struct(y)) => x.spec_meta() == y.spec_meta()
            && x.spec_fields().len() == y.spec_fields().len() && forall|i: int|
            0 <= i < x.spec_fields().len() ==> #[trigger] y.spec_fields()[i].spec_name()
                == x.spec_fields()[i].spec_name(),
        (AnyType::Mapping(x), AnyType::Mapping(y)) => x.spec_meta() == y.spec_meta()
            && x.spec_length() == y.spec_length() && x.spec_sorting() == y.spec_sorting()
            && x.spec_anchors() == y.spec_anchors(),
        (AnyType::RootMap(x), AnyType::RootMap(y)) => x.spec_meta() == y.spec_meta()
            && x.spec_length() == y.spec_length() && x.spec_sorting() == y.spec_sorting(),
        (AnyType::Range(x), AnyType::Range(y)) => x.meta == y.meta && x.inclusion == y.inclusion
            && x.allow_equal == y.allow_equal,
        (AnyType::Anchors(x), AnyType::Anchors(y)) => x.spec_meta() == y.spec_meta()
            && x.spec_max_anchors() == y.spec_max_anchors(),
        _ => a == b,
    }
}

impl AnyType {
    /// The metadata of the type.
    pub open spec fn spec_meta(&self) -> Meta {
        match self {
            AnyType::Bool(value) => value.spec_meta(),
            AnyType::Option(value) => value.spec_meta(),
            AnyType::Sequence(value) => value.spec_meta(),
            AnyType::Binary(value) => value.spec_meta(),
            AnyType::UInt(value) => value.spec_meta(),
            AnyType::SInt(value) => value.spec_meta(),
            AnyType::Enum(value) => value.spec_meta(),
            AnyType::Struct(value) => value.spec_meta(),
            AnyType::Mapping(value) => value.spec_meta(),
            AnyType::RootMap(value) => value.spec_meta(),
            AnyType::KeyRef(value) => value.spec_meta(),
            AnyType::Uuid(value) => value.spec_meta(),
            AnyType::Range(value) => value.spec_meta(),
            AnyType::Anchors(value) => value.spec_meta(),
            AnyType::Reference(value) => value.spec_meta(),
            AnyType::Ascii(value) => value.spec_meta(),
            AnyType::Unicode(value) => value.spec_meta(),
        }
    }

    /// Metadata of the type.
    pub fn meta(&self) -> (r: &Meta)
        ensures
            *r == self.spec_meta(),
    {
        match self {
            AnyType::Bool(value) => value.meta(),
            AnyType::Option(value) => value.meta(),
            AnyType::Sequence(value) => value.meta(),
            AnyType::Binary(value) => value.meta(),
            AnyType::UInt(value) => value.meta(),
            AnyType::SInt(value) => value.meta(),
            AnyType::Enum(value) => value.meta(),
            AnyType::Struct(value) => value.meta(),
            AnyType::Mapping(value) => value.meta(),
            AnyType::RootMap(value) => value.meta(),
            AnyType::KeyRef(value) => value.meta(),
            AnyType::Uuid(value) => value.meta(),
            AnyType::Range(value) => value.meta(),
            AnyType::Anchors(value) => value.meta(),
            AnyType::Reference(value) => value.meta(),
            AnyType::Ascii(value) => value.meta(),
            AnyType::Unicode(value) => value.meta(),
        }
    }

    /// The type references embedded in this type, in order.
    pub open spec fn spec_refs(&self) -> Seq<TypeRef> {
        match self {
            AnyType::Bool(_) => Seq::empty(),
            AnyType::Option(value) => value.spec_refs(),
            AnyType::Sequence(value) => value.spec_refs(),
            AnyType::Binary(_) => Seq::empty(),
            AnyType::UInt(_) => Seq::empty(),
            AnyType::SInt(_) => Seq::empty(),
            AnyType::Enum(value) => value.spec_refs(),
            AnyType::Struct(value) => value.spec_refs(),
            AnyType::Mapping(value) => value.spec_refs(),
            AnyType::RootMap(value) => value.spec_refs(),
            AnyType::KeyRef(_) => Seq::empty(),
            AnyType::Uuid(_) => Seq::empty(),
            AnyType::Range(value) => value.spec_refs(),
            AnyType::Anchors(value) => value.spec_refs(),
            AnyType::Reference(_) => Seq::empty(),
            AnyType::Ascii(_) => Seq::empty(),
            AnyType::Unicode(_) => Seq::empty(),
        }
    }

    /// Returns the embedded references by index (starting at index 0). Returns `None` if
    /// there are no more references (there are no gaps).
    pub fn reference(&self, index: usize) -> (r: Option<TypeRef>)
        ensures
            index < self.spec_refs().len() ==> r == Some(self.spec_refs()[index as int]),
            index >= self.spec_refs().len() ==> r is None,
    {
        match self {
            AnyType::Bool(_) => None,
            AnyType::Option(value) => value.reference(index),
            AnyType::Sequence(value) => value.reference(index),
            AnyType::Binary(_) => None,
            AnyType::UInt(_) => None,
            AnyType::SInt(_) => None,
            AnyType::Enum(value) => value.reference(index),
            AnyType::Struct(value) => value.reference(index),
            AnyType::Mapping(value) => value.reference(index),
            AnyType::RootMap(value) => value.reference(index),
            AnyType::KeyRef(_) => None,
            AnyType::Uuid(_) => None,
            AnyType::Range(value) => value.reference(index),
            AnyType::Anchors(value) => value.reference(index),
            AnyType::Reference(_) => None,
            AnyType::Ascii(_) => None,
            AnyType::Unicode(_) => None,
        }
    }

    /// Replaces the embedded reference at `index`; fails if there is no such reference.
    pub fn set_reference(&mut self, index: usize, type_ref: TypeRef) -> (r: Result<(), LqError>)
        ensures
            same_kind(*final(self), *old(self)),
            same_apart_from_refs(*old(self), *final(self)),
            final(self).spec_meta() == old(self).spec_meta(),
            index < old(self).spec_refs().len() ==> (r is Ok && final(self).spec_refs()
                == old(self).spec_refs().update(index as int, type_ref)),
            index >= old(self).spec_refs().len() ==> (r == Err::<(), LqError>(
                LqError::NoSuchReference,
            ) && *final(self) == *old(self)),
    {
        let mut current = AnyType::Bool(TBool::default());
        std::mem::swap(self, &mut current);
        let (changed, r) = match current {
            AnyType::Option(mut value) => {
                let r = value.set_reference(index, type_ref);
                (AnyType::Option(value), r)
            },
            AnyType::Sequence(mut value) => {
                let r = value.set_reference(index, type_ref);
                (AnyType::Sequence(value), r)
            },
            AnyType::Enum(mut value) => {
                let r = value.set_reference(index, type_ref);
                (AnyType::Enum(value), r)
            },
            AnyType::Struct(mut value) => {
                let r = value.set_reference(index, type_ref);
                (AnyType::Struct(value), r)
            },
            AnyType::Mapping(mut value) => {
                let r = value.set_reference(index, type_ref);
                (AnyType::Mapping(value), r)
            },
            AnyType::RootMap(mut value) => {
                let r = value.set_reference(index, type_ref);
                (AnyType::RootMap(value), r)
            },
            AnyType::Range(mut value) => {
                let r = value.set_reference(index, type_ref);
                (AnyType::Range(value), r)
            },
            AnyType::Anchors(mut value) => {
                let r = value.set_reference(index, type_ref);
                (AnyType::Anchors(value), r)
            },
            other => (other, Err(LqError::NoSuchReference)),
        };
        *self = changed;
        r
    }
}

} // verus!
