use vstd::prelude::*;

verus! {

/// Why a schema operation or a data validation failed.
#[derive(Debug, Clone, Copy, PartialEq, Eq, Structural)]
pub enum LqError {
    /// The data does not have the shape the type expects (for example a boolean where an
    /// unsigned integer is required, or a sequence that is too long to be serialized).
    UnexpectedValue,
    /// A type reference points to no type in the container.
    TypeNotFound,
    /// A value (or a length) lies outside the range defined in the schema.
    NotWithinRange,
    /// The length of a sequence is not a multiple of the value required by the schema.
    NotMultipleOf,
    /// Two neighbouring elements of a sorted sequence are in the wrong order.
    WrongOrdering,
    /// Two neighbouring elements of a sequence that must be unique are equal.
    DuplicateElement,
    /// Strict mode: the structure does not have exactly the fields of the schema.
    StructLengthMismatch,
    /// The structure has fewer fields than the schema defines.
    MissingFields,
    /// The enum ordinal does not name a variant of the schema.
    NoSuchVariant,
    /// Strict mode: the enum variant does not carry exactly the values of the schema.
    VariantValuesMismatch,
    /// The enum variant carries fewer values than the schema defines.
    MissingVariantValues,
    /// A map entry is not a sequence of exactly two elements (key and value).
    MalformedMapEntry,
    /// Map keys are not strictly sorted in the direction the schema requires.
    MapKeyOrdering,
    /// A root map is not a sequence of exactly two elements (entries and root).
    MalformedRootMap,
    /// A key reference points past the end of the referenced map.
    KeyRefOutOfBounds,
    /// A key reference is used where no map (at the requested level) is being validated.
    KeyRefWithoutMap,
    /// The key reference stack was popped while it was empty.
    KeyRefStackEmpty,
    /// A range does not have the number of elements its inclusion requires.
    RangeLength,
    /// Range start is greater than range end.
    RangeStartGreaterThanEnd,
    /// Range start equals range end but the schema does not allow this.
    RangeStartEqualsEnd,
    /// Anchors are not a sequence of exactly two elements (master and anchors).
    MalformedAnchors,
    /// There are more anchors than the schema allows.
    TooManyAnchors,
    /// An anchor is never referenced.
    UnusedAnchor,
    /// A reference points to an anchor that does not exist.
    AnchorOverflow,
    /// Anchors are validated without a maximum used anchor index.
    NoMaxUsedAnchorIndex,
    /// A reference skips an anchor (references have to be made in anchor order).
    ReferenceSkipsAnchor,
    /// A reference is used outside of anchors.
    ReferenceOutsideAnchors,
    /// A segment of an identifier is shorter than allowed.
    SegmentTooShort,
    /// A segment of an identifier is longer than allowed.
    SegmentTooLong,
    /// A segment of an identifier holds a character other than `a-z` and `0-9`.
    SegmentInvalidChar,
    /// An identifier has fewer segments than allowed.
    TooFewSegments,
    /// An identifier has more segments than allowed.
    TooManySegments,
    /// There are fewer `implements` elements than required.
    TooFewImplements,
    /// There are more `implements` elements than allowed.
    TooManyImplements,
    /// A range was created with a start greater than its end.
    InvalidRange,
    /// A type has no embedded type reference at the given index.
    NoSuchReference,
    /// More elements than fit in a `u32`.
    TooManyElements,
    /// A text contains a character that its type does not allow.
    InvalidCharacter,
    /// A different type was added to a schema builder under an identifier already in use.
    DuplicateIdentifier,
    /// A schema needs at least its main type, and none was given.
    NoMainType,
}

} // verus!
