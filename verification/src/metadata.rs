use vstd::prelude::*;
use crate::error::LqError;
use vstd::slice::slice_to_vec;

verus! {

/// Minimum length (utf-8 bytes) the documentation of a type must have.
pub const DOC_MIN_LEN_UTF8_BYTES: usize = 1;
/// Maximum length (utf-8 bytes) the documentation of a type can have.
pub const DOC_MAX_LEN_UTF8_BYTES: usize = 4000;

/// Minimum number of elements in `implements`.
pub const MIN_IMPLEMENTS_ELEMENTS: usize = 1;
/// Maximum number of elements in `implements`.
pub const MAX_IMPLEMENTS_ELEMENTS: usize = 255;

/// A 16 byte UUID (RFC 4122).
#[derive(Copy, Clone, Debug, PartialEq, Eq, Hash)]
pub struct Uuid(pub [u8; 16]);

/// What a type implements: 1 to 255 UUIDs.
#[derive(Clone, Debug, PartialEq, Eq, Hash)]
pub struct Implements(Vec<Uuid>);

impl Implements {
    /// The UUIDs, in the order they were added.
    pub closed spec fn uuids(&self) -> Seq<Uuid> {
        self.0@
    }

    /// Creates `implements` from the given UUIDs; there must be 1 to 255 of them.
    pub fn try_new(implements: &[Uuid]) -> (r: Result<Implements, LqError>)
        ensures
            implements@.len() < MIN_IMPLEMENTS_ELEMENTS ==> r == Err::<Implements, LqError>(
                LqError::TooFewImplements,
            ),
            implements@.len() > MAX_IMPLEMENTS_ELEMENTS ==> r == Err::<Implements, LqError>(
                LqError::TooManyImplements,
            ),
            MIN_IMPLEMENTS_ELEMENTS <= implements@.len() <= MAX_IMPLEMENTS_ELEMENTS ==> (r matches Ok(
                i,
            ) && i.uuids() == implements@),
    {
        let number = implements.len();
        if number < MIN_IMPLEMENTS_ELEMENTS {
            Err(LqError::TooFewImplements)
        } else if number > MAX_IMPLEMENTS_ELEMENTS {
            Err(LqError::TooManyImplements)
        } else {
            Ok(Implements(slice_to_vec(implements)))
        }
    }

    /// Appends a UUID; fails (and changes nothing) if there would be more than 255.
    pub fn add(&mut self, implements: Uuid) -> (r: Result<(), LqError>)
        ensures
            old(self).uuids().len() + 1 > MAX_IMPLEMENTS_ELEMENTS ==> (r == Err::<(), LqError>(
                LqError::TooManyImplements,
            ) && final(self).uuids() == old(self).uuids()),
            old(self).uuids().len() + 1 <= MAX_IMPLEMENTS_ELEMENTS ==> (r is Ok
                && final(self).uuids() == old(self).uuids().push(implements)),
    {
        if self.0.len() >= MAX_IMPLEMENTS_ELEMENTS {
            Err(LqError::TooManyImplements)
        } else {
            self.0.push(implements);
            Ok(())
        }
    }
}

/// The metadata of a type: an optional documentation and what the type implements.
#[derive(Clone, Debug, PartialEq, Eq, Hash)]
pub struct Meta {
    pub doc: Option<String>,
    pub implements: Option<Implements>,
}

/// The UUIDs of an optional `implements` (none if absent).
pub open spec fn implements_uuids(implements: Option<Implements>) -> Seq<Uuid> {
    match implements {
        Some(i) => i.uuids(),
        None => Seq::empty(),
    }
}

impl Meta {
    /// Metadata without documentation and without `implements`.
    pub fn empty() -> (r: Meta)
        ensures
            r.doc is None,
            r.implements is None,
    {
        Meta { doc: None, implements: None }
    }

    /// The documentation, if any.
    pub fn doc(&self) -> (r: Option<&str>)
        ensures
            r is None <==> self.doc is None,
            r matches Some(d) ==> d@ == self.doc->0@,
    {
        match &self.doc {
            Some(desc) => Some(desc.as_str()),
            None => None,
        }
    }

    /// The UUIDs this type implements (empty if there are none).
    pub fn implements(&self) -> (r: &[Uuid])
        ensures
            r@ == implements_uuids(self.implements),
    {
        match &self.implements {
            Some(implements) => implements.0.as_slice(),
            None => &[],
        }
    }

    /// Replaces the documentation.
    pub fn set_doc(&mut self, doc: String)
        ensures
            final(self).doc == Some(doc),
            final(self).implements == old(self).implements,
    {
        self.doc = Some(doc);
    }

    /// Adds a UUID to `implements`. When there are already 255 UUIDs this fails, and
    /// `implements` is left absent.
    pub fn add_implements(&mut self, uuid: Uuid) -> (r: Result<(), LqError>)
        ensures
            final(self).doc == old(self).doc,
            implements_uuids(old(self).implements).len() < MAX_IMPLEMENTS_ELEMENTS ==> (r is Ok
                && final(self).implements is Some && implements_uuids(final(self).implements)
                == implements_uuids(old(self).implements).push(uuid)),
            implements_uuids(old(self).implements).len() >= MAX_IMPLEMENTS_ELEMENTS ==> (r
                == Err::<(), LqError>(LqError::TooManyImplements) && final(self).implements is None),
    {
        if self.implements.is_none() {
            let first = [uuid];
            match Implements::try_new(&first) {
                Ok(implements) => {
                    assert(implements.uuids() =~= Seq::<Uuid>::empty().push(uuid));
                    self.implements = Some(implements);
                    Ok(())
                },
                Err(e) => Err(e),
            }
        } else {
            let mut implements = self.implements.take().unwrap();
            match implements.add(uuid) {
                Ok(()) => {
                    self.implements = Some(implements);
                    Ok(())
                },
                Err(e) => Err(e),
            }
        }
    }
}

impl Default for Meta {
    fn default() -> (r: Meta)
        ensures
            r.doc is None,
            r.implements is None,
    {
        Meta::empty()
    }
}

/// Something that has metadata.
pub trait WithMetadata: Sized {
    /// The metadata of this value.
    spec fn spec_meta(&self) -> Meta;

    /// This value with its metadata replaced (everything else unchanged).
    spec fn spec_with_meta(self, meta: Meta) -> Self;

    /// Metadata for that type.
    fn meta(&self) -> (r: &Meta)
        ensures
            *r == self.spec_meta(),
    ;

    /// Replacing the metadata and reading it back gives what was set; replacing it with what
    /// is there changes nothing; of two replacements the last one counts.
    proof fn lemma_meta_lens(self, m1: Meta, m2: Meta)
        ensures
            self.spec_with_meta(m1).spec_meta() == m1,
            self.spec_with_meta(self.spec_meta()) == self,
            self.spec_with_meta(m1).spec_with_meta(m2) == self.spec_with_meta(m2),
    ;
}

/// Something that supports mutating metadata.
pub trait MetadataSetter: WithMetadata {
    /// Replaces the metadata.
    fn set_meta(&mut self, meta: Meta)
        ensures
            *final(self) == old(self).spec_with_meta(meta),
    ;

    /// This value with the given metadata.
    fn with_meta(self, meta: Meta) -> (r: Self)
        ensures
            r == self.spec_with_meta(meta),
    ;

    /// This value with the given documentation (what it implements is kept).
    fn with_doc(self, doc: String) -> (r: Self)
        ensures
            r == self.spec_with_meta(Meta { doc: Some(doc), implements: self.spec_meta().implements }),
    ;
}

} // verus!
