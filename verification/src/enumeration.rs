use vstd::prelude::*;
use crate::error::LqError;
use crate::identifier::{Identifier, identifier_check, split_underscore};
use crate::metadata::{Meta, MetadataSetter, WithMetadata};
use crate::schema_core::TypeRef;

verus! {

/// An enumeration contains 1-n variants. Variants can (optionally) carry data.
#[derive(Clone, Debug, PartialEq, Eq, Hash)]
pub struct TEnum {
    meta: Meta,
    variants: Vec<Variant>,
}

/// A single variant of an enumeration.
#[derive(Clone, Debug, PartialEq, Eq, Hash)]
pub struct Variant {
    /// Textual identifier of the variant.
    name: Identifier,
    /// The values this variant carries; absent for variants without value.
    values: Option<Vec<TypeRef>>,
}

/// All type references of the given variants: the values of the first variant, then those of
/// the second, and so on.
pub open spec fn variants_refs(variants: Seq<Variant>) -> Seq<TypeRef>
    decreases variants.len(),
{
    if variants.len() == 0 {
        Seq::empty()
    } else {
        variants_refs(variants.drop_last()) + variants.last().spec_values()
    }
}

/// The references of the first `j` variants come first in the references of all variants.
pub proof fn lemma_variants_refs_prefix(variants: Seq<Variant>, j: int)
    requires
        0 <= j <= variants.len(),
    ensures
        variants_refs(variants.take(j)).len() <= variants_refs(variants).len(),
        forall|k: int|
            0 <= k < variants_refs(variants.take(j)).len() ==> #[trigger] variants_refs(
                variants.take(j),
            )[k] == variants_refs(variants)[k],
    decreases variants.len() - j,
{
    if j < variants.len() {
        lemma_variants_refs_prefix(variants, j + 1);
        assert(variants.take(j + 1).drop_last() =~= variants.take(j));
        let a = variants_refs(variants.take(j));
        let b = variants_refs(variants.take(j + 1));
        assert(b == a + variants.take(j + 1).last().spec_values());
        assert forall|k: int| 0 <= k < a.len() implies #[trigger] a[k] == variants_refs(
            variants,
        )[k] by {
            assert(b[k] == a[k]);
        }
    } else {
        assert(variants.take(j) =~= variants);
    }
}

/// Reference `k` of variant `vi` sits right after the references of the variants before it.
pub proof fn lemma_variants_refs_at(variants: Seq<Variant>, vi: int, k: int)
    requires
        0 <= vi < variants.len(),
        0 <= k < variants[vi].spec_values().len(),
    ensures
        variants_refs(variants.take(vi)).len() + k < variants_refs(variants).len(),
        variants_refs(variants)[variants_refs(variants.take(vi)).len() + k]
            == variants[vi].spec_values()[k],
{
    lemma_variants_refs_prefix(variants, vi + 1);
    let a = variants_refs(variants.take(vi));
    let b = variants_refs(variants.take(vi + 1));
    assert(variants.take(vi + 1).drop_last() =~= variants.take(vi));
    assert(b == a + variants[vi].spec_values());
    assert(b[a.len() + k] == variants[vi].spec_values()[k]);
}

/// Replacing the values of one variant replaces its part of the references.
pub proof fn lemma_variants_refs_update(variants: Seq<Variant>, vi: int, v: Variant)
    requires
        0 <= vi < variants.len(),
        v.spec_values().len() == variants[vi].spec_values().len(),
    ensures
        variants_refs(variants.update(vi, v)).len() == variants_refs(variants).len(),
        forall|k: int|
            0 <= k < variants_refs(variants).len() && !(variants_refs(variants.take(vi)).len()
                <= k < variants_refs(variants.take(vi)).len() + v.spec_values().len())
                ==> #[trigger] variants_refs(variants.update(vi, v))[k] == variants_refs(
                variants,
            )[k],
        forall|k: int|
            0 <= k < v.spec_values().len() ==> variants_refs(variants.update(vi, v))[variants_refs(
                variants.take(vi),
            ).len() + k] == #[trigger] v.spec_values()[k],
    decreases variants.len(),
{
    let updated = variants.update(vi, v);
    if vi == variants.len() - 1 {
        assert(updated.drop_last() =~= variants.drop_last());
        assert(variants.take(vi) =~= variants.drop_last());
    } else {
        lemma_variants_refs_update(variants.drop_last(), vi, v);
        assert(updated.drop_last() =~= variants.drop_last().update(vi, v));
        assert(variants.drop_last().take(vi) =~= variants.take(vi));
        lemma_variants_refs_prefix(variants.drop_last(), vi);
        lemma_variants_refs_prefix(variants.drop_last(), vi + 1);
        assert(variants.drop_last().take(vi + 1).drop_last() =~= variants.take(vi));
    }
}

/// A variant named by the snake case identifier `id`, with one value of the given type.
pub fn variant(reference: TypeRef, id: &str) -> (r: Variant)
    requires
        identifier_check(split_underscore(id@)) is Ok,
    ensures
        r.spec_name().view() == split_underscore(id@),
        r.spec_values() == seq![reference],
{
    let name = Identifier::try_from(id).unwrap();
    Variant::new(name).add_value(reference)
}

impl Variant {
    pub closed spec fn spec_name(&self) -> Identifier {
        self.name
    }

    /// The values of the variant (empty for a variant without value).
    pub closed spec fn spec_values(&self) -> Seq<TypeRef> {
        match self.values {
            Some(values) => values@,
            None => Seq::empty(),
        }
    }

    /// Creates a new variant without values.
    pub fn new(name: Identifier) -> (r: Variant)
        ensures
            r.spec_name() == name,
            r.spec_values() == Seq::<TypeRef>::empty(),
    {
        Variant { name, values: None }
    }

    /// Name of the variant.
    pub fn name(&self) -> (r: &Identifier)
        ensures
            *r == self.spec_name(),
    {
        &self.name
    }

    /// The values of the variant (empty for a variant without value).
    pub fn values(&self) -> (r: &[TypeRef])
        ensures
            r@ == self.spec_values(),
    {
        match &self.values {
            None => &[],
            Some(values) => values.as_slice(),
        }
    }

    /// This variant with the given value appended.
    pub fn add_value(self, value: TypeRef) -> (r: Variant)
        ensures
            r.spec_name() == self.spec_name(),
            r.spec_values() == self.spec_values().push(value),
    {
        let mut values = match self.values {
            Some(values) => values,
            None => Vec::new(),
        };
        values.push(value);
        Variant { name: self.name, values: Some(values) }
    }

    /// This variant with the value at `index` replaced.
    fn with_value_at(self, index: usize, value: TypeRef) -> (r: Variant)
        requires
            index < self.spec_values().len(),
        ensures
            r.spec_name() == self.spec_name(),
            r.spec_values() == self.spec_values().update(index as int, value),
    {
        match self.values {
            Some(values) => {
                let mut values = values;
                values.set(index, value);
                Variant { name: self.name, values: Some(values) }
            },
            None => Variant { name: self.name, values: None },
        }
    }
}

impl Default for TEnum {
    fn default() -> (r: TEnum)
        ensures
            r.spec_variants() == Seq::<Variant>::empty(),
            r.spec_meta().doc is None,
            r.spec_meta().implements is None,
    {
        TEnum { meta: Meta::empty(), variants: Vec::new() }
    }
}

impl TEnum {
    pub closed spec fn spec_variants(&self) -> Seq<Variant> {
        self.variants@
    }

    pub fn variants(&self) -> (r: &[Variant])
        ensures
            r@ == self.spec_variants(),
    {
        self.variants.as_slice()
    }

    /// This enumeration with the given variant appended.
    pub fn add_variant(self, variant: Variant) -> (r: TEnum)
        ensures
            r.spec_variants() == self.spec_variants().push(variant),
            r.spec_meta() == self.spec_meta(),
    {
        let mut result = self;
        result.variants.push(variant);
        result
    }

    /// The first variant with the given name, and its ordinal.
    pub fn variant_by_id(&self, id: &Identifier) -> (r: Option<(u32, &Variant)>)
        requires
            self.spec_variants().len() <= u32::MAX,
        ensures
            r matches Some((ordinal, variant)) ==> {
                &&& ordinal < self.spec_variants().len()
                &&& *variant == self.spec_variants()[ordinal as int]
                &&& variant.spec_name().view() == id.view()
                &&& forall|j: int|
                    0 <= j < ordinal ==> (#[trigger] self.spec_variants()[j]).spec_name().view()
                        != id.view()
            },
            r is None ==> forall|j: int|
                0 <= j < self.spec_variants().len() ==> (#[trigger] self.spec_variants()[j]).spec_name().view()
                    != id.view(),
    {
        let n = self.variants.len();
        let mut ordinal: usize = 0;
        while ordinal < n
            invariant
                0 <= ordinal <= n,
                n == self.variants@.len(),
                n <= u32::MAX,
                forall|j: int|
                    0 <= j < ordinal ==> (#[trigger] self.variants@[j]).spec_name().view()
                        != id.view(),
            decreases n - ordinal,
        {
            let variant = &self.variants[ordinal];
            if variant.name.is_equal(id) {
                return Some((ordinal as u32, variant));
            }
            ordinal += 1;
        }
        None
    }

    /// The embedded type references: the values of all variants, in order.
    pub open spec fn spec_refs(&self) -> Seq<TypeRef> {
        variants_refs(self.spec_variants())
    }

    /// Finds the variant holding reference `index` and the position within that variant.
    fn find_type_by_index(&self, index: usize) -> (r: Option<(usize, usize)>)
        ensures
            r matches Some((vi, k)) ==> {
                &&& vi < self.spec_variants().len()
                &&& k < self.spec_variants()[vi as int].spec_values().len()
                &&& index == variants_refs(self.spec_variants().take(vi as int)).len() + k
                &&& index < self.spec_refs().len()
                &&& self.spec_refs()[index as int] == self.spec_variants()[vi as int].spec_values()[k as int]
            },
            r is None ==> index >= self.spec_refs().len(),
    {
        let n = self.variants.len();
        let mut current: usize = 0;
        let mut variant_index: usize = 0;
        assert(self.variants@.take(0) =~= Seq::<Variant>::empty());
        while variant_index < n
            invariant
                0 <= variant_index <= n,
                n == self.variants@.len(),
                current == variants_refs(self.variants@.take(variant_index as int)).len(),
                current <= index,
            decreases n - variant_index,
        {
            let ghost before = self.variants@.take(variant_index as int);
            let ghost after = self.variants@.take(variant_index + 1);
            assert(after.drop_last() =~= before);
            let len = self.variants[variant_index].values().len();
            if index - current < len {
                proof {
                    lemma_variants_refs_prefix(self.variants@, variant_index + 1);
                    assert(variants_refs(after)[index as int] == self.variants@[variant_index as int].spec_values()[index - current]);
                }
                return Some((variant_index, index - current));
            }
            current = current + len;
            variant_index += 1;
        }
        assert(self.variants@.take(n as int) =~= self.variants@);
        None
    }

    /// The embedded reference at `index` (`None` past the last one).
    pub fn reference(&self, index: usize) -> (r: Option<TypeRef>)
        ensures
            index < self.spec_refs().len() ==> r == Some(self.spec_refs()[index as int]),
            index >= self.spec_refs().len() ==> r is None,
    {
        match self.find_type_by_index(index) {
            Some((variant_index, index_in_variant)) => {
                Some(self.variants[variant_index].values()[index_in_variant])
            },
            None => None,
        }
    }

    /// Replaces the embedded reference at `index`.
    pub fn set_reference(&mut self, index: usize, type_ref: TypeRef) -> (r: Result<(), LqError>)
        ensures
            final(self).spec_meta() == old(self).spec_meta(),
            final(self).spec_variants().len() == old(self).spec_variants().len(),
            forall|i: int|
                0 <= i < old(self).spec_variants().len() ==> #[trigger] final(self).spec_variants()[i].spec_name() == old(self).spec_variants()[i].spec_name(),
            index < old(self).spec_refs().len() ==> (r is Ok && final(self).spec_refs()
                == old(self).spec_refs().update(index as int, type_ref)),
            index >= old(self).spec_refs().len() ==> (r == Err::<(), LqError>(
                LqError::NoSuchReference,
            ) && *final(self) == *old(self)),
    {
        match self.find_type_by_index(index) {
            Some((variant_index, index_in_variant)) => {
                let ghost old_variants = self.variants@;
                let variant = self.variants.remove(variant_index);
                let changed = variant.with_value_at(index_in_variant, type_ref);
                self.variants.insert(variant_index, changed);
                proof {
                    assert(self.variants@ =~= old_variants.update(variant_index as int, changed));
                    lemma_variants_refs_update(old_variants, variant_index as int, changed);
                    let before = variants_refs(old_variants.take(variant_index as int)).len();
                    let old_refs = variants_refs(old_variants);
                    let new_refs = variants_refs(self.variants@);
                    assert forall|p: int| 0 <= p < old_refs.len() implies #[trigger] new_refs[p]
                        == old_refs.update(index as int, type_ref)[p] by {
                        if before <= p < before + changed.spec_values().len() {
                            let kk = p - before;
                            assert(new_refs[before + kk] == changed.spec_values()[kk]);
                            if kk != index_in_variant {
                                lemma_variants_refs_at(old_variants, variant_index as int, kk);
                            }
                        }
                    }
                    assert(self.spec_refs() =~= old(self).spec_refs().update(index as int, type_ref));
                }
                Ok(())
            },
            None => Err(LqError::NoSuchReference),
        }
    }
}

impl WithMetadata for TEnum {
    closed spec fn spec_meta(&self) -> Meta {
        self.meta
    }

    closed spec fn spec_with_meta(self, meta: Meta) -> Self {
        TEnum { meta, ..self }
    }

    fn meta(&self) -> (r: &Meta) {
        &self.meta
    }

    proof fn lemma_meta_lens(self, m1: Meta, m2: Meta) {
    }
}

impl MetadataSetter for TEnum {
    fn set_meta(&mut self, meta: Meta) {
        self.meta = meta;
    }

    fn with_meta(self, meta: Meta) -> (r: Self) {
        let mut result = self;
        result.meta = meta;
        result
    }

    fn with_doc(self, doc: String) -> (r: Self) {
        let mut result = self;
        result.meta = Meta { doc: Some(doc), implements: result.meta.implements };
        result
    }
}

} // verus!
