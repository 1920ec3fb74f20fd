//! Building a type container: types are added under identifiers and refer to each other by
//! the references `add` returns (their positions in the order of adding); `finish` sorts the
//! types by identifier and renumbers the references to match.
use vstd::prelude::*;
use crate::any_type::{AnyType, same_apart_from_refs};
use crate::error::LqError;
use crate::id_order::{ident_order, lemma_ident_order};
use crate::identifier::{Identifier, name};
use crate::schema_core::{Cmp, TypeRef};
use crate::boolean::TBool;
use crate::type_container::{DefaultTypeContainer, entry_identifier, entry_type};
use crate::type_eq::{is_same_type, same_type};
use crate::validation::type_wf;

verus! {

/// An added type: the segments of its identifier and the type.
pub type Entry = (Seq<Seq<char>>, AnyType);

/// No identifier occurs twice.
pub open spec fn ids_unique(entries: Seq<Entry>) -> bool {
    forall|i: int, j: int| 0 <= i < j < entries.len() ==> #[trigger] entries[i].0 != #[trigger] entries[j].0
}

/// Every added type can be validated (see `type_wf`).
pub open spec fn entries_wf(entries: Seq<Entry>) -> bool {
    forall|i: int| 0 <= i < entries.len() ==> type_wf(#[trigger] entries[i].1)
}

/// Every reference of the type points to one of the first `n` types (and there are no more
/// references than a `usize` can count).
pub open spec fn refs_within(t: AnyType, n: nat) -> bool {
    &&& t.spec_refs().len() <= usize::MAX
    &&& forall|m: int| 0 <= m < t.spec_refs().len() ==> (#[trigger] t.spec_refs()[m]).0 < n
}

/// Every reference of every added type points to an added type.
pub open spec fn refs_closed(entries: Seq<Entry>) -> bool {
    forall|j: int| 0 <= j < entries.len() ==> refs_within(#[trigger] entries[j].1, entries.len())
}

/// `new` is `old` with at most `k` entries appended, and appending kept the types valid and
/// the references closed where they were.
pub open spec fn grows(old: Seq<Entry>, new: Seq<Entry>, k: int) -> bool {
    &&& old.len() <= new.len() <= old.len() + k
    &&& forall|i: int| 0 <= i < old.len() ==> #[trigger] new[i] == old[i]
    &&& entries_wf(old) ==> entries_wf(new)
    &&& refs_closed(old) ==> refs_closed(new)
}

/// `b` is `a` with every reference `r` replaced by `pos[r]`.
pub open spec fn renumbered(a: AnyType, b: AnyType, pos: Seq<u32>) -> bool {
    &&& same_apart_from_refs(a, b)
    &&& b.spec_refs().len() == a.spec_refs().len()
    &&& forall|m: int|
        0 <= m < a.spec_refs().len() ==> #[trigger] b.spec_refs()[m] == TypeRef(
            pos[a.spec_refs()[m].0 as int],
        )
}

proof fn lemma_same_apart_transitive(a: AnyType, b: AnyType, c: AnyType)
    requires
        same_apart_from_refs(a, b),
        same_apart_from_refs(b, c),
    ensures
        same_apart_from_refs(a, c),
{
    match (a, b, c) {
        (AnyType::Enum(x), AnyType::Enum(y), AnyType::Enum(z)) => {
            assert forall|i: int| 0 <= i < x.spec_variants().len() implies #[trigger] z.spec_variants()[i].spec_name()
                == x.spec_variants()[i].spec_name() by {
                assert(y.spec_variants()[i].spec_name() == x.spec_variants()[i].spec_name());
            }
        },
        (AnyType::Struct(x), AnyType::Struct(y), AnyType::Struct(z)) => {
            assert forall|i: int| 0 <= i < x.spec_fields().len() implies #[trigger] z.spec_fields()[i].spec_name()
                == x.spec_fields()[i].spec_name() by {
                assert(y.spec_fields()[i].spec_name() == x.spec_fields()[i].spec_name());
            }
        },
        _ => {},
    }
}

/// Replaces every reference `r` of the type by `pos[r]`; `TypeNotFound` (with the type
/// partly renumbered) if a reference is not below the length of `pos`.
fn renumber_refs(t: &mut AnyType, pos: &Vec<u32>) -> (r: Result<(), LqError>)
    ensures
        same_apart_from_refs(*old(t), *final(t)),
        refs_within(*old(t), pos@.len()) ==> (r is Ok && renumbered(*old(t), *final(t), pos@)),
        !refs_within(*old(t), pos@.len()) ==> r == Err::<(), LqError>(LqError::TypeNotFound),
{
    let ghost orig = *t;
    let mut index: usize = 0;
    loop
        invariant
            orig == *old(t),
            index <= orig.spec_refs().len(),
            same_apart_from_refs(orig, *t),
            t.spec_refs().len() == orig.spec_refs().len(),
            forall|m: int| 0 <= m < index ==> (#[trigger] orig.spec_refs()[m]).0 < pos@.len(),
            forall|m: int|
                0 <= m < index ==> #[trigger] t.spec_refs()[m] == TypeRef(
                    pos@[orig.spec_refs()[m].0 as int],
                ),
            forall|m: int| index <= m < orig.spec_refs().len() ==> #[trigger] t.spec_refs()[m] == orig.spec_refs()[m],
        decreases orig.spec_refs().len() - index,
    {
        match t.reference(index) {
            None => {
                assert(renumbered(orig, *t, pos@));
                return Ok(());
            },
            Some(reference) => {
                let target = reference.0 as usize;
                if target >= pos.len() || index == usize::MAX {
                    assert(!refs_within(orig, pos@.len()));
                    return Err(LqError::TypeNotFound);
                }
                let ghost before = *t;
                let _ = t.set_reference(index, TypeRef(pos[target]));
                proof {
                    lemma_same_apart_transitive(orig, before, *t);
                }
                index += 1;
            },
        }
    }
}

/// `order` lists every position of `entries` once, sorted by identifier (strictly
/// ascending).
pub open spec fn sorted_positions(entries: Seq<Entry>, order: Seq<usize>) -> bool {
    &&& order.len() == entries.len()
    &&& forall|k: int| 0 <= k < order.len() ==> (#[trigger] order[k]) < entries.len()
    &&& forall|k1: int, k2: int|
        0 <= k1 < k2 < order.len() ==> ident_order(
            entries[#[trigger] order[k1] as int].0,
            entries[#[trigger] order[k2] as int].0,
        ) == Cmp::Less
    &&& forall|j: int| 0 <= j < entries.len() ==> #[trigger] listed(order, j)
}

/// `b` is `a` with every reference `r` replaced by the position at which `order` lists `r`.
pub open spec fn renumbered_by(a: AnyType, b: AnyType, order: Seq<usize>) -> bool {
    &&& same_apart_from_refs(a, b)
    &&& b.spec_refs().len() == a.spec_refs().len()
    &&& forall|m: int|
        0 <= m < a.spec_refs().len() ==> (#[trigger] b.spec_refs()[m]).0 < order.len()
            && order[b.spec_refs()[m].0 as int] == a.spec_refs()[m].0
}

/// Every reference of the added types and of the root type points to an added type.
pub open spec fn refs_closed_with(entries: Seq<Entry>, root: AnyType) -> bool {
    refs_closed(entries) && refs_within(root, entries.len())
}

/// `c` holds the added `entries` in the order `order` sorted them into, each with its
/// identifier, and with its references and those of the root type renumbered accordingly.
pub open spec fn finished(
    entries: Seq<Entry>,
    root: AnyType,
    order: Seq<usize>,
    c: DefaultTypeContainer,
) -> bool {
    &&& sorted_positions(entries, order)
    &&& c.spec_types().len() == entries.len()
    &&& c.spec_identifiers().len() == entries.len()
    &&& forall|k: int|
        0 <= k < entries.len() ==> (#[trigger] c.spec_identifiers()[k]).view()
            == entries[order[k] as int].0
    &&& forall|k: int|
        0 <= k < entries.len() ==> renumbered_by(
            entries[order[k] as int].1,
            #[trigger] c.spec_types()[k],
            order,
        )
    &&& renumbered_by(root, c.spec_root(), order)
}

/// When `pos` gives each listed position its place in `order`, `order` takes each position
/// back to itself.
proof fn lemma_positions(e: Seq<Entry>, order: Seq<usize>, pos: Seq<u32>)
    requires
        sorted_positions(e, order),
        pos.len() == e.len(),
        forall|q: int| 0 <= q < order.len() ==> pos[#[trigger] order[q] as int] == q,
    ensures
        forall|x: int| 0 <= x < e.len() ==> (#[trigger] pos[x]) < e.len() && order[pos[x] as int] == x,
{
    assert forall|x: int| 0 <= x < e.len() implies (#[trigger] pos[x]) < e.len() && order[pos[x] as int] == x by {
        assert(listed(order, x));
        let q = choose|q: int| 0 <= q < order.len() && #[trigger] order[q] == x;
        assert(0 <= q < order.len());
        assert(order[q] == x);
        assert(pos[order[q] as int] == q);
        assert(pos[x] == q);
        assert(order[pos[x] as int] == x);
    }
}

/// `j` occurs in `order`.
pub open spec fn listed(order: Seq<usize>, j: int) -> bool {
    exists|k: int| 0 <= k < order.len() && #[trigger] order[k] == j
}

/// Collects types under identifiers.
pub struct DefaultSchemaBuilder {
    types: Vec<(Identifier, AnyType)>,
}

/// An added type as the pair of its identifier's segments and the type.
pub open spec fn entry_view(e: (Identifier, AnyType)) -> Entry {
    (e.0.view(), e.1)
}

impl DefaultSchemaBuilder {
    /// The added types, in the order they were added.
    pub closed spec fn view(&self) -> Seq<Entry> {
        self.types@.map_values(|e: (Identifier, AnyType)| entry_view(e))
    }

    /// No identifier is filed twice.
    #[verifier::type_invariant]
    pub closed spec fn builder_wf(self) -> bool {
        ids_unique(self@)
    }

    /// A builder without types.
    pub fn new() -> (r: DefaultSchemaBuilder)
        ensures
            r@ == Seq::<Entry>::empty(),
    {
        let r = DefaultSchemaBuilder { types: Vec::new() };
        assert(r@ =~= Seq::<Entry>::empty());
        r
    }

    /// The number of added types.
    pub fn len(&self) -> (r: usize)
        ensures
            r == self@.len(),
    {
        self.types.len()
    }

    /// The reference to the type filed under the given identifier, if there is one.
    pub fn find(&self, id: &Identifier) -> (r: Option<TypeRef>)
        requires
            self@.len() <= u32::MAX,
        ensures
            r matches Some(t) ==> t.0 < self@.len() && self@[t.0 as int].0 == id.view()
                && forall|j: int| 0 <= j < t.0 ==> #[trigger] self@[j].0 != id.view(),
            r is None ==> forall|j: int| 0 <= j < self@.len() ==> #[trigger] self@[j].0 != id.view(),
    {
        let mut i: usize = 0;
        while i < self.types.len()
            invariant
                0 <= i <= self.types@.len(),
                self.types@.len() == self@.len(),
                self@.len() <= u32::MAX,
                forall|j: int| 0 <= j < i ==> #[trigger] self@[j].0 != id.view(),
            decreases self.types@.len() - i,
        {
            assert(self@[i as int] == entry_view(self.types@[i as int]));
            if self.types[i].0.is_equal(id) {
                return Some(TypeRef(i as u32));
            }
            i += 1;
        }
        None
    }

    /// Adds a type under an identifier and returns the reference to it. When a type is
    /// already filed under the identifier, nothing is added: if it is the same type (see
    /// `same_type`) its reference is returned, otherwise `DuplicateIdentifier`.
    pub fn add(&mut self, id: Identifier, t: AnyType) -> (r: Result<TypeRef, LqError>)
        requires
            old(self)@.len() < u32::MAX,
        ensures
            (forall|j: int| 0 <= j < old(self)@.len() ==> old(self)@[j].0 != id.view()) ==> (r
                == Ok::<TypeRef, LqError>(TypeRef(old(self)@.len() as u32)) && final(self)@
                == old(self)@.push((id.view(), t))),
            forall|j: int|
                0 <= j < old(self)@.len() && #[trigger] old(self)@[j].0 == id.view() ==> (
                final(self)@ == old(self)@ && (same_type(old(self)@[j].1, t) ==> r == Ok::<
                    TypeRef,
                    LqError,
                >(TypeRef(j as u32))) && (!same_type(old(self)@[j].1, t) ==> r == Err::<
                    TypeRef,
                    LqError,
                >(LqError::DuplicateIdentifier))),
    {
        proof {
            use_type_invariant(&*self);
        }
        match self.find(&id) {
            Some(existing) => {
                proof {
                    assert(self@[existing.0 as int] == entry_view(self.types@[existing.0 as int]));
                    assert forall|j: int|
                        0 <= j < self@.len() && #[trigger] self@[j].0 == id.view() implies j
                        == existing.0 by {
                        if j < existing.0 {
                        } else if j > existing.0 {
                            assert(self@[existing.0 as int].0 != self@[j].0);
                        }
                    }
                }
                if is_same_type(&self.types[existing.0 as usize].1, &t) {
                    Ok(existing)
                } else {
                    Err(LqError::DuplicateIdentifier)
                }
            },
            None => {
                let index = self.types.len() as u32;
                let ghost e = (id.view(), t);
                let ghost before = self@;
                let mut taken = DefaultSchemaBuilder { types: Vec::new() };
                proof {
                    assert(taken@ =~= Seq::<Entry>::empty());
                }
                std::mem::swap(self, &mut taken);
                let DefaultSchemaBuilder { mut types } = taken;
                types.push((id, t));
                proof {
                    let after = types@.map_values(|x: (Identifier, AnyType)| entry_view(x));
                    assert(after =~= before.push(e));
                    assert forall|a: int, c: int| 0 <= a < c < after.len() implies #[trigger] after[a].0
                        != #[trigger] after[c].0 by {
                        if c == before.len() {
                            assert(before[a].0 != id.view());
                        } else {
                            assert(before[a].0 != before[c].0);
                        }
                    }
                }
                let next = DefaultSchemaBuilder { types };
                proof {
                    assert(next@ =~= before.push(e));
                }
                *self = next;
                Ok(TypeRef(index))
            },
        }
    }

    /// The positions of the added types sorted by identifier; `DuplicateIdentifier` exactly
    /// when two types were added under the same identifier.
    fn sorted_positions(&self) -> (r: Result<Vec<usize>, LqError>)
        ensures
            ids_unique(self@) ==> (r matches Ok(order) && sorted_positions(self@, order@)),
            !ids_unique(self@) ==> r == Err::<Vec<usize>, LqError>(LqError::DuplicateIdentifier),
    {
        proof {
            lemma_ident_order();
        }
        let ghost e = self@;
        let n = self.types.len();
        let mut order: Vec<usize> = Vec::new();
        let mut i: usize = 0;
        while i < n
            invariant
                0 <= i <= n,
                n == self.types@.len(),
                e == self@,
                e.len() == n,
                order@.len() == i,
                forall|k: int| 0 <= k < i ==> (#[trigger] order@[k]) < i,
                forall|k1: int, k2: int|
                    0 <= k1 < k2 < i ==> ident_order(
                        e[#[trigger] order@[k1] as int].0,
                        e[#[trigger] order@[k2] as int].0,
                    ) == Cmp::Less,
                forall|j: int| 0 <= j < i ==> #[trigger] listed(order@, j),
                forall|a: Seq<Seq<char>>, b: Seq<Seq<char>>|
                    (#[trigger] ident_order(a, b) == Cmp::Equal <==> a == b) && (ident_order(a, b)
                        == Cmp::Less <==> ident_order(b, a) == Cmp::Greater),
                forall|a: Seq<Seq<char>>, b: Seq<Seq<char>>, d: Seq<Seq<char>>|
                    #[trigger] ident_order(a, b) == Cmp::Less && #[trigger] ident_order(b, d)
                        == Cmp::Less ==> ident_order(a, d) == Cmp::Less,
            decreases n - i,
        {
            let mut p: usize = 0;
            loop
                invariant
                    0 <= p <= order@.len(),
                    order@.len() == i,
                    i < n,
                    n == self.types@.len(),
                    e == self@,
                    e.len() == n,
                    forall|k: int| 0 <= k < i ==> (#[trigger] order@[k]) < i,
                    forall|q: int| 0 <= q < p ==> ident_order(e[#[trigger] order@[q] as int].0, e[i as int].0) == Cmp::Less,
                    forall|a: Seq<Seq<char>>, b: Seq<Seq<char>>|
                        (#[trigger] ident_order(a, b) == Cmp::Equal <==> a == b) && (ident_order(a, b)
                            == Cmp::Less <==> ident_order(b, a) == Cmp::Greater),
                ensures
                    0 <= p <= order@.len(),
                    forall|q: int| 0 <= q < p ==> ident_order(e[#[trigger] order@[q] as int].0, e[i as int].0) == Cmp::Less,
                    p < order@.len() ==> ident_order(e[order@[p as int] as int].0, e[i as int].0)
                        == Cmp::Greater,
                decreases order@.len() - p,
            {
                if p == order.len() {
                    break;
                }
                let j = order[p];
                assert(e[j as int] == entry_view(self.types@[j as int]));
                assert(e[i as int] == entry_view(self.types@[i as int]));
                match self.types[j].0.compare(&self.types[i].0) {
                    Cmp::Less => {
                        p += 1;
                    },
                    Cmp::Equal => {
                        assert(e[j as int].0 == e[i as int].0);
                        assert(!ids_unique(e));
                        return Err(LqError::DuplicateIdentifier);
                    },
                    Cmp::Greater => {
                        break;
                    },
                }
            }
            let ghost before = order@;
            order.insert(p, i);
            proof {
                let after = order@;
                assert(after == before.insert(p as int, i));
                assert forall|k: int| 0 <= k < i + 1 implies (#[trigger] after[k]) < i + 1 by {
                    if k < p {
                        assert(after[k] == before[k]);
                    } else if k > p {
                        assert(after[k] == before[k - 1]);
                    }
                }
                assert forall|k1: int, k2: int|
                    0 <= k1 < k2 < i + 1 implies ident_order(
                    e[#[trigger] after[k1] as int].0,
                    e[#[trigger] after[k2] as int].0,
                ) == Cmp::Less by {
                    if p < before.len() {
                        assert(ident_order(e[before[p as int] as int].0, e[i as int].0) != Cmp::Less);
                        assert(ident_order(e[before[p as int] as int].0, e[i as int].0) != Cmp::Equal);
                    }
                    if k1 < p {
                        assert(after[k1] == before[k1]);
                        if k2 < p {
                            assert(after[k2] == before[k2]);
                        } else if k2 > p {
                            assert(after[k2] == before[k2 - 1]);
                            assert(ident_order(e[before[k1] as int].0, e[i as int].0) == Cmp::Less);
                            assert(ident_order(e[i as int].0, e[before[p as int] as int].0) == Cmp::Less);
                            if k2 - 1 > p {
                                assert(ident_order(e[before[p as int] as int].0, e[before[k2 - 1] as int].0) == Cmp::Less);
                            }
                        }
                    } else if k1 == p {
                        assert(after[k1] == i);
                        assert(after[k2] == before[k2 - 1]);
                        assert(ident_order(e[i as int].0, e[before[p as int] as int].0) == Cmp::Less);
                        if k2 - 1 > p {
                            assert(ident_order(e[before[p as int] as int].0, e[before[k2 - 1] as int].0) == Cmp::Less);
                        }
                    } else {
                        assert(after[k1] == before[k1 - 1]);
                        assert(after[k2] == before[k2 - 1]);
                    }
                }
                assert forall|j: int| 0 <= j < i + 1 implies #[trigger] listed(after, j) by {
                    if j == i {
                        assert(after[p as int] == j);
                    } else {
                        assert(listed(before, j));
                        let k = choose|k: int| 0 <= k < before.len() && #[trigger] before[k] == j;
                        if k < p {
                            assert(after[k] == j);
                        } else {
                            assert(after[k + 1] == j);
                        }
                    }
                }
            }
            i += 1;
        }
        proof {
            assert forall|a: int, b: int| 0 <= a < b < e.len() implies #[trigger] e[a].0 != #[trigger] e[b].0 by {
                assert(listed(order@, a));
                assert(listed(order@, b));
                let ka = choose|k: int| 0 <= k < order@.len() && #[trigger] order@[k] == a;
                let kb = choose|k: int| 0 <= k < order@.len() && #[trigger] order@[k] == b;
                if ka < kb {
                    assert(ident_order(e[order@[ka] as int].0, e[order@[kb] as int].0) == Cmp::Less);
                } else {
                    assert(ka != kb);
                    assert(ident_order(e[order@[kb] as int].0, e[order@[ka] as int].0) == Cmp::Less);
                }
            }
        }
        Ok(order)
    }

    /// The container of the added types, sorted by identifier, with every reference (the
    /// position of a type in the order of adding) replaced by the position of that type in
    /// the container, and the root type renumbered the same way; `TypeNotFound` exactly when a
    /// reference points to no added type.
    pub fn finish(self, root: AnyType) -> (r: Result<DefaultTypeContainer, LqError>)
        requires
            self@.len() <= u32::MAX,
        ensures
            !refs_closed_with(self@, root) ==> r == Err::<DefaultTypeContainer, LqError>(
                LqError::TypeNotFound,
            ),
            refs_closed_with(self@, root) ==> (r matches Ok(c) && exists|order: Seq<usize>|
                #[trigger] finished(self@, root, order, c)),
    {
        proof {
            use_type_invariant(&self);
        }
        let ghost e = self@;
        let order = match self.sorted_positions() {
            Ok(order) => order,
            Err(err) => {
                return Err(err);
            },
        };
        proof {
            lemma_ident_order();
            assert(ids_unique(e));
        }
        let n = self.types.len();
        // The position of each type in the result.
        let mut pos: Vec<u32> = Vec::new();
        let mut j: usize = 0;
        while j < n
            invariant
                0 <= j <= n,
                pos@.len() == j,
            decreases n - j,
        {
            pos.push(0);
            j += 1;
        }
        let mut k: usize = 0;
        while k < n
            invariant
                0 <= k <= n,
                n <= u32::MAX,
                pos@.len() == n,
                e.len() == n,
                sorted_positions(e, order@),
                forall|a: Seq<Seq<char>>, b: Seq<Seq<char>>|
                    (#[trigger] ident_order(a, b) == Cmp::Equal <==> a == b) && (ident_order(a, b)
                        == Cmp::Less <==> ident_order(b, a) == Cmp::Greater),
                forall|q: int| 0 <= q < k ==> pos@[#[trigger] order@[q] as int] == q,
            decreases n - k,
        {
            let ghost before = pos@;
            pos.set(order[k], k as u32);
            proof {
                assert forall|q: int| 0 <= q < k + 1 implies pos@[#[trigger] order@[q] as int] == q by {
                    if q < k {
                        assert(order@[q] != order@[k as int]) by {
                            assert(ident_order(e[order@[q] as int].0, e[order@[k as int] as int].0)
                                == Cmp::Less);
                        }
                        assert(pos@[order@[q] as int] == before[order@[q] as int]);
                    }
                }
            }
            k += 1;
        }
        proof {
            lemma_positions(e, order@, pos@);
        }
        let ghost orig = self.types@;
        assert(forall|x: int| 0 <= x < n ==> e[x] == entry_view(#[trigger] orig[x]));
        let mut types = self.types;
        let mut result: Vec<(Identifier, AnyType)> = Vec::new();
        let mut k: usize = 0;
        while k < n
            invariant
                0 <= k <= n,
                e.len() == n,
                orig.len() == n,
                forall|x: int| 0 <= x < n ==> e[x] == entry_view(#[trigger] orig[x]),
                types@.len() == n,
                sorted_positions(e, order@),
                pos@.len() == n,
                forall|x: int| 0 <= x < n ==> (#[trigger] pos@[x]) < n && order@[pos@[x] as int] == x,
                forall|a: Seq<Seq<char>>, b: Seq<Seq<char>>|
                    (#[trigger] ident_order(a, b) == Cmp::Equal <==> a == b) && (ident_order(a, b)
                        == Cmp::Less <==> ident_order(b, a) == Cmp::Greater),
                forall|q: int| k <= q < n ==> types@[#[trigger] order@[q] as int] == orig[order@[q] as int],
                ids_unique(e),
                e == self@,
                result@.len() == k,
                forall|q: int|
                    0 <= q < k ==> (#[trigger] result@[q]).0.view() == e[order@[q] as int].0
                        && renumbered(e[order@[q] as int].1, result@[q].1, pos@)
                        && refs_within(e[order@[q] as int].1, n as nat),
            decreases n - k,
        {
            proof {
                reveal_strlit("a");
                reveal_strlit("");
            }
            let mut item = (name("a", "", ""), AnyType::Bool(TBool::default()));
            let ghost before = types@;
            types.set_and_swap(order[k], &mut item);
            proof {
                assert(item == orig[order@[k as int] as int]);
                assert forall|q: int| k + 1 <= q < n implies types@[#[trigger] order@[q] as int] == orig[order@[q] as int] by {
                    assert(order@[q] != order@[k as int]) by {
                        assert(ident_order(e[order@[k as int] as int].0, e[order@[q] as int].0)
                            == Cmp::Less);
                    }
                }
            }
            let (id, mut t) = item;
            match renumber_refs(&mut t, &pos) {
                Ok(()) => {},
                Err(err) => {
                    proof {
                        assert(!refs_within(e[order@[k as int] as int].1, n as nat));
                        assert(!refs_closed(e));
                    }
                    return Err(err);
                },
            }
            result.push((id, t));
            k += 1;
        }
        let ghost root0 = root;
        let mut new_root = root;
        match renumber_refs(&mut new_root, &pos) {
            Ok(()) => {},
            Err(err) => {
                return Err(err);
            },
        }
        let c = DefaultTypeContainer::new(result, new_root);
        proof {
            assert forall|x: int| 0 <= x < n implies refs_within(#[trigger] e[x].1, e.len()) by {
                assert(listed(order@, x));
                let q = choose|q: int| 0 <= q < order@.len() && #[trigger] order@[q] == x;
                assert(result@[q].0.view() == e[order@[q] as int].0);
            }
            assert(refs_closed(e));
            assert forall|q: int| 0 <= q < n implies renumbered_by(
                e[order@[q] as int].1,
                #[trigger] c.spec_types()[q],
                order@,
            ) by {
                let a = e[order@[q] as int].1;
                let b = c.spec_types()[q];
                assert(b == result@[q].1);
                assert(renumbered(a, b, pos@));
                assert forall|m: int| 0 <= m < a.spec_refs().len() implies (#[trigger] b.spec_refs()[m]).0
                    < order@.len() && order@[b.spec_refs()[m].0 as int] == a.spec_refs()[m].0 by {
                    let x = a.spec_refs()[m].0 as int;
                    assert(b.spec_refs()[m] == TypeRef(pos@[x]));
                    assert(x < n);
                    assert(pos@[x] < n && order@[pos@[x] as int] == x);
                }
            }
            assert forall|m: int| 0 <= m < root0.spec_refs().len() implies (#[trigger] new_root.spec_refs()[m]).0
                < order@.len() && order@[new_root.spec_refs()[m].0 as int] == root0.spec_refs()[m].0 by {
                let x = root0.spec_refs()[m].0 as int;
                assert(new_root.spec_refs()[m] == TypeRef(pos@[x]));
                assert(x < n);
                assert(pos@[x] < n && order@[pos@[x] as int] == x);
            }
            assert forall|q: int| 0 <= q < n implies (#[trigger] c.spec_identifiers()[q]).view()
                == e[order@[q] as int].0 by {
                assert(c.spec_identifiers()[q] == result@[q].0);
            }
            assert(finished(e, root0, order@, c));
        }
        let r: Result<DefaultTypeContainer, LqError> = Ok(c);
        assert(finished(self@, root, order@, r->Ok_0));
        r
    }
}

} // verus!
