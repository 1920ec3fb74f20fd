//! Properties of validation that hold for every schema and every value.
use vstd::prelude::*;
use crate::anchors::TAnchors;
use crate::any_type::AnyType;
use crate::compare_laws::{lemma_compare_transitive, lemma_order_bytes_reflexive, same_prefix};
use crate::enumeration::TEnum;
use crate::context::{StateView, pop_key_ref, push_key_ref};
use crate::error::LqError;
use crate::map::{Sorting, TMap};
use crate::root_map::TRootMap;
use crate::schema_core::{Cmp, Config, TypeRef};
use crate::seq::{SeqOrdering, Sorted, TSeq};
use crate::structure::{TStruct, field_refs};
use crate::validation::{
    entry_key, repeat_ref, sorting_error, spec_compare_entries, spec_compare_lex,
    spec_compare_list, spec_compare_ref, spec_compare_type, spec_validate_anchors,
    spec_validate_entries, spec_validate_list, spec_validate_ref, spec_validate_sorted,
    spec_validate_type, wanted_key_order,
};
use crate::value::Value;
use vstd::utf8::encode_utf8;

verus! {

/// The highest referenced anchor index `b` is not below `a`: both absent, or both present
/// and `a <= b`.
pub open spec fn max_used_le(a: Option<u32>, b: Option<u32>) -> bool {
    match (a, b) {
        (None, None) => true,
        (Some(x), Some(y)) => x <= y,
        _ => false,
    }
}

/// A value that validates against a type compares as equal to itself as a value of that type.
pub proof fn lemma_valid_value_equals_itself(
    tys: Seq<AnyType>,
    cfg: Config,
    r: TypeRef,
    v: Value,
    st: StateView,
)
    requires
        spec_validate_ref(tys, cfg, r, v, st) is Ok,
    ensures
        spec_compare_ref(tys, r, v, v) == Ok::<Cmp, LqError>(Cmp::Equal),
{
    valid_ref_facts(tys, cfg, r, v, st);
}

/// Validating a value leaves the stack of maps whose keys can be referenced as it was
/// before: every map pushed while validating is popped again.
pub proof fn lemma_validation_keeps_key_refs(
    tys: Seq<AnyType>,
    cfg: Config,
    r: TypeRef,
    v: Value,
    st: StateView,
)
    requires
        spec_validate_ref(tys, cfg, r, v, st) is Ok,
    ensures
        spec_validate_ref(tys, cfg, r, v, st)->Ok_0.key_refs == st.key_refs,
{
    valid_ref_facts(tys, cfg, r, v, st);
}

proof fn valid_ref_facts(tys: Seq<AnyType>, cfg: Config, r: TypeRef, v: Value, st: StateView)
    requires
        spec_validate_ref(tys, cfg, r, v, st) is Ok,
    ensures
        spec_validate_ref(tys, cfg, r, v, st)->Ok_0.key_refs == st.key_refs,
        spec_compare_ref(tys, r, v, v) == Ok::<Cmp, LqError>(Cmp::Equal),
        max_used_le(
            st.max_used_anchor_index,
            spec_validate_ref(tys, cfg, r, v, st)->Ok_0.max_used_anchor_index,
        ),
    decreases v, 1nat,
{
    valid_type_facts(tys, cfg, tys[r.0 as int], v, st);
}

proof fn valid_type_facts(tys: Seq<AnyType>, cfg: Config, t: AnyType, v: Value, st: StateView)
    requires
        spec_validate_type(tys, cfg, t, v, st) is Ok,
    ensures
        spec_validate_type(tys, cfg, t, v, st)->Ok_0.key_refs == st.key_refs,
        spec_compare_type(tys, t, v, v) == Ok::<Cmp, LqError>(Cmp::Equal),
        max_used_le(
            st.max_used_anchor_index,
            spec_validate_type(tys, cfg, t, v, st)->Ok_0.max_used_anchor_index,
        ),
    decreases v, 0nat,
{
    match t {
        AnyType::Binary(_) => match v {
            Value::Binary(x) => lemma_order_bytes_reflexive(x@),
            _ => {},
        },
        AnyType::Uuid(_) => match v {
            Value::Binary(x) => lemma_order_bytes_reflexive(x@),
            _ => {},
        },
        AnyType::Ascii(_) => match v {
            Value::Unicode(x) => lemma_order_bytes_reflexive(encode_utf8(x@)),
            _ => {},
        },
        AnyType::Unicode(_) => match v {
            Value::Unicode(x) => lemma_order_bytes_reflexive(encode_utf8(x@)),
            _ => {},
        },
        AnyType::Option(o) => match v {
            Value::Present(x) => {
                valid_ref_facts(tys, cfg, o.spec_type_ref(), *x, st);
            },
            _ => {},
        },
        AnyType::Sequence(s) => match v {
            Value::Sequence(items) => {
                assert(decreases_to!(v => items@));
                match s.ordering {
                    SeqOrdering::Unordered => {
                        valid_all_facts(tys, cfg, s.element, items@, 0, st);
                    },
                    SeqOrdering::Sorted(sorted) => {
                        valid_sorted_facts(tys, cfg, s.element, sorted, items@, 0, st);
                    },
                }
            },
            _ => {},
        },
        AnyType::Struct(t) => match v {
            Value::Sequence(items) => {
                assert(decreases_to!(v => items@));
                valid_list_facts(tys, cfg, field_refs(t.spec_fields()), items@, 0, st);
            },
            _ => {},
        },
        AnyType::Enum(e) => match v {
            Value::Enum(ordinal, vals) => {
                assert(decreases_to!(v => vals@));
                valid_list_facts(
                    tys,
                    cfg,
                    e.spec_variants()[ordinal as int].spec_values(),
                    vals@,
                    0,
                    st,
                );
            },
            _ => {},
        },
        AnyType::Mapping(m) => match v {
            Value::Sequence(entries) => {
                assert(decreases_to!(v => entries@));
                let st1 = if m.spec_anchors() {
                    push_key_ref(st, crate::context::KeyRefInfo::spec_new(entries.len() as u32))
                } else {
                    st
                };
                valid_entries_facts(
                    tys,
                    cfg,
                    m.spec_key(),
                    m.spec_value(),
                    m.spec_sorting(),
                    m.spec_anchors(),
                    entries@,
                    0,
                    st1,
                );
                if m.spec_anchors() {
                    assert(st1.key_refs.drop_last() =~= st.key_refs);
                }
            },
            _ => {},
        },
        AnyType::RootMap(m) => match v {
            Value::Sequence(outer) => {
                assert(decreases_to!(v => outer@));
                assert(decreases_to!(outer@ => outer@[0]));
                assert(decreases_to!(outer@ => outer@[1]));
                match outer@[0] {
                    Value::Sequence(entries) => {
                        assert(decreases_to!(outer@[0] => entries@));
                        let st1 = push_key_ref(
                            st,
                            crate::context::KeyRefInfo::spec_new(entries.len() as u32),
                        );
                        valid_entries_facts(
                            tys,
                            cfg,
                            m.spec_key(),
                            m.spec_value(),
                            m.spec_sorting(),
                            true,
                            entries@,
                            0,
                            st1,
                        );
                        let st2 = spec_validate_entries(
                            tys,
                            cfg,
                            m.spec_key(),
                            m.spec_value(),
                            m.spec_sorting(),
                            true,
                            entries@,
                            0,
                            st1,
                        )->Ok_0;
                        valid_ref_facts(tys, cfg, m.spec_root(), outer@[1], st2);
                        assert(st1.key_refs.drop_last() =~= st.key_refs);
                    },
                    _ => {},
                }
            },
            _ => {},
        },
        AnyType::Range(rg) => match v {
            Value::Sequence(items) => {
                assert(decreases_to!(v => items@));
                assert(decreases_to!(items@ => items@[0]));
                assert(decreases_to!(items@ => items@[1]));
                valid_ref_facts(tys, cfg, rg.element, items@[0], st);
                let st1 = spec_validate_ref(tys, cfg, rg.element, items@[0], st)->Ok_0;
                valid_ref_facts(tys, cfg, rg.element, items@[1], st1);
            },
            _ => {},
        },
        AnyType::Anchors(a) => match v {
            Value::Sequence(container) => {
                assert(decreases_to!(v => container@));
                assert(decreases_to!(container@ => container@[0]));
                assert(decreases_to!(container@ => container@[1]));
                let st1 = StateView {
                    anchor_index: Some(0u32),
                    max_used_anchor_index: Some(0u32),
                    ..st
                };
                valid_ref_facts(tys, cfg, a.spec_master(), container@[0], st1);
                let st2 = spec_validate_ref(tys, cfg, a.spec_master(), container@[0], st1)->Ok_0;
                match container@[1] {
                    Value::Sequence(anchors) => {
                        assert(decreases_to!(container@[1] => anchors@));
                        valid_anchors_facts(tys, cfg, a.spec_anchor(), anchors@, 0, st2);
                    },
                    _ => {},
                }
            },
            _ => {},
        },
        _ => {},
    }
}

proof fn valid_list_facts(
    tys: Seq<AnyType>,
    cfg: Config,
    refs: Seq<TypeRef>,
    items: Seq<Value>,
    i: int,
    st: StateView,
)
    requires
        spec_validate_list(tys, cfg, refs, items, i, st) is Ok,
    ensures
        spec_validate_list(tys, cfg, refs, items, i, st)->Ok_0.key_refs == st.key_refs,
        spec_compare_list(tys, refs, items, items, i) == Ok::<Cmp, LqError>(Cmp::Equal),
        max_used_le(
            st.max_used_anchor_index,
            spec_validate_list(tys, cfg, refs, items, i, st)->Ok_0.max_used_anchor_index,
        ),
    decreases items, refs.len() - i,
{
    if 0 <= i < refs.len() {
        assert(decreases_to!(items => items[i]));
        valid_ref_facts(tys, cfg, refs[i], items[i], st);
        let st2 = spec_validate_ref(tys, cfg, refs[i], items[i], st)->Ok_0;
        valid_list_facts(tys, cfg, refs, items, i + 1, st2);
    }
}

proof fn valid_all_facts(
    tys: Seq<AnyType>,
    cfg: Config,
    r: TypeRef,
    items: Seq<Value>,
    i: int,
    st: StateView,
)
    requires
        0 <= i,
        spec_validate_list(tys, cfg, repeat_ref(r, items.len()), items, i, st) is Ok,
    ensures
        spec_validate_list(tys, cfg, repeat_ref(r, items.len()), items, i, st)->Ok_0.key_refs
            == st.key_refs,
        spec_compare_lex(tys, r, items, items, i) == Ok::<Cmp, LqError>(Cmp::Equal),
        max_used_le(
            st.max_used_anchor_index,
            spec_validate_list(
                tys,
                cfg,
                repeat_ref(r, items.len()),
                items,
                i,
                st,
            )->Ok_0.max_used_anchor_index,
        ),
    decreases items, items.len() - i,
{
    if i < items.len() {
        assert(decreases_to!(items => items[i]));
        assert(repeat_ref(r, items.len())[i] == r);
        valid_ref_facts(tys, cfg, r, items[i], st);
        let st2 = spec_validate_ref(tys, cfg, r, items[i], st)->Ok_0;
        valid_all_facts(tys, cfg, r, items, i + 1, st2);
    }
}

proof fn valid_sorted_facts(
    tys: Seq<AnyType>,
    cfg: Config,
    r: TypeRef,
    sorted: Sorted,
    items: Seq<Value>,
    i: int,
    st: StateView,
)
    requires
        0 <= i,
        spec_validate_sorted(tys, cfg, r, sorted, items, i, st) is Ok,
    ensures
        spec_validate_sorted(tys, cfg, r, sorted, items, i, st)->Ok_0.key_refs == st.key_refs,
        spec_compare_lex(tys, r, items, items, i) == Ok::<Cmp, LqError>(Cmp::Equal),
        max_used_le(
            st.max_used_anchor_index,
            spec_validate_sorted(tys, cfg, r, sorted, items, i, st)->Ok_0.max_used_anchor_index,
        ),
    decreases items, items.len() - i,
{
    if i < items.len() {
        assert(decreases_to!(items => items[i]));
        valid_ref_facts(tys, cfg, r, items[i], st);
        let st2 = spec_validate_ref(tys, cfg, r, items[i], st)->Ok_0;
        valid_sorted_facts(tys, cfg, r, sorted, items, i + 1, st2);
    }
}

proof fn valid_entries_facts(
    tys: Seq<AnyType>,
    cfg: Config,
    key: TypeRef,
    value: TypeRef,
    sorting: Sorting,
    anchors: bool,
    entries: Seq<Value>,
    i: int,
    st: StateView,
)
    requires
        0 <= i,
        spec_validate_entries(tys, cfg, key, value, sorting, anchors, entries, i, st) is Ok,
    ensures
        spec_validate_entries(tys, cfg, key, value, sorting, anchors, entries, i, st)->Ok_0.key_refs
            == st.key_refs,
        spec_compare_entries(tys, key, value, entries, entries, i) == Ok::<Cmp, LqError>(
            Cmp::Equal,
        ),
        max_used_le(
            st.max_used_anchor_index,
            spec_validate_entries(
                tys,
                cfg,
                key,
                value,
                sorting,
                anchors,
                entries,
                i,
                st,
            )->Ok_0.max_used_anchor_index,
        ),
    decreases entries, entries.len() - i,
{
    if i < entries.len() {
        match entries[i] {
            Value::Sequence(kv) => {
                assert(decreases_to!(entries => entries[i]));
                assert(decreases_to!(entries[i] => kv@));
                assert(decreases_to!(kv@ => kv@[0]));
                assert(decreases_to!(kv@ => kv@[1]));
                let sk = if anchors {
                    let popped = pop_key_ref(st)->Ok_0;
                    valid_ref_facts(tys, cfg, key, kv@[0], popped);
                    let s = spec_validate_ref(tys, cfg, key, kv@[0], popped)->Ok_0;
                    assert(s.key_refs.push(st.key_refs.last()) =~= st.key_refs);
                    push_key_ref(s, st.key_refs.last())
                } else {
                    valid_ref_facts(tys, cfg, key, kv@[0], st);
                    spec_validate_ref(tys, cfg, key, kv@[0], st)->Ok_0
                };
                valid_ref_facts(tys, cfg, value, kv@[1], sk);
                let sv = spec_validate_ref(tys, cfg, value, kv@[1], sk)->Ok_0;
                valid_entries_facts(tys, cfg, key, value, sorting, anchors, entries, i + 1, sv);
            },
            _ => {},
        }
    }
}

proof fn valid_anchors_facts(
    tys: Seq<AnyType>,
    cfg: Config,
    r: TypeRef,
    anchors: Seq<Value>,
    i: int,
    st: StateView,
)
    requires
        0 <= i,
        spec_validate_anchors(tys, cfg, r, anchors, i, st) is Ok,
    ensures
        spec_validate_anchors(tys, cfg, r, anchors, i, st)->Ok_0.key_refs == st.key_refs,
        spec_compare_lex(tys, r, anchors, anchors, i) == Ok::<Cmp, LqError>(Cmp::Equal),
        max_used_le(
            st.max_used_anchor_index,
            spec_validate_anchors(tys, cfg, r, anchors, i, st)->Ok_0.max_used_anchor_index,
        ),
    decreases anchors, anchors.len() - i,
{
    if i < anchors.len() {
        assert(decreases_to!(anchors => anchors[i]));
        let st1 = StateView { anchor_index: Some((i + 1) as u32), ..st };
        valid_ref_facts(tys, cfg, r, anchors[i], st1);
        let st2 = spec_validate_ref(tys, cfg, r, anchors[i], st1)->Ok_0;
        valid_anchors_facts(tys, cfg, r, anchors, i + 1, st2);
    }
}

/// `strict` rejects at least what `lenient` rejects: it forbids extensions whenever `lenient`
/// does, and it validates references weakly only where `lenient` does.
pub open spec fn config_at_least_as_strict(strict: Config, lenient: Config) -> bool {
    &&& lenient.no_extension ==> strict.no_extension
    &&& strict.weak_reference_validation ==> lenient.weak_reference_validation
}

/// A value that is valid under a configuration is valid under every configuration that is
/// at most as strict, with the same resulting state: allowing extensions and weak reference
/// validation only ever accept more.
pub proof fn lemma_validation_monotonic_in_config(
    tys: Seq<AnyType>,
    strict: Config,
    lenient: Config,
    r: TypeRef,
    v: Value,
    st: StateView,
)
    requires
        config_at_least_as_strict(strict, lenient),
        spec_validate_ref(tys, strict, r, v, st) is Ok,
    ensures
        spec_validate_ref(tys, lenient, r, v, st) == spec_validate_ref(tys, strict, r, v, st),
    decreases v, 1nat,
{
    lenient_type(tys, strict, lenient, tys[r.0 as int], v, st);
}

proof fn lenient_type(
    tys: Seq<AnyType>,
    strict: Config,
    lenient: Config,
    t: AnyType,
    v: Value,
    st: StateView,
)
    requires
        config_at_least_as_strict(strict, lenient),
        spec_validate_type(tys, strict, t, v, st) is Ok,
    ensures
        spec_validate_type(tys, lenient, t, v, st) == spec_validate_type(tys, strict, t, v, st),
    decreases v, 0nat,
{
    match t {
        AnyType::Option(o) => match v {
            Value::Present(x) => {
                lemma_validation_monotonic_in_config(tys, strict, lenient, o.spec_type_ref(), *x, st);
            },
            _ => {},
        },
        AnyType::Sequence(s) => match v {
            Value::Sequence(items) => {
                assert(decreases_to!(v => items@));
                match s.ordering {
                    SeqOrdering::Unordered => {
                        lenient_list(
                            tys,
                            strict,
                            lenient,
                            repeat_ref(s.element, items.len() as nat),
                            items@,
                            0,
                            st,
                        );
                    },
                    SeqOrdering::Sorted(sorted) => {
                        lenient_sorted(tys, strict, lenient, s.element, sorted, items@, 0, st);
                    },
                }
            },
            _ => {},
        },
        AnyType::Struct(t) => match v {
            Value::Sequence(items) => {
                assert(decreases_to!(v => items@));
                lenient_list(tys, strict, lenient, field_refs(t.spec_fields()), items@, 0, st);
            },
            _ => {},
        },
        AnyType::Enum(e) => match v {
            Value::Enum(ordinal, vals) => {
                assert(decreases_to!(v => vals@));
                lenient_list(
                    tys,
                    strict,
                    lenient,
                    e.spec_variants()[ordinal as int].spec_values(),
                    vals@,
                    0,
                    st,
                );
            },
            _ => {},
        },
        AnyType::Mapping(m) => match v {
            Value::Sequence(entries) => {
                assert(decreases_to!(v => entries@));
                let st1 = if m.spec_anchors() {
                    push_key_ref(st, crate::context::KeyRefInfo::spec_new(entries.len() as u32))
                } else {
                    st
                };
                lenient_entries(
                    tys,
                    strict,
                    lenient,
                    m.spec_key(),
                    m.spec_value(),
                    m.spec_sorting(),
                    m.spec_anchors(),
                    entries@,
                    0,
                    st1,
                );
            },
            _ => {},
        },
        AnyType::RootMap(m) => match v {
            Value::Sequence(outer) => {
                assert(decreases_to!(v => outer@));
                assert(decreases_to!(outer@ => outer@[0]));
                assert(decreases_to!(outer@ => outer@[1]));
                match outer@[0] {
                    Value::Sequence(entries) => {
                        assert(decreases_to!(outer@[0] => entries@));
                        let st1 = push_key_ref(
                            st,
                            crate::context::KeyRefInfo::spec_new(entries.len() as u32),
                        );
                        lenient_entries(
                            tys,
                            strict,
                            lenient,
                            m.spec_key(),
                            m.spec_value(),
                            m.spec_sorting(),
                            true,
                            entries@,
                            0,
                            st1,
                        );
                        let st2 = spec_validate_entries(
                            tys,
                            strict,
                            m.spec_key(),
                            m.spec_value(),
                            m.spec_sorting(),
                            true,
                            entries@,
                            0,
                            st1,
                        )->Ok_0;
                        lemma_validation_monotonic_in_config(
                            tys,
                            strict,
                            lenient,
                            m.spec_root(),
                            outer@[1],
                            st2,
                        );
                    },
                    _ => {},
                }
            },
            _ => {},
        },
        AnyType::Range(rg) => match v {
            Value::Sequence(items) => {
                assert(decreases_to!(v => items@));
                assert(decreases_to!(items@ => items@[0]));
                assert(decreases_to!(items@ => items@[1]));
                lemma_validation_monotonic_in_config(tys, strict, lenient, rg.element, items@[0], st);
                let st1 = spec_validate_ref(tys, strict, rg.element, items@[0], st)->Ok_0;
                lemma_validation_monotonic_in_config(tys, strict, lenient, rg.element, items@[1], st1);
            },
            _ => {},
        },
        AnyType::Anchors(a) => match v {
            Value::Sequence(container) => {
                assert(decreases_to!(v => container@));
                assert(decreases_to!(container@ => container@[0]));
                assert(decreases_to!(container@ => container@[1]));
                let st1 = StateView {
                    anchor_index: Some(0u32),
                    max_used_anchor_index: Some(0u32),
                    ..st
                };
                lemma_validation_monotonic_in_config(
                    tys,
                    strict,
                    lenient,
                    a.spec_master(),
                    container@[0],
                    st1,
                );
                let st2 = spec_validate_ref(tys, strict, a.spec_master(), container@[0], st1)->Ok_0;
                match container@[1] {
                    Value::Sequence(anchors) => {
                        assert(decreases_to!(container@[1] => anchors@));
                        lenient_anchors(tys, strict, lenient, a.spec_anchor(), anchors@, 0, st2);
                    },
                    _ => {},
                }
            },
            _ => {},
        },
        _ => {},
    }
}

proof fn lenient_list(
    tys: Seq<AnyType>,
    strict: Config,
    lenient: Config,
    refs: Seq<TypeRef>,
    items: Seq<Value>,
    i: int,
    st: StateView,
)
    requires
        config_at_least_as_strict(strict, lenient),
        spec_validate_list(tys, strict, refs, items, i, st) is Ok,
    ensures
        spec_validate_list(tys, lenient, refs, items, i, st) == spec_validate_list(
            tys,
            strict,
            refs,
            items,
            i,
            st,
        ),
    decreases items, refs.len() - i,
{
    if 0 <= i < refs.len() {
        assert(decreases_to!(items => items[i]));
        lemma_validation_monotonic_in_config(tys, strict, lenient, refs[i], items[i], st);
        let st2 = spec_validate_ref(tys, strict, refs[i], items[i], st)->Ok_0;
        lenient_list(tys, strict, lenient, refs, items, i + 1, st2);
    }
}

proof fn lenient_sorted(
    tys: Seq<AnyType>,
    strict: Config,
    lenient: Config,
    r: TypeRef,
    sorted: Sorted,
    items: Seq<Value>,
    i: int,
    st: StateView,
)
    requires
        config_at_least_as_strict(strict, lenient),
        spec_validate_sorted(tys, strict, r, sorted, items, i, st) is Ok,
    ensures
        spec_validate_sorted(tys, lenient, r, sorted, items, i, st) == spec_validate_sorted(
            tys,
            strict,
            r,
            sorted,
            items,
            i,
            st,
        ),
    decreases items, items.len() - i,
{
    if 0 <= i < items.len() {
        assert(decreases_to!(items => items[i]));
        lemma_validation_monotonic_in_config(tys, strict, lenient, r, items[i], st);
        let st2 = spec_validate_ref(tys, strict, r, items[i], st)->Ok_0;
        lenient_sorted(tys, strict, lenient, r, sorted, items, i + 1, st2);
    }
}

proof fn lenient_entries(
    tys: Seq<AnyType>,
    strict: Config,
    lenient: Config,
    key: TypeRef,
    value: TypeRef,
    sorting: Sorting,
    anchors: bool,
    entries: Seq<Value>,
    i: int,
    st: StateView,
)
    requires
        config_at_least_as_strict(strict, lenient),
        spec_validate_entries(tys, strict, key, value, sorting, anchors, entries, i, st) is Ok,
    ensures
        spec_validate_entries(tys, lenient, key, value, sorting, anchors, entries, i, st)
            == spec_validate_entries(tys, strict, key, value, sorting, anchors, entries, i, st),
    decreases entries, entries.len() - i,
{
    if 0 <= i < entries.len() {
        match entries[i] {
            Value::Sequence(kv) => {
                assert(decreases_to!(entries => entries[i]));
                assert(decreases_to!(entries[i] => kv@));
                assert(decreases_to!(kv@ => kv@[0]));
                assert(decreases_to!(kv@ => kv@[1]));
                let sk = if anchors {
                    let popped = pop_key_ref(st)->Ok_0;
                    lemma_validation_monotonic_in_config(tys, strict, lenient, key, kv@[0], popped);
                    let s = spec_validate_ref(tys, strict, key, kv@[0], popped)->Ok_0;
                    push_key_ref(s, st.key_refs.last())
                } else {
                    lemma_validation_monotonic_in_config(tys, strict, lenient, key, kv@[0], st);
                    spec_validate_ref(tys, strict, key, kv@[0], st)->Ok_0
                };
                lemma_validation_monotonic_in_config(tys, strict, lenient, value, kv@[1], sk);
                let sv = spec_validate_ref(tys, strict, value, kv@[1], sk)->Ok_0;
                lenient_entries(
                    tys,
                    strict,
                    lenient,
                    key,
                    value,
                    sorting,
                    anchors,
                    entries,
                    i + 1,
                    sv,
                );
            },
            _ => {},
        }
    }
}

proof fn lenient_anchors(
    tys: Seq<AnyType>,
    strict: Config,
    lenient: Config,
    r: TypeRef,
    anchors: Seq<Value>,
    i: int,
    st: StateView,
)
    requires
        config_at_least_as_strict(strict, lenient),
        spec_validate_anchors(tys, strict, r, anchors, i, st) is Ok,
    ensures
        spec_validate_anchors(tys, lenient, r, anchors, i, st) == spec_validate_anchors(
            tys,
            strict,
            r,
            anchors,
            i,
            st,
        ),
    decreases anchors, anchors.len() - i,
{
    if 0 <= i < anchors.len() {
        assert(decreases_to!(anchors => anchors[i]));
        let st1 = StateView { anchor_index: Some((i + 1) as u32), ..st };
        lemma_validation_monotonic_in_config(tys, strict, lenient, r, anchors[i], st1);
        let st2 = spec_validate_ref(tys, strict, r, anchors[i], st1)->Ok_0;
        lenient_anchors(tys, strict, lenient, r, anchors, i + 1, st2);
    }
}

/// Element `j` of a sorted sequence is in order with the element before it: they compare
/// successfully, and as the sorting demands.
pub open spec fn neighbours_in_order(
    tys: Seq<AnyType>,
    r: TypeRef,
    sorted: Sorted,
    items: Seq<Value>,
    j: int,
) -> bool {
    &&& spec_compare_ref(tys, r, items[j - 1], items[j]) is Ok
    &&& sorting_error(spec_compare_ref(tys, r, items[j - 1], items[j])->Ok_0, sorted) is None
}

/// The elements of a valid sorted sequence are in order: each element compares with the one
/// before it as the sorting demands (ascending or descending; strictly if the elements have
/// to be unique).
pub proof fn lemma_valid_sorted_sequence_in_order(
    tys: Seq<AnyType>,
    cfg: Config,
    s: TSeq,
    sorted: Sorted,
    items: Vec<Value>,
    st: StateView,
)
    requires
        s.ordering == SeqOrdering::Sorted(sorted),
        spec_validate_type(tys, cfg, AnyType::Sequence(s), Value::Sequence(items), st) is Ok,
    ensures
        forall|j: int|
            0 < j < items@.len() ==> #[trigger] neighbours_in_order(tys, s.element, sorted, items@, j),
{
    sorted_in_order(tys, cfg, s.element, sorted, items@, 0, st);
}

proof fn sorted_in_order(
    tys: Seq<AnyType>,
    cfg: Config,
    r: TypeRef,
    sorted: Sorted,
    items: Seq<Value>,
    i: int,
    st: StateView,
)
    requires
        0 <= i,
        spec_validate_sorted(tys, cfg, r, sorted, items, i, st) is Ok,
    ensures
        forall|j: int|
            i <= j < items.len() && 0 < j ==> #[trigger] neighbours_in_order(tys, r, sorted, items, j),
    decreases items.len() - i,
{
    if i < items.len() {
        let st2 = spec_validate_ref(tys, cfg, r, items[i], st)->Ok_0;
        sorted_in_order(tys, cfg, r, sorted, items, i + 1, st2);
    }
}

/// The key of entry `j` of a map compares with the key of the entry before it as the sorting
/// demands: greater for ascending maps, less for descending ones.
pub open spec fn keys_in_order(
    tys: Seq<AnyType>,
    key: TypeRef,
    sorting: Sorting,
    entries: Seq<Value>,
    j: int,
) -> bool {
    spec_compare_ref(tys, key, entry_key(entries[j]), entry_key(entries[j - 1])) == Ok::<
        Cmp,
        LqError,
    >(wanted_key_order(sorting))
}

/// The keys of a valid map are strictly sorted: each key is greater (ascending map) or less
/// (descending map) than the key before it, so no key occurs twice in a row.
pub proof fn lemma_valid_map_keys_in_order(
    tys: Seq<AnyType>,
    cfg: Config,
    m: TMap,
    entries: Vec<Value>,
    st: StateView,
)
    requires
        spec_validate_type(tys, cfg, AnyType::Mapping(m), Value::Sequence(entries), st) is Ok,
    ensures
        forall|j: int|
            0 < j < entries@.len() ==> #[trigger] keys_in_order(
                tys,
                m.spec_key(),
                m.spec_sorting(),
                entries@,
                j,
            ),
{
    let st1 = if m.spec_anchors() {
        push_key_ref(st, crate::context::KeyRefInfo::spec_new(entries.len() as u32))
    } else {
        st
    };
    entries_in_order(
        tys,
        cfg,
        m.spec_key(),
        m.spec_value(),
        m.spec_sorting(),
        m.spec_anchors(),
        entries@,
        0,
        st1,
    );
}

/// The keys of the entries of a valid root map are strictly sorted (see
/// `lemma_valid_map_keys_in_order`).
pub proof fn lemma_valid_root_map_keys_in_order(
    tys: Seq<AnyType>,
    cfg: Config,
    m: TRootMap,
    outer: Vec<Value>,
    entries: Vec<Value>,
    st: StateView,
)
    requires
        outer@.len() == 2,
        outer@[0] == Value::Sequence(entries),
        spec_validate_type(tys, cfg, AnyType::RootMap(m), Value::Sequence(outer), st) is Ok,
    ensures
        forall|j: int|
            0 < j < entries@.len() ==> #[trigger] keys_in_order(
                tys,
                m.spec_key(),
                m.spec_sorting(),
                entries@,
                j,
            ),
{
    entries_in_order(
        tys,
        cfg,
        m.spec_key(),
        m.spec_value(),
        m.spec_sorting(),
        true,
        entries@,
        0,
        push_key_ref(st, crate::context::KeyRefInfo::spec_new(entries.len() as u32)),
    );
}

proof fn entries_in_order(
    tys: Seq<AnyType>,
    cfg: Config,
    key: TypeRef,
    value: TypeRef,
    sorting: Sorting,
    anchors: bool,
    entries: Seq<Value>,
    i: int,
    st: StateView,
)
    requires
        0 <= i,
        spec_validate_entries(tys, cfg, key, value, sorting, anchors, entries, i, st) is Ok,
    ensures
        forall|j: int|
            i <= j < entries.len() && 0 < j ==> #[trigger] keys_in_order(
                tys,
                key,
                sorting,
                entries,
                j,
            ),
    decreases entries.len() - i,
{
    if i < entries.len() {
        let kv = entries[i]->Sequence_0;
        let sk = if anchors {
            let popped = pop_key_ref(st)->Ok_0;
            let s = spec_validate_ref(tys, cfg, key, kv@[0], popped)->Ok_0;
            push_key_ref(s, st.key_refs.last())
        } else {
            spec_validate_ref(tys, cfg, key, kv@[0], st)->Ok_0
        };
        let sv = spec_validate_ref(tys, cfg, value, kv@[1], sk)->Ok_0;
        entries_in_order(tys, cfg, key, value, sorting, anchors, entries, i + 1, sv);
    }
}

/// Two values that validate against a type can be compared as values of that type: the
/// comparison never fails on valid data.
pub proof fn lemma_valid_values_comparable(
    tys: Seq<AnyType>,
    cfg: Config,
    r: TypeRef,
    a: Value,
    sa: StateView,
    b: Value,
    sb: StateView,
)
    requires
        spec_validate_ref(tys, cfg, r, a, sa) is Ok,
        spec_validate_ref(tys, cfg, r, b, sb) is Ok,
    ensures
        spec_compare_ref(tys, r, a, b) is Ok,
    decreases a, 1nat,
{
    comparable_type(tys, cfg, tys[r.0 as int], a, sa, b, sb);
}

#[verifier::rlimit(40)]
proof fn comparable_type(
    tys: Seq<AnyType>,
    cfg: Config,
    t: AnyType,
    a: Value,
    sa: StateView,
    b: Value,
    sb: StateView,
)
    requires
        spec_validate_type(tys, cfg, t, a, sa) is Ok,
        spec_validate_type(tys, cfg, t, b, sb) is Ok,
    ensures
        spec_compare_type(tys, t, a, b) is Ok,
    decreases a, 0nat,
{
    match t {
        AnyType::Option(o) => match (a, b) {
            (Value::Present(x), Value::Present(y)) => {
                lemma_valid_values_comparable(tys, cfg, o.spec_type_ref(), *x, sa, *y, sb);
            },
            _ => {},
        },
        AnyType::Sequence(s) => match (a, b) {
            (Value::Sequence(x), Value::Sequence(y)) => {
                assert(decreases_to!(a => x@));
                match s.ordering {
                    SeqOrdering::Unordered => {
                        comparable_all(tys, cfg, s.element, x@, sa, y@, sb, 0);
                    },
                    SeqOrdering::Sorted(sorted) => {
                        comparable_sorted(tys, cfg, s.element, sorted, x@, sa, y@, sb, 0);
                    },
                }
            },
            _ => {},
        },
        AnyType::Struct(st) => match (a, b) {
            (Value::Sequence(x), Value::Sequence(y)) => {
                assert(decreases_to!(a => x@));
                comparable_list(tys, cfg, field_refs(st.spec_fields()), x@, sa, y@, sb, 0);
            },
            _ => {},
        },
        AnyType::Enum(e) => match (a, b) {
            (Value::Enum(o1, x), Value::Enum(o2, y)) => {
                if o1 == o2 {
                    assert(decreases_to!(a => x@));
                    comparable_list(
                        tys,
                        cfg,
                        e.spec_variants()[o1 as int].spec_values(),
                        x@,
                        sa,
                        y@,
                        sb,
                        0,
                    );
                }
            },
            _ => {},
        },
        AnyType::Mapping(m) => match (a, b) {
            (Value::Sequence(x), Value::Sequence(y)) => {
                assert(decreases_to!(a => x@));
                let sa1 = if m.spec_anchors() {
                    push_key_ref(sa, crate::context::KeyRefInfo::spec_new(x.len() as u32))
                } else {
                    sa
                };
                let sb1 = if m.spec_anchors() {
                    push_key_ref(sb, crate::context::KeyRefInfo::spec_new(y.len() as u32))
                } else {
                    sb
                };
                comparable_entries(
                    tys,
                    cfg,
                    m.spec_key(),
                    m.spec_value(),
                    m.spec_sorting(),
                    m.spec_anchors(),
                    x@,
                    sa1,
                    y@,
                    sb1,
                    0,
                );
            },
            _ => {},
        },
        AnyType::RootMap(m) => match (a, b) {
            (Value::Sequence(x), Value::Sequence(y)) => {
                assert(decreases_to!(a => x@));
                assert(decreases_to!(x@ => x@[0]));
                assert(decreases_to!(x@ => x@[1]));
                match (x@[0], y@[0]) {
                    (Value::Sequence(ex), Value::Sequence(ey)) => {
                        assert(decreases_to!(x@[0] => ex@));
                        let sa1 = push_key_ref(
                            sa,
                            crate::context::KeyRefInfo::spec_new(ex.len() as u32),
                        );
                        let sb1 = push_key_ref(
                            sb,
                            crate::context::KeyRefInfo::spec_new(ey.len() as u32),
                        );
                        comparable_entries(
                            tys,
                            cfg,
                            m.spec_key(),
                            m.spec_value(),
                            m.spec_sorting(),
                            true,
                            ex@,
                            sa1,
                            ey@,
                            sb1,
                            0,
                        );
                        let sa2 = spec_validate_entries(
                            tys,
                            cfg,
                            m.spec_key(),
                            m.spec_value(),
                            m.spec_sorting(),
                            true,
                            ex@,
                            0,
                            sa1,
                        )->Ok_0;
                        let sb2 = spec_validate_entries(
                            tys,
                            cfg,
                            m.spec_key(),
                            m.spec_value(),
                            m.spec_sorting(),
                            true,
                            ey@,
                            0,
                            sb1,
                        )->Ok_0;
                        lemma_valid_values_comparable(
                            tys,
                            cfg,
                            m.spec_root(),
                            x@[1],
                            sa2,
                            y@[1],
                            sb2,
                        );
                    },
                    _ => {},
                }
            },
            _ => {},
        },
        AnyType::Range(rg) => match (a, b) {
            (Value::Sequence(x), Value::Sequence(y)) => {
                assert(decreases_to!(a => x@));
                assert(decreases_to!(x@ => x@[0]));
                assert(decreases_to!(x@ => x@[1]));
                lemma_valid_values_comparable(tys, cfg, rg.element, x@[0], sa, y@[0], sb);
                let sa1 = spec_validate_ref(tys, cfg, rg.element, x@[0], sa)->Ok_0;
                let sb1 = spec_validate_ref(tys, cfg, rg.element, y@[0], sb)->Ok_0;
                lemma_valid_values_comparable(tys, cfg, rg.element, x@[1], sa1, y@[1], sb1);
            },
            _ => {},
        },
        AnyType::Anchors(an) => match (a, b) {
            (Value::Sequence(x), Value::Sequence(y)) => {
                assert(decreases_to!(a => x@));
                assert(decreases_to!(x@ => x@[0]));
                assert(decreases_to!(x@ => x@[1]));
                let sa1 = StateView {
                    anchor_index: Some(0u32),
                    max_used_anchor_index: Some(0u32),
                    ..sa
                };
                let sb1 = StateView {
                    anchor_index: Some(0u32),
                    max_used_anchor_index: Some(0u32),
                    ..sb
                };
                lemma_valid_values_comparable(tys, cfg, an.spec_master(), x@[0], sa1, y@[0], sb1);
                let sa2 = spec_validate_ref(tys, cfg, an.spec_master(), x@[0], sa1)->Ok_0;
                let sb2 = spec_validate_ref(tys, cfg, an.spec_master(), y@[0], sb1)->Ok_0;
                match (x@[1], y@[1]) {
                    (Value::Sequence(ax), Value::Sequence(ay)) => {
                        assert(decreases_to!(x@[1] => ax@));
                        comparable_anchors(tys, cfg, an.spec_anchor(), ax@, sa2, ay@, sb2, 0);
                    },
                    _ => {},
                }
            },
            _ => {},
        },
        _ => {},
    }
}

proof fn comparable_list(
    tys: Seq<AnyType>,
    cfg: Config,
    refs: Seq<TypeRef>,
    x: Seq<Value>,
    sa: StateView,
    y: Seq<Value>,
    sb: StateView,
    i: int,
)
    requires
        spec_validate_list(tys, cfg, refs, x, i, sa) is Ok,
        spec_validate_list(tys, cfg, refs, y, i, sb) is Ok,
    ensures
        spec_compare_list(tys, refs, x, y, i) is Ok,
    decreases x, refs.len() - i,
{
    if 0 <= i < refs.len() {
        assert(decreases_to!(x => x[i]));
        lemma_valid_values_comparable(tys, cfg, refs[i], x[i], sa, y[i], sb);
        let sa2 = spec_validate_ref(tys, cfg, refs[i], x[i], sa)->Ok_0;
        let sb2 = spec_validate_ref(tys, cfg, refs[i], y[i], sb)->Ok_0;
        comparable_list(tys, cfg, refs, x, sa2, y, sb2, i + 1);
    }
}

proof fn comparable_all(
    tys: Seq<AnyType>,
    cfg: Config,
    r: TypeRef,
    x: Seq<Value>,
    sa: StateView,
    y: Seq<Value>,
    sb: StateView,
    i: int,
)
    requires
        0 <= i,
        spec_validate_list(tys, cfg, repeat_ref(r, x.len()), x, i, sa) is Ok,
        spec_validate_list(tys, cfg, repeat_ref(r, y.len()), y, i, sb) is Ok,
    ensures
        spec_compare_lex(tys, r, x, y, i) is Ok,
    decreases x, x.len() - i,
{
    if i < x.len() && i < y.len() {
        assert(decreases_to!(x => x[i]));
        assert(repeat_ref(r, x.len())[i] == r);
        assert(repeat_ref(r, y.len())[i] == r);
        lemma_valid_values_comparable(tys, cfg, r, x[i], sa, y[i], sb);
        let sa2 = spec_validate_ref(tys, cfg, r, x[i], sa)->Ok_0;
        let sb2 = spec_validate_ref(tys, cfg, r, y[i], sb)->Ok_0;
        comparable_all(tys, cfg, r, x, sa2, y, sb2, i + 1);
    }
}

proof fn comparable_sorted(
    tys: Seq<AnyType>,
    cfg: Config,
    r: TypeRef,
    sorted: Sorted,
    x: Seq<Value>,
    sa: StateView,
    y: Seq<Value>,
    sb: StateView,
    i: int,
)
    requires
        0 <= i,
        spec_validate_sorted(tys, cfg, r, sorted, x, i, sa) is Ok,
        spec_validate_sorted(tys, cfg, r, sorted, y, i, sb) is Ok,
    ensures
        spec_compare_lex(tys, r, x, y, i) is Ok,
    decreases x, x.len() - i,
{
    if i < x.len() && i < y.len() {
        assert(decreases_to!(x => x[i]));
        lemma_valid_values_comparable(tys, cfg, r, x[i], sa, y[i], sb);
        let sa2 = spec_validate_ref(tys, cfg, r, x[i], sa)->Ok_0;
        let sb2 = spec_validate_ref(tys, cfg, r, y[i], sb)->Ok_0;
        comparable_sorted(tys, cfg, r, sorted, x, sa2, y, sb2, i + 1);
    }
}

proof fn comparable_entries(
    tys: Seq<AnyType>,
    cfg: Config,
    key: TypeRef,
    value: TypeRef,
    sorting: Sorting,
    anchors: bool,
    x: Seq<Value>,
    sa: StateView,
    y: Seq<Value>,
    sb: StateView,
    i: int,
)
    requires
        0 <= i,
        spec_validate_entries(tys, cfg, key, value, sorting, anchors, x, i, sa) is Ok,
        spec_validate_entries(tys, cfg, key, value, sorting, anchors, y, i, sb) is Ok,
    ensures
        spec_compare_entries(tys, key, value, x, y, i) is Ok,
    decreases x, x.len() - i,
{
    if i < x.len() && i < y.len() {
        let kx = x[i]->Sequence_0;
        let ky = y[i]->Sequence_0;
        assert(decreases_to!(x => x[i]));
        assert(decreases_to!(x[i] => kx@));
        assert(decreases_to!(kx@ => kx@[0]));
        assert(decreases_to!(kx@ => kx@[1]));
        let (ska, skb) = if anchors {
            let pa = pop_key_ref(sa)->Ok_0;
            let pb = pop_key_ref(sb)->Ok_0;
            lemma_valid_values_comparable(tys, cfg, key, kx@[0], pa, ky@[0], pb);
            let s1 = spec_validate_ref(tys, cfg, key, kx@[0], pa)->Ok_0;
            let s2 = spec_validate_ref(tys, cfg, key, ky@[0], pb)->Ok_0;
            (push_key_ref(s1, sa.key_refs.last()), push_key_ref(s2, sb.key_refs.last()))
        } else {
            lemma_valid_values_comparable(tys, cfg, key, kx@[0], sa, ky@[0], sb);
            (
                spec_validate_ref(tys, cfg, key, kx@[0], sa)->Ok_0,
                spec_validate_ref(tys, cfg, key, ky@[0], sb)->Ok_0,
            )
        };
        lemma_valid_values_comparable(tys, cfg, value, kx@[1], ska, ky@[1], skb);
        let sva = spec_validate_ref(tys, cfg, value, kx@[1], ska)->Ok_0;
        let svb = spec_validate_ref(tys, cfg, value, ky@[1], skb)->Ok_0;
        comparable_entries(tys, cfg, key, value, sorting, anchors, x, sva, y, svb, i + 1);
    }
}

proof fn comparable_anchors(
    tys: Seq<AnyType>,
    cfg: Config,
    r: TypeRef,
    x: Seq<Value>,
    sa: StateView,
    y: Seq<Value>,
    sb: StateView,
    i: int,
)
    requires
        0 <= i,
        spec_validate_anchors(tys, cfg, r, x, i, sa) is Ok,
        spec_validate_anchors(tys, cfg, r, y, i, sb) is Ok,
    ensures
        spec_compare_lex(tys, r, x, y, i) is Ok,
    decreases x, x.len() - i,
{
    if i < x.len() && i < y.len() {
        assert(decreases_to!(x => x[i]));
        let sa1 = StateView { anchor_index: Some((i + 1) as u32), ..sa };
        let sb1 = StateView { anchor_index: Some((i + 1) as u32), ..sb };
        lemma_valid_values_comparable(tys, cfg, r, x[i], sa1, y[i], sb1);
        let sa2 = spec_validate_ref(tys, cfg, r, x[i], sa1)->Ok_0;
        let sb2 = spec_validate_ref(tys, cfg, r, y[i], sb1)->Ok_0;
        comparable_anchors(tys, cfg, r, x, sa2, y, sb2, i + 1);
    }
}

/// Elements `i` and `j` of a sorted sequence are in order with each other: they compare
/// successfully, and as the sorting demands.
pub open spec fn pair_in_order(
    tys: Seq<AnyType>,
    r: TypeRef,
    sorted: Sorted,
    items: Seq<Value>,
    i: int,
    j: int,
) -> bool {
    &&& spec_compare_ref(tys, r, items[i], items[j]) is Ok
    &&& sorting_error(spec_compare_ref(tys, r, items[i], items[j])->Ok_0, sorted) is None
}

/// A valid sorted sequence is sorted as a whole, not only between neighbours: every element
/// compares with every later element as the sorting demands (so a valid unique sequence has
/// no element twice).
pub proof fn lemma_valid_sorted_sequence_sorted(
    tys: Seq<AnyType>,
    cfg: Config,
    s: TSeq,
    sorted: Sorted,
    items: Vec<Value>,
    st: StateView,
)
    requires
        s.ordering == SeqOrdering::Sorted(sorted),
        spec_validate_type(tys, cfg, AnyType::Sequence(s), Value::Sequence(items), st) is Ok,
    ensures
        forall|i: int, j: int|
            0 <= i < j < items@.len() ==> #[trigger] pair_in_order(
                tys,
                s.element,
                sorted,
                items@,
                i,
                j,
            ),
{
    lemma_valid_sorted_sequence_in_order(tys, cfg, s, sorted, items, st);
    assert forall|i: int, j: int| 0 <= i < j < items@.len() implies #[trigger] pair_in_order(
        tys,
        s.element,
        sorted,
        items@,
        i,
        j,
    ) by {
        sorted_pair(tys, s.element, sorted, items@, i, j);
    }
}

proof fn sorted_pair(
    tys: Seq<AnyType>,
    r: TypeRef,
    sorted: Sorted,
    items: Seq<Value>,
    i: int,
    j: int,
)
    requires
        0 <= i < j < items.len(),
        forall|k: int| 0 < k < items.len() ==> #[trigger] neighbours_in_order(tys, r, sorted, items, k),
    ensures
        pair_in_order(tys, r, sorted, items, i, j),
    decreases j - i,
{
    assert(neighbours_in_order(tys, r, sorted, items, j));
    if j > i + 1 {
        sorted_pair(tys, r, sorted, items, i, j - 1);
        lemma_compare_transitive(tys, r, items[i], items[j - 1], items[j]);
    }
}

/// The key of entry `j` of a map compares with the key of the earlier entry `i` as the sorting
/// demands.
pub open spec fn keys_pair_in_order(
    tys: Seq<AnyType>,
    key: TypeRef,
    sorting: Sorting,
    entries: Seq<Value>,
    i: int,
    j: int,
) -> bool {
    spec_compare_ref(tys, key, entry_key(entries[j]), entry_key(entries[i])) == Ok::<
        Cmp,
        LqError,
    >(wanted_key_order(sorting))
}

/// The keys of a valid map are sorted as a whole: every key is greater (ascending map) or
/// less (descending map) than every earlier key, so no key occurs twice.
pub proof fn lemma_valid_map_keys_sorted(
    tys: Seq<AnyType>,
    cfg: Config,
    m: TMap,
    entries: Vec<Value>,
    st: StateView,
)
    requires
        spec_validate_type(tys, cfg, AnyType::Mapping(m), Value::Sequence(entries), st) is Ok,
    ensures
        forall|i: int, j: int|
            0 <= i < j < entries@.len() ==> #[trigger] keys_pair_in_order(
                tys,
                m.spec_key(),
                m.spec_sorting(),
                entries@,
                i,
                j,
            ),
{
    lemma_valid_map_keys_in_order(tys, cfg, m, entries, st);
    assert forall|i: int, j: int| 0 <= i < j < entries@.len() implies #[trigger] keys_pair_in_order(
        tys,
        m.spec_key(),
        m.spec_sorting(),
        entries@,
        i,
        j,
    ) by {
        sorted_keys_pair(tys, m.spec_key(), m.spec_sorting(), entries@, i, j);
    }
}

proof fn sorted_keys_pair(
    tys: Seq<AnyType>,
    key: TypeRef,
    sorting: Sorting,
    entries: Seq<Value>,
    i: int,
    j: int,
)
    requires
        0 <= i < j < entries.len(),
        forall|k: int| 0 < k < entries.len() ==> #[trigger] keys_in_order(tys, key, sorting, entries, k),
    ensures
        keys_pair_in_order(tys, key, sorting, entries, i, j),
    decreases j - i,
{
    assert(keys_in_order(tys, key, sorting, entries, j));
    if j > i + 1 {
        sorted_keys_pair(tys, key, sorting, entries, i, j - 1);
        lemma_compare_transitive(
            tys,
            key,
            entry_key(entries[j]),
            entry_key(entries[j - 1]),
            entry_key(entries[i]),
        );
    }
}

/// Validating a value never lowers the highest referenced anchor index, and never makes an
/// absent one present.
pub proof fn lemma_validation_keeps_max_used_anchor(
    tys: Seq<AnyType>,
    cfg: Config,
    r: TypeRef,
    v: Value,
    st: StateView,
)
    requires
        spec_validate_ref(tys, cfg, r, v, st) is Ok,
    ensures
        max_used_le(
            st.max_used_anchor_index,
            spec_validate_ref(tys, cfg, r, v, st)->Ok_0.max_used_anchor_index,
        ),
{
    valid_ref_facts(tys, cfg, r, v, st);
}

/// The highest anchor index referenced once the anchors `[master, anchors]` have been validated
/// in state `st` (before the state outside the anchors is restored).
pub open spec fn anchors_max_used(
    tys: Seq<AnyType>,
    cfg: Config,
    a: TAnchors,
    container: Seq<Value>,
    st: StateView,
) -> Option<u32> {
    let st1 = StateView { anchor_index: Some(0u32), max_used_anchor_index: Some(0u32), ..st };
    let st2 = spec_validate_ref(tys, cfg, a.spec_master(), container[0], st1)->Ok_0;
    let st3 = spec_validate_anchors(
        tys,
        cfg,
        a.spec_anchor(),
        container[1]->Sequence_0@,
        0,
        st2,
    )->Ok_0;
    st3.max_used_anchor_index
}

/// Without weak reference validation every anchor of valid anchors is referenced, and no
/// reference points past the last anchor: the highest referenced anchor index is the number
/// of anchors (the master has index 0).
pub proof fn lemma_valid_anchors_all_referenced(
    tys: Seq<AnyType>,
    cfg: Config,
    a: TAnchors,
    container: Vec<Value>,
    st: StateView,
)
    requires
        !cfg.weak_reference_validation,
        spec_validate_type(tys, cfg, AnyType::Anchors(a), Value::Sequence(container), st) is Ok,
    ensures
        anchors_max_used(tys, cfg, a, container@, st) == Some(
            container@[1]->Sequence_0@.len() as u32,
        ),
{
    let st1 = StateView { anchor_index: Some(0u32), max_used_anchor_index: Some(0u32), ..st };
    valid_ref_facts(tys, cfg, a.spec_master(), container@[0], st1);
    let st2 = spec_validate_ref(tys, cfg, a.spec_master(), container@[0], st1)->Ok_0;
    let anchors = container@[1]->Sequence_0@;
    anchors_referenced(tys, cfg, a.spec_anchor(), anchors, 0, st2);
}

proof fn anchors_referenced(
    tys: Seq<AnyType>,
    cfg: Config,
    r: TypeRef,
    anchors: Seq<Value>,
    i: int,
    st: StateView,
)
    requires
        0 <= i <= anchors.len(),
        !cfg.weak_reference_validation,
        st.max_used_anchor_index is Some,
        i <= st.max_used_anchor_index->0,
        spec_validate_anchors(tys, cfg, r, anchors, i, st) is Ok,
    ensures
        spec_validate_anchors(tys, cfg, r, anchors, i, st)->Ok_0.max_used_anchor_index is Some,
        spec_validate_anchors(tys, cfg, r, anchors, i, st)->Ok_0.max_used_anchor_index->0
            >= anchors.len(),
    decreases anchors.len() - i,
{
    if i < anchors.len() {
        let st1 = StateView { anchor_index: Some((i + 1) as u32), ..st };
        valid_ref_facts(tys, cfg, r, anchors[i], st1);
        let st2 = spec_validate_ref(tys, cfg, r, anchors[i], st1)->Ok_0;
        anchors_referenced(tys, cfg, r, anchors, i + 1, st2);
    }
}

/// When extensions are allowed, values appended to a valid structure (fields of a later
/// version of the type) keep it valid, with the same outcome: they are not looked at.
pub proof fn lemma_struct_extension_keeps_valid(
    tys: Seq<AnyType>,
    cfg: Config,
    t: TStruct,
    x: Vec<Value>,
    x2: Vec<Value>,
    st: StateView,
)
    requires
        !cfg.no_extension,
        x2@.len() <= u32::MAX,
        same_prefix(x@, x2@, x@.len() as int),
        spec_validate_type(tys, cfg, AnyType::Struct(t), Value::Sequence(x), st) is Ok,
    ensures
        spec_validate_type(tys, cfg, AnyType::Struct(t), Value::Sequence(x2), st)
            == spec_validate_type(tys, cfg, AnyType::Struct(t), Value::Sequence(x), st),
{
    validate_list_ignores_extensions(tys, cfg, field_refs(t.spec_fields()), x@, x2@, 0, st);
}

/// When extensions are allowed, values appended to a valid enum value keep it valid, with
/// the same outcome: they are not looked at.
pub proof fn lemma_enum_extension_keeps_valid(
    tys: Seq<AnyType>,
    cfg: Config,
    e: TEnum,
    ordinal: u32,
    x: Vec<Value>,
    x2: Vec<Value>,
    st: StateView,
)
    requires
        !cfg.no_extension,
        x2@.len() <= u32::MAX,
        same_prefix(x@, x2@, x@.len() as int),
        spec_validate_type(tys, cfg, AnyType::Enum(e), Value::Enum(ordinal, x), st) is Ok,
    ensures
        spec_validate_type(tys, cfg, AnyType::Enum(e), Value::Enum(ordinal, x2), st)
            == spec_validate_type(tys, cfg, AnyType::Enum(e), Value::Enum(ordinal, x), st),
{
    validate_list_ignores_extensions(
        tys,
        cfg,
        e.spec_variants()[ordinal as int].spec_values(),
        x@,
        x2@,
        0,
        st,
    );
}

proof fn validate_list_ignores_extensions(
    tys: Seq<AnyType>,
    cfg: Config,
    refs: Seq<TypeRef>,
    x: Seq<Value>,
    x2: Seq<Value>,
    i: int,
    st: StateView,
)
    requires
        0 <= i,
        refs.len() <= x.len(),
        same_prefix(x, x2, x.len() as int),
    ensures
        spec_validate_list(tys, cfg, refs, x2, i, st) == spec_validate_list(tys, cfg, refs, x, i, st),
    decreases refs.len() - i,
{
    if i < refs.len() {
        assert(x[i] == x2[i]);
        match spec_validate_ref(tys, cfg, refs[i], x[i], st) {
            Ok(st2) => validate_list_ignores_extensions(tys, cfg, refs, x, x2, i + 1, st2),
            Err(_) => {},
        }
    }
}

/// The keys of the entries of a valid root map are sorted as a whole (see
/// `lemma_valid_map_keys_sorted`).
pub proof fn lemma_valid_root_map_keys_sorted(
    tys: Seq<AnyType>,
    cfg: Config,
    m: TRootMap,
    outer: Vec<Value>,
    entries: Vec<Value>,
    st: StateView,
)
    requires
        outer@.len() == 2,
        outer@[0] == Value::Sequence(entries),
        spec_validate_type(tys, cfg, AnyType::RootMap(m), Value::Sequence(outer), st) is Ok,
    ensures
        forall|i: int, j: int|
            0 <= i < j < entries@.len() ==> #[trigger] keys_pair_in_order(
                tys,
                m.spec_key(),
                m.spec_sorting(),
                entries@,
                i,
                j,
            ),
{
    lemma_valid_root_map_keys_in_order(tys, cfg, m, outer, entries, st);
    assert forall|i: int, j: int| 0 <= i < j < entries@.len() implies #[trigger] keys_pair_in_order(
        tys,
        m.spec_key(),
        m.spec_sorting(),
        entries@,
        i,
        j,
    ) by {
        sorted_keys_pair(tys, m.spec_key(), m.spec_sorting(), entries@, i, j);
    }
}

} // verus!
