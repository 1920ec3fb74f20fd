//! Validating a value against a type of a schema.
use vstd::prelude::*;
use crate::anchors::TAnchors;
use crate::any_type::AnyType;
use crate::context::{KeyRefInfo, ValidationState};
use crate::enumeration::TEnum;
use crate::error::LqError;
use crate::map::TMap;
use crate::range::{Inclusion, TRange};
use crate::root_map::TRootMap;
use crate::schema_core::{Cmp, Config, TypeRef};
use crate::seq::{SeqOrdering, Sorted, TSeq};
use crate::structure::TStruct;
use crate::type_container::DefaultTypeContainer;
use crate::validation::{
    check_sorting, key_order, outcome_matches, repeat_ref, spec_validate_anchors,
    spec_validate_entries, spec_validate_list, spec_validate_ref, spec_validate_sorted,
    spec_validate_type, type_wf, types_wf,
};
use crate::map::Sorting;
use crate::value::Value;
use crate::ascii::TAscii;
use vstd::string::StringSliceAdditionalSpecFns;
use vstd::utf8::encode_utf8;

verus! {

impl DefaultTypeContainer {
    /// Validates `v` against the type `reference` refers to, in state `st`.
    pub fn validate(&self, cfg: Config, reference: TypeRef, v: &Value, st: &mut ValidationState) -> (r:
        Result<(), LqError>)
        requires
            types_wf(self.spec_types()),
        ensures
            outcome_matches(
                r,
                final(st)@,
                spec_validate_ref(self.spec_types(), cfg, reference, *v, old(st)@),
            ),
        decreases v, 2nat,
    {
        match self.maybe_type(reference) {
            Some(t) => self.validate_type(cfg, t, v, st),
            None => Err(LqError::TypeNotFound),
        }
    }

    /// Validates `v` against type `t`, in state `st`.
    pub fn validate_type(&self, cfg: Config, t: &AnyType, v: &Value, st: &mut ValidationState) -> (r:
        Result<(), LqError>)
        requires
            types_wf(self.spec_types()),
            type_wf(*t),
        ensures
            outcome_matches(r, final(st)@, spec_validate_type(self.spec_types(), cfg, *t, *v, old(st)@)),
        decreases v, 1nat,
    {
        match t {
            AnyType::Bool(_) => match v {
                Value::Bool(_) => Ok(()),
                _ => Err(LqError::UnexpectedValue),
            },
            AnyType::UInt(u) => match v {
                Value::UInt(n) => u.range.require_within(*n),
                _ => Err(LqError::UnexpectedValue),
            },
            AnyType::SInt(s) => match v {
                Value::SInt(n) => s.range().require_within(*n),
                _ => Err(LqError::UnexpectedValue),
            },
            AnyType::Binary(b) => match v {
                Value::Binary(bytes) => b.length().require_within(bytes.len() as u64),
                _ => Err(LqError::UnexpectedValue),
            },
            AnyType::Ascii(a) => match v {
                Value::Unicode(text) => self.validate_ascii(a, text),
                _ => Err(LqError::UnexpectedValue),
            },
            AnyType::Unicode(u) => match v {
                Value::Unicode(text) => u.length.require_within(text.as_str().as_bytes().len() as u64),
                _ => Err(LqError::UnexpectedValue),
            },
            AnyType::Uuid(_) => match v {
                Value::Binary(bytes) => if bytes.len() == 16 {
                    Ok(())
                } else {
                    Err(LqError::UnexpectedValue)
                },
                _ => Err(LqError::UnexpectedValue),
            },
            AnyType::Option(o) => match v {
                Value::Absent => Ok(()),
                Value::Present(inner) => {
                    proof {
                        assert(decreases_to!(*v => **inner));
                    }
                    self.validate(cfg, *o.type_ref(), &**inner, st)
                },
                _ => Err(LqError::UnexpectedValue),
            },
            AnyType::Sequence(s) => match v {
                Value::Sequence(items) => self.validate_seq(cfg, s, items, st),
                _ => Err(LqError::UnexpectedValue),
            },
            AnyType::Struct(s) => match v {
                Value::Sequence(items) => self.validate_struct(cfg, s, items, st),
                _ => Err(LqError::UnexpectedValue),
            },
            AnyType::Enum(e) => match v {
                Value::Enum(ordinal, vals) => self.validate_enum(cfg, e, *ordinal, vals, st),
                _ => Err(LqError::UnexpectedValue),
            },
            AnyType::Mapping(m) => match v {
                Value::Sequence(entries) => self.validate_map(cfg, m, entries, st),
                _ => Err(LqError::UnexpectedValue),
            },
            AnyType::RootMap(m) => match v {
                Value::Sequence(outer) => self.validate_root_map(cfg, m, outer, st),
                _ => Err(LqError::UnexpectedValue),
            },
            AnyType::KeyRef(k) => match v {
                Value::UInt(n) => if *n > 4294967295u64 {
                    Err(LqError::UnexpectedValue)
                } else {
                    match st.key_ref_info(k.level()) {
                        Some(info) => if *n >= info.map_len() as u64 {
                            Err(LqError::KeyRefOutOfBounds)
                        } else {
                            Ok(())
                        },
                        None => Err(LqError::KeyRefWithoutMap),
                    }
                },
                _ => Err(LqError::UnexpectedValue),
            },
            AnyType::Range(rg) => match v {
                Value::Sequence(items) => self.validate_range(cfg, rg, items, st),
                _ => Err(LqError::UnexpectedValue),
            },
            AnyType::Anchors(a) => match v {
                Value::Sequence(container) => self.validate_anchors(cfg, a, container, st),
                _ => Err(LqError::UnexpectedValue),
            },
            AnyType::Reference(_) => match v {
                Value::UInt(n) => if *n > 4294967295u64 {
                    Err(LqError::UnexpectedValue)
                } else {
                    match (st.anchor_index, st.max_used_anchor_index) {
                        (Some(_), Some(mu)) => if *n > (mu as u64) + 1
                            && !cfg.weak_reference_validation {
                            Err(LqError::ReferenceSkipsAnchor)
                        } else if *n > mu as u64 {
                            st.max_used_anchor_index = Some(*n as u32);
                            Ok(())
                        } else {
                            Ok(())
                        },
                        _ => Err(LqError::ReferenceOutsideAnchors),
                    }
                },
                _ => Err(LqError::UnexpectedValue),
            },
        }
    }

    /// Validates an ASCII text: its length, then its characters.
    fn validate_ascii(&self, a: &TAscii, text: &String) -> (r: Result<(), LqError>)
        ensures
            r == (if !a.length.spec_contains(encode_utf8(text@).len() as int) {
                Err(LqError::NotWithinRange)
            } else if forall|i: int|
                0 <= i < encode_utf8(text@).len() ==> a.codes.spec_contains(
                    #[trigger] encode_utf8(text@)[i] as int,
                ) {
                Ok(())
            } else {
                Err(LqError::InvalidCharacter)
            }),
    {
        let bytes = text.as_str().as_bytes();
        match a.length.require_within(bytes.len() as u64) {
            Ok(()) => {},
            Err(e) => {
                return Err(e);
            },
        }
        let mut i: usize = 0;
        while i < bytes.len()
            invariant
                0 <= i <= bytes@.len(),
                bytes@ == encode_utf8(text@),
                a.length.spec_contains(encode_utf8(text@).len() as int),
                forall|j: int| 0 <= j < i ==> a.codes.spec_contains(#[trigger] bytes@[j] as int),
            decreases bytes@.len() - i,
        {
            if !a.codes.contains(bytes[i] as u32) {
                assert(!a.codes.spec_contains(encode_utf8(text@)[i as int] as int));
                return Err(LqError::InvalidCharacter);
            }
            i += 1;
        }
        Ok(())
    }

    /// Validates a sequence: its length, then its elements.
    fn validate_seq(&self, cfg: Config, s: &TSeq, items: &Vec<Value>, st: &mut ValidationState) -> (r:
        Result<(), LqError>)
        requires
            types_wf(self.spec_types()),
            type_wf(AnyType::Sequence(*s)),
        ensures
            outcome_matches(
                r,
                final(st)@,
                spec_validate_type(
                    self.spec_types(),
                    cfg,
                    AnyType::Sequence(*s),
                    Value::Sequence(*items),
                    old(st)@,
                ),
            ),
        decreases items, 1nat,
    {
        if items.len() as u64 > 4294967295u64 {
            return Err(LqError::UnexpectedValue);
        }
        let len = items.len() as u32;
        if !(s.length.start() <= len && len <= s.length.end()) {
            return Err(LqError::NotWithinRange);
        }
        match s.multiple_of {
            Some(m) => if len % m != 0 {
                return Err(LqError::NotMultipleOf);
            },
            None => {},
        }
        match s.ordering {
            SeqOrdering::Unordered => self.validate_all(cfg, s.element, items, st),
            SeqOrdering::Sorted(sorted) => self.validate_sorted(cfg, s.element, sorted, items, st),
        }
    }

    /// Validates all `items` against the type `reference` refers to.
    fn validate_all(&self, cfg: Config, reference: TypeRef, items: &Vec<Value>, st: &mut ValidationState) -> (r:
        Result<(), LqError>)
        requires
            types_wf(self.spec_types()),
        ensures
            outcome_matches(
                r,
                final(st)@,
                spec_validate_list(
                    self.spec_types(),
                    cfg,
                    repeat_ref(reference, items@.len()),
                    items@,
                    0,
                    old(st)@,
                ),
            ),
        decreases items, 0nat,
    {
        let ghost refs = repeat_ref(reference, items@.len());
        let ghost st0 = st@;
        let mut i: usize = 0;
        while i < items.len()
            invariant
                0 <= i <= items@.len(),
                types_wf(self.spec_types()),
                st0 == old(st)@,
                refs == repeat_ref(reference, items@.len()),
                spec_validate_list(self.spec_types(), cfg, refs, items@, 0, st0)
                    == spec_validate_list(self.spec_types(), cfg, refs, items@, i as int, st@),
            decreases items@.len() - i,
        {
            proof {
                assert(decreases_to!(*items => items@));
                assert(decreases_to!(items@ => items@[i as int]));
            }
            match self.validate(cfg, reference, &items[i], st) {
                Ok(()) => {},
                Err(e) => {
                    return Err(e);
                },
            }
            i += 1;
        }
        Ok(())
    }

    /// Validates the elements of a sorted sequence and their order.
    fn validate_sorted(
        &self,
        cfg: Config,
        reference: TypeRef,
        sorted: Sorted,
        items: &Vec<Value>,
        st: &mut ValidationState,
    ) -> (r: Result<(), LqError>)
        requires
            types_wf(self.spec_types()),
        ensures
            outcome_matches(
                r,
                final(st)@,
                spec_validate_sorted(self.spec_types(), cfg, reference, sorted, items@, 0, old(st)@),
            ),
        decreases items, 0nat,
    {
        let ghost st0 = st@;
        let mut i: usize = 0;
        while i < items.len()
            invariant
                0 <= i <= items@.len(),
                types_wf(self.spec_types()),
                st0 == old(st)@,
                spec_validate_sorted(self.spec_types(), cfg, reference, sorted, items@, 0, st0)
                    == spec_validate_sorted(
                    self.spec_types(),
                    cfg,
                    reference,
                    sorted,
                    items@,
                    i as int,
                    st@,
                ),
            decreases items@.len() - i,
        {
            proof {
                assert(decreases_to!(*items => items@));
                assert(decreases_to!(items@ => items@[i as int]));
            }
            match self.validate(cfg, reference, &items[i], st) {
                Ok(()) => {},
                Err(e) => {
                    return Err(e);
                },
            }
            if i > 0 {
                match self.compare(reference, &items[i - 1], &items[i]) {
                    Ok(c) => match check_sorting(c, sorted) {
                        Some(e) => {
                            return Err(e);
                        },
                        None => {},
                    },
                    Err(e) => {
                        return Err(e);
                    },
                }
            }
            i += 1;
        }
        Ok(())
    }

    /// Validates `items` pairwise against the types `refs`.
    fn validate_list(&self, cfg: Config, refs: &[TypeRef], items: &Vec<Value>, st: &mut ValidationState) -> (r:
        Result<(), LqError>)
        requires
            types_wf(self.spec_types()),
        ensures
            outcome_matches(
                r,
                final(st)@,
                spec_validate_list(self.spec_types(), cfg, refs@, items@, 0, old(st)@),
            ),
        decreases items, 0nat,
    {
        let ghost st0 = st@;
        let mut i: usize = 0;
        while i < refs.len()
            invariant
                0 <= i <= refs@.len(),
                types_wf(self.spec_types()),
                st0 == old(st)@,
                spec_validate_list(self.spec_types(), cfg, refs@, items@, 0, st0)
                    == spec_validate_list(self.spec_types(), cfg, refs@, items@, i as int, st@),
            decreases refs@.len() - i,
        {
            if i >= items.len() {
                return Err(LqError::UnexpectedValue);
            }
            proof {
                assert(decreases_to!(*items => items@));
                assert(decreases_to!(items@ => items@[i as int]));
            }
            match self.validate(cfg, refs[i], &items[i], st) {
                Ok(()) => {},
                Err(e) => {
                    return Err(e);
                },
            }
            i += 1;
        }
        Ok(())
    }

    /// Validates a structure: the number of values, then each field.
    fn validate_struct(&self, cfg: Config, t: &TStruct, items: &Vec<Value>, st: &mut ValidationState) -> (r:
        Result<(), LqError>)
        requires
            types_wf(self.spec_types()),
        ensures
            outcome_matches(
                r,
                final(st)@,
                spec_validate_type(
                    self.spec_types(),
                    cfg,
                    AnyType::Struct(*t),
                    Value::Sequence(*items),
                    old(st)@,
                ),
            ),
        decreases items, 1nat,
    {
        if items.len() as u64 > 4294967295u64 {
            return Err(LqError::UnexpectedValue);
        }
        let number_of_fields = t.fields().len();
        if number_of_fields as u64 > 4294967295u64 {
            return Err(LqError::TooManyElements);
        }
        if cfg.no_extension && items.len() != number_of_fields {
            return Err(LqError::StructLengthMismatch);
        }
        if !cfg.no_extension && items.len() < number_of_fields {
            return Err(LqError::MissingFields);
        }
        let refs = t.field_type_refs();
        self.validate_list(cfg, refs.as_slice(), items, st)
    }

    /// Validates an enum value: the variant, the number of values, then each value.
    fn validate_enum(
        &self,
        cfg: Config,
        e: &TEnum,
        ordinal: u32,
        vals: &Vec<Value>,
        st: &mut ValidationState,
    ) -> (r: Result<(), LqError>)
        requires
            types_wf(self.spec_types()),
        ensures
            outcome_matches(
                r,
                final(st)@,
                spec_validate_type(
                    self.spec_types(),
                    cfg,
                    AnyType::Enum(*e),
                    Value::Enum(ordinal, *vals),
                    old(st)@,
                ),
            ),
        decreases vals, 1nat,
    {
        let variants = e.variants();
        if ordinal as usize >= variants.len() {
            return Err(LqError::NoSuchVariant);
        }
        if vals.len() as u64 > 4294967295u64 {
            return Err(LqError::UnexpectedValue);
        }
        let values = variants[ordinal as usize].values();
        if cfg.no_extension && vals.len() != values.len() {
            return Err(LqError::VariantValuesMismatch);
        }
        if vals.len() < values.len() {
            return Err(LqError::MissingVariantValues);
        }
        self.validate_list(cfg, values, vals, st)
    }

    /// Validates a map: its length, then its entries (with the keys referenceable while the
    /// entries are validated, if the map says so).
    fn validate_map(&self, cfg: Config, m: &TMap, entries: &Vec<Value>, st: &mut ValidationState) -> (r:
        Result<(), LqError>)
        requires
            types_wf(self.spec_types()),
        ensures
            outcome_matches(
                r,
                final(st)@,
                spec_validate_type(
                    self.spec_types(),
                    cfg,
                    AnyType::Mapping(*m),
                    Value::Sequence(*entries),
                    old(st)@,
                ),
            ),
        decreases entries, 1nat,
    {
        if entries.len() as u64 > 4294967295u64 {
            return Err(LqError::UnexpectedValue);
        }
        let len = entries.len() as u32;
        if !(m.length().start() <= len && len <= m.length().end()) {
            return Err(LqError::NotWithinRange);
        }
        let anchors = m.anchors();
        if anchors {
            st.push_key_ref_info(KeyRefInfo::new(len));
        }
        match self.validate_entries(cfg, *m.key(), *m.value(), m.sorting(), anchors, entries, st) {
            Ok(()) => {},
            Err(e) => {
                return Err(e);
            },
        }
        if anchors {
            match st.pop_key_ref_info() {
                Ok(_) => Ok(()),
                Err(e) => Err(e),
            }
        } else {
            Ok(())
        }
    }

    /// Validates a root map `[entries, root value]`: the entries (whose keys can be referenced),
    /// then the root value (which can reference the keys too).
    fn validate_root_map(&self, cfg: Config, m: &TRootMap, outer: &Vec<Value>, st: &mut ValidationState) -> (r:
        Result<(), LqError>)
        requires
            types_wf(self.spec_types()),
        ensures
            outcome_matches(
                r,
                final(st)@,
                spec_validate_type(
                    self.spec_types(),
                    cfg,
                    AnyType::RootMap(*m),
                    Value::Sequence(*outer),
                    old(st)@,
                ),
            ),
        decreases outer, 1nat,
    {
        if outer.len() != 2 {
            return Err(LqError::MalformedRootMap);
        }
        proof {
            assert(decreases_to!(*outer => outer@));
            assert(decreases_to!(outer@ => outer@[0]));
            assert(decreases_to!(outer@ => outer@[1]));
        }
        match &outer[0] {
            Value::Sequence(entries) => {
                if entries.len() as u64 > 4294967295u64 {
                    return Err(LqError::UnexpectedValue);
                }
                let len = entries.len() as u32;
                if !(m.length().start() <= len && len <= m.length().end()) {
                    return Err(LqError::NotWithinRange);
                }
                st.push_key_ref_info(KeyRefInfo::new(len));
                proof {
                    assert(decreases_to!(outer@[0] => *entries));
                }
                match self.validate_entries(cfg, m.key(), m.value(), m.sorting(), true, entries, st) {
                    Ok(()) => {},
                    Err(e) => {
                        return Err(e);
                    },
                }
                match self.validate(cfg, m.root(), &outer[1], st) {
                    Ok(()) => {},
                    Err(e) => {
                        return Err(e);
                    },
                }
                match st.pop_key_ref_info() {
                    Ok(_) => Ok(()),
                    Err(e) => Err(e),
                }
            },
            _ => Err(LqError::UnexpectedValue),
        }
    }

    /// Validates the entries `[key, value]` of a map, and the order of their keys.
    fn validate_entries(
        &self,
        cfg: Config,
        key: TypeRef,
        value: TypeRef,
        sorting: Sorting,
        anchors: bool,
        entries: &Vec<Value>,
        st: &mut ValidationState,
    ) -> (r: Result<(), LqError>)
        requires
            types_wf(self.spec_types()),
        ensures
            outcome_matches(
                r,
                final(st)@,
                spec_validate_entries(
                    self.spec_types(),
                    cfg,
                    key,
                    value,
                    sorting,
                    anchors,
                    entries@,
                    0,
                    old(st)@,
                ),
            ),
        decreases entries, 0nat,
    {
        let ghost st0 = st@;
        let mut i: usize = 0;
        while i < entries.len()
            invariant
                0 <= i <= entries@.len(),
                types_wf(self.spec_types()),
                st0 == old(st)@,
                spec_validate_entries(
                    self.spec_types(),
                    cfg,
                    key,
                    value,
                    sorting,
                    anchors,
                    entries@,
                    0,
                    st0,
                ) == spec_validate_entries(
                    self.spec_types(),
                    cfg,
                    key,
                    value,
                    sorting,
                    anchors,
                    entries@,
                    i as int,
                    st@,
                ),
            decreases entries@.len() - i,
        {
            match &entries[i] {
                Value::Sequence(kv) => {
                    if kv.len() != 2 {
                        return Err(LqError::MalformedMapEntry);
                    }
                    proof {
                        assert(decreases_to!(*entries => entries@));
                        assert(decreases_to!(entries@ => entries@[i as int]));
                        assert(decreases_to!(entries@[i as int] => *kv));
                        assert(decreases_to!(*kv => kv@));
                        assert(decreases_to!(kv@ => kv@[0]));
                        assert(decreases_to!(kv@ => kv@[1]));
                    }
                    if anchors {
                        match st.pop_key_ref_info() {
                            Ok(info) => {
                                match self.validate(cfg, key, &kv[0], st) {
                                    Ok(()) => {},
                                    Err(e) => {
                                        return Err(e);
                                    },
                                }
                                st.push_key_ref_info(info);
                            },
                            Err(e) => {
                                return Err(e);
                            },
                        }
                    } else {
                        match self.validate(cfg, key, &kv[0], st) {
                            Ok(()) => {},
                            Err(e) => {
                                return Err(e);
                            },
                        }
                    }
                    match self.validate(cfg, value, &kv[1], st) {
                        Ok(()) => {},
                        Err(e) => {
                            return Err(e);
                        },
                    }
                    if i > 0 {
                        let c = match &entries[i - 1] {
                            Value::Sequence(previous) => if previous.len() >= 1 {
                                self.compare(key, &kv[0], &previous[0])
                            } else {
                                self.compare(key, &kv[0], &Value::Absent)
                            },
                            _ => self.compare(key, &kv[0], &Value::Absent),
                        };
                        match c {
                            Ok(c) => if c != key_order(sorting) {
                                return Err(LqError::MapKeyOrdering);
                            },
                            Err(e) => {
                                return Err(e);
                            },
                        }
                    }
                },
                _ => {
                    return Err(LqError::MalformedMapEntry);
                },
            }
            i += 1;
        }
        Ok(())
    }

    /// Validates a range `[start, end]` (or `[start, end, start included, end included]` when
    /// the inclusion is supplied): both ends, then their order.
    fn validate_range(&self, cfg: Config, rg: &TRange, items: &Vec<Value>, st: &mut ValidationState) -> (r:
        Result<(), LqError>)
        requires
            types_wf(self.spec_types()),
        ensures
            outcome_matches(
                r,
                final(st)@,
                spec_validate_type(
                    self.spec_types(),
                    cfg,
                    AnyType::Range(*rg),
                    Value::Sequence(*items),
                    old(st)@,
                ),
            ),
        decreases items, 1nat,
    {
        let expected: usize = if rg.inclusion == Inclusion::Supplied {
            4
        } else {
            2
        };
        if items.len() != expected {
            return Err(LqError::RangeLength);
        }
        proof {
            assert(decreases_to!(*items => items@));
            assert(decreases_to!(items@ => items@[0]));
            assert(decreases_to!(items@ => items@[1]));
        }
        match self.validate(cfg, rg.element, &items[0], st) {
            Ok(()) => {},
            Err(e) => {
                return Err(e);
            },
        }
        match self.validate(cfg, rg.element, &items[1], st) {
            Ok(()) => {},
            Err(e) => {
                return Err(e);
            },
        }
        if items.len() == 4 {
            let flags_ok = match (&items[2], &items[3]) {
                (Value::Bool(_), Value::Bool(_)) => true,
                _ => false,
            };
            if !flags_ok {
                return Err(LqError::UnexpectedValue);
            }
        }
        match self.compare(rg.element, &items[0], &items[1]) {
            Ok(Cmp::Greater) => Err(LqError::RangeStartGreaterThanEnd),
            Ok(Cmp::Equal) => if rg.allow_equal {
                Ok(())
            } else {
                Err(LqError::RangeStartEqualsEnd)
            },
            Ok(Cmp::Less) => Ok(()),
            Err(e) => Err(e),
        }
    }

    /// Validates anchors `[master, [anchor 1, anchor 2, ...]]`: the master first, then each
    /// anchor, which must have been referenced before it.
    fn validate_anchors(&self, cfg: Config, a: &TAnchors, container: &Vec<Value>, st: &mut ValidationState) -> (r:
        Result<(), LqError>)
        requires
            types_wf(self.spec_types()),
        ensures
            outcome_matches(
                r,
                final(st)@,
                spec_validate_type(
                    self.spec_types(),
                    cfg,
                    AnyType::Anchors(*a),
                    Value::Sequence(*container),
                    old(st)@,
                ),
            ),
        decreases container, 1nat,
    {
        if container.len() != 2 {
            return Err(LqError::MalformedAnchors);
        }
        proof {
            assert(decreases_to!(*container => container@));
            assert(decreases_to!(container@ => container@[0]));
            assert(decreases_to!(container@ => container@[1]));
        }
        let saved_anchor_index = st.anchor_index;
        let saved_max_used_anchor_index = st.max_used_anchor_index;
        st.anchor_index = Some(0);
        st.max_used_anchor_index = Some(0);
        match self.validate(cfg, a.master(), &container[0], st) {
            Ok(()) => {},
            Err(e) => {
                return Err(e);
            },
        }
        match &container[1] {
            Value::Sequence(anchors) => {
                if anchors.len() as u64 > 4294967295u64 {
                    return Err(LqError::UnexpectedValue);
                }
                match a.max_anchors() {
                    Some(max) => if anchors.len() as u64 > max as u64 {
                        return Err(LqError::TooManyAnchors);
                    },
                    None => {},
                }
                proof {
                    assert(decreases_to!(container@[1] => *anchors));
                }
                match self.validate_anchor_list(cfg, a.anchor(), anchors, st) {
                    Ok(()) => {},
                    Err(e) => {
                        return Err(e);
                    },
                }
                match st.max_used_anchor_index {
                    Some(max_used) => if max_used as u64 >= anchors.len() as u64 + 1 {
                        return Err(LqError::AnchorOverflow);
                    },
                    None => {},
                }
                st.anchor_index = saved_anchor_index;
                st.max_used_anchor_index = saved_max_used_anchor_index;
                Ok(())
            },
            _ => Err(LqError::UnexpectedValue),
        }
    }

    /// Validates the anchors after the master; anchor `i` has index `i + 1`.
    fn validate_anchor_list(
        &self,
        cfg: Config,
        reference: TypeRef,
        anchors: &Vec<Value>,
        st: &mut ValidationState,
    ) -> (r: Result<(), LqError>)
        requires
            types_wf(self.spec_types()),
            anchors@.len() <= u32::MAX,
        ensures
            outcome_matches(
                r,
                final(st)@,
                spec_validate_anchors(self.spec_types(), cfg, reference, anchors@, 0, old(st)@),
            ),
        decreases anchors, 0nat,
    {
        let ghost st0 = st@;
        let mut i: usize = 0;
        while i < anchors.len()
            invariant
                0 <= i <= anchors@.len(),
                anchors@.len() <= u32::MAX,
                types_wf(self.spec_types()),
                st0 == old(st)@,
                spec_validate_anchors(self.spec_types(), cfg, reference, anchors@, 0, st0)
                    == spec_validate_anchors(
                    self.spec_types(),
                    cfg,
                    reference,
                    anchors@,
                    i as int,
                    st@,
                ),
            decreases anchors@.len() - i,
        {
            match st.max_used_anchor_index {
                Some(max_used) => {
                    if (max_used as u64) < (i as u64) + 1 && !cfg.weak_reference_validation {
                        return Err(LqError::UnusedAnchor);
                    }
                },
                None => {
                    return Err(LqError::NoMaxUsedAnchorIndex);
                },
            }
            st.anchor_index = Some((i + 1) as u32);
            proof {
                assert(decreases_to!(*anchors => anchors@));
                assert(decreases_to!(anchors@ => anchors@[i as int]));
            }
            match self.validate(cfg, reference, &anchors[i], st) {
                Ok(()) => {},
                Err(e) => {
                    return Err(e);
                },
            }
            i += 1;
        }
        Ok(())
    }
}

} // verus!
