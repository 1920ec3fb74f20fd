//! Comparing two values as values of a type of a schema.
use vstd::prelude::*;
use crate::any_type::AnyType;
use crate::anchors::TAnchors;
use crate::range::TRange;
use crate::root_map::TRootMap;
use crate::error::LqError;
use crate::schema_core::{Cmp, TypeRef, exec_order_bool, exec_order_bytes, exec_order_i64, exec_order_u64};
use crate::type_container::DefaultTypeContainer;
use crate::validation::{
    spec_compare_entries, spec_compare_lex, spec_compare_list, spec_compare_ref, spec_compare_type,
};
use crate::value::Value;

verus! {

impl DefaultTypeContainer {
    /// Compares `a` with `b` as values of the type `reference` refers to.
    pub fn compare(&self, reference: TypeRef, a: &Value, b: &Value) -> (r: Result<Cmp, LqError>)
        ensures
            r == spec_compare_ref(self.spec_types(), reference, *a, *b),
        decreases a, 2nat,
    {
        match self.maybe_type(reference) {
            Some(t) => self.compare_type(t, a, b),
            None => Err(LqError::TypeNotFound),
        }
    }

    /// Compares `a` with `b` as values of type `t`.
    pub fn compare_type(&self, t: &AnyType, a: &Value, b: &Value) -> (r: Result<Cmp, LqError>)
        ensures
            r == spec_compare_type(self.spec_types(), *t, *a, *b),
        decreases a, 1nat,
    {
        match t {
            AnyType::Bool(_) => match (a, b) {
                (Value::Bool(x), Value::Bool(y)) => Ok(exec_order_bool(*x, *y)),
                _ => Err(LqError::UnexpectedValue),
            },
            AnyType::UInt(_) => match (a, b) {
                (Value::UInt(x), Value::UInt(y)) => Ok(exec_order_u64(*x, *y)),
                _ => Err(LqError::UnexpectedValue),
            },
            AnyType::SInt(_) => match (a, b) {
                (Value::SInt(x), Value::SInt(y)) => Ok(exec_order_i64(*x, *y)),
                _ => Err(LqError::UnexpectedValue),
            },
            AnyType::Binary(_) => match (a, b) {
                (Value::Binary(x), Value::Binary(y)) => Ok(exec_order_bytes(x.as_slice(), y.as_slice())),
                _ => Err(LqError::UnexpectedValue),
            },
            AnyType::Uuid(_) => match (a, b) {
                (Value::Binary(x), Value::Binary(y)) => Ok(exec_order_bytes(x.as_slice(), y.as_slice())),
                _ => Err(LqError::UnexpectedValue),
            },
            AnyType::Ascii(_) => match (a, b) {
                (Value::Unicode(x), Value::Unicode(y)) => Ok(
                    exec_order_bytes(x.as_str().as_bytes(), y.as_str().as_bytes()),
                ),
                _ => Err(LqError::UnexpectedValue),
            },
            AnyType::Unicode(_) => match (a, b) {
                (Value::Unicode(x), Value::Unicode(y)) => Ok(
                    exec_order_bytes(x.as_str().as_bytes(), y.as_str().as_bytes()),
                ),
                _ => Err(LqError::UnexpectedValue),
            },
            AnyType::KeyRef(_) => match (a, b) {
                (Value::UInt(x), Value::UInt(y)) => if *x > 4294967295u64 || *y > 4294967295u64 {
                    Err(LqError::UnexpectedValue)
                } else {
                    Ok(exec_order_u64(*x, *y))
                },
                _ => Err(LqError::UnexpectedValue),
            },
            AnyType::Reference(_) => match (a, b) {
                (Value::UInt(x), Value::UInt(y)) => if *x > 4294967295u64 || *y > 4294967295u64 {
                    Err(LqError::UnexpectedValue)
                } else {
                    Ok(exec_order_u64(*x, *y))
                },
                _ => Err(LqError::UnexpectedValue),
            },
            AnyType::Option(o) => match (a, b) {
                (Value::Absent, Value::Absent) => Ok(Cmp::Equal),
                (Value::Present(x), Value::Present(y)) => {
                    proof {
                        assert(decreases_to!(*a => **x));
                    }
                    self.compare(*o.type_ref(), &**x, &**y)
                },
                (Value::Absent, Value::Present(_)) => Ok(Cmp::Less),
                (Value::Present(_), Value::Absent) => Ok(Cmp::Greater),
                _ => Err(LqError::UnexpectedValue),
            },
            AnyType::Sequence(s) => match (a, b) {
                (Value::Sequence(x), Value::Sequence(y)) => self.compare_lex(s.element, x, y),
                _ => Err(LqError::UnexpectedValue),
            },
            AnyType::Struct(st) => match (a, b) {
                (Value::Sequence(x), Value::Sequence(y)) => {
                    let refs = st.field_type_refs();
                    self.compare_list(refs.as_slice(), x, y)
                },
                _ => Err(LqError::UnexpectedValue),
            },
            AnyType::Enum(e) => match (a, b) {
                (Value::Enum(o1, x), Value::Enum(o2, y)) => {
                    if *o1 != *o2 {
                        Ok(exec_order_u64(*o1 as u64, *o2 as u64))
                    } else if (*o1 as usize) >= e.variants().len() {
                        Err(LqError::NoSuchVariant)
                    } else {
                        self.compare_list(e.variants()[*o1 as usize].values(), x, y)
                    }
                },
                _ => Err(LqError::UnexpectedValue),
            },
            AnyType::Mapping(m) => match (a, b) {
                (Value::Sequence(x), Value::Sequence(y)) => self.compare_entries(
                    *m.key(),
                    *m.value(),
                    x,
                    y,
                ),
                _ => Err(LqError::UnexpectedValue),
            },
            AnyType::RootMap(m) => match (a, b) {
                (Value::Sequence(x), Value::Sequence(y)) => self.compare_root_map(m, x, y),
                _ => Err(LqError::UnexpectedValue),
            },
            AnyType::Range(rg) => match (a, b) {
                (Value::Sequence(x), Value::Sequence(y)) => self.compare_range(rg, x, y),
                _ => Err(LqError::UnexpectedValue),
            },
            AnyType::Anchors(an) => match (a, b) {
                (Value::Sequence(x), Value::Sequence(y)) => self.compare_anchors(an, x, y),
                _ => Err(LqError::UnexpectedValue),
            },
        }
    }

    /// Lexicographic comparison of two sequences of values of type `reference`.
    fn compare_lex(&self, reference: TypeRef, x: &Vec<Value>, y: &Vec<Value>) -> (r: Result<
        Cmp,
        LqError,
    >)
        ensures
            r == spec_compare_lex(self.spec_types(), reference, x@, y@, 0),
        decreases x, 0nat,
    {
        let mut i: usize = 0;
        while i < x.len() && i < y.len()
            invariant
                0 <= i <= x@.len(),
                i <= y@.len(),
                spec_compare_lex(self.spec_types(), reference, x@, y@, 0) == spec_compare_lex(
                    self.spec_types(),
                    reference,
                    x@,
                    y@,
                    i as int,
                ),
            decreases x@.len() - i,
        {
            proof {
                assert(decreases_to!(*x => x@));
                assert(decreases_to!(x@ => x@[i as int]));
            }
            let c = self.compare(reference, &x[i], &y[i]);
            match c {
                Ok(Cmp::Equal) => {},
                _ => {
                    return c;
                },
            }
            i += 1;
        }
        Ok(exec_order_u64(x.len() as u64, y.len() as u64))
    }

    /// Compares `x` with `y` pairwise as values of the types `refs`.
    fn compare_list(&self, refs: &[TypeRef], x: &Vec<Value>, y: &Vec<Value>) -> (r: Result<
        Cmp,
        LqError,
    >)
        ensures
            r == spec_compare_list(self.spec_types(), refs@, x@, y@, 0),
        decreases x, 0nat,
    {
        let mut i: usize = 0;
        while i < refs.len()
            invariant
                0 <= i <= refs@.len(),
                spec_compare_list(self.spec_types(), refs@, x@, y@, 0) == spec_compare_list(
                    self.spec_types(),
                    refs@,
                    x@,
                    y@,
                    i as int,
                ),
            decreases refs@.len() - i,
        {
            if i < x.len() && i < y.len() {
                proof {
                    assert(decreases_to!(*x => x@));
                    assert(decreases_to!(x@ => x@[i as int]));
                }
                let c = self.compare(refs[i], &x[i], &y[i]);
                match c {
                    Ok(Cmp::Equal) => {},
                    _ => {
                        return c;
                    },
                }
            } else {
                return Err(LqError::UnexpectedValue);
            }
            i += 1;
        }
        Ok(Cmp::Equal)
    }

    /// Compares two lists of map entries.
    fn compare_entries(&self, key: TypeRef, value: TypeRef, x: &Vec<Value>, y: &Vec<Value>) -> (r:
        Result<Cmp, LqError>)
        ensures
            r == spec_compare_entries(self.spec_types(), key, value, x@, y@, 0),
        decreases x, 0nat,
    {
        let mut i: usize = 0;
        while i < x.len() && i < y.len()
            invariant
                0 <= i <= x@.len(),
                i <= y@.len(),
                spec_compare_entries(self.spec_types(), key, value, x@, y@, 0)
                    == spec_compare_entries(self.spec_types(), key, value, x@, y@, i as int),
            decreases x@.len() - i,
        {
            match (&x[i], &y[i]) {
                (Value::Sequence(kx), Value::Sequence(ky)) => {
                    if kx.len() != 2 || ky.len() != 2 {
                        return Err(LqError::MalformedMapEntry);
                    }
                    proof {
                        assert(decreases_to!(*x => x@));
                        assert(decreases_to!(x@ => x@[i as int]));
                        assert(decreases_to!(x@[i as int] => *kx));
                        assert(decreases_to!(*kx => kx@));
                        assert(decreases_to!(kx@ => kx@[0]));
                        assert(decreases_to!(kx@ => kx@[1]));
                    }
                    let c = self.compare(key, &kx[0], &ky[0]);
                    match c {
                        Ok(Cmp::Equal) => {},
                        _ => {
                            return c;
                        },
                    }
                    let c = self.compare(value, &kx[1], &ky[1]);
                    match c {
                        Ok(Cmp::Equal) => {},
                        _ => {
                            return c;
                        },
                    }
                },
                _ => {
                    return Err(LqError::MalformedMapEntry);
                },
            }
            i += 1;
        }
        Ok(exec_order_u64(x.len() as u64, y.len() as u64))
    }

    /// Compares two root maps `[entries, root value]`.
    fn compare_root_map(&self, m: &TRootMap, x: &Vec<Value>, y: &Vec<Value>) -> (r: Result<
        Cmp,
        LqError,
    >)
        ensures
            r == spec_compare_type(
                self.spec_types(),
                AnyType::RootMap(*m),
                Value::Sequence(*x),
                Value::Sequence(*y),
            ),
        decreases x, 0nat,
    {
        if x.len() != 2 || y.len() != 2 {
            return Err(LqError::MalformedRootMap);
        }
        proof {
            assert(decreases_to!(*x => x@));
            assert(decreases_to!(x@ => x@[0]));
            assert(decreases_to!(x@ => x@[1]));
        }
        match (&x[0], &y[0]) {
            (Value::Sequence(ex), Value::Sequence(ey)) => {
                proof {
                    assert(decreases_to!(x@[0] => *ex));
                }
                let c = self.compare_entries(m.key(), m.value(), ex, ey);
                match c {
                    Ok(Cmp::Equal) => self.compare(m.root(), &x[1], &y[1]),
                    _ => c,
                }
            },
            _ => Err(LqError::UnexpectedValue),
        }
    }

    /// Compares two ranges `[start, end]` or `[start, end, start included, end included]`.
    fn compare_range(&self, rg: &TRange, x: &Vec<Value>, y: &Vec<Value>) -> (r: Result<
        Cmp,
        LqError,
    >)
        ensures
            r == spec_compare_type(
                self.spec_types(),
                AnyType::Range(*rg),
                Value::Sequence(*x),
                Value::Sequence(*y),
            ),
        decreases x, 0nat,
    {
        if x.len() != y.len() || x.len() < 2 {
            return Err(LqError::RangeLength);
        }
        proof {
            assert(decreases_to!(*x => x@));
            assert(decreases_to!(x@ => x@[0]));
            assert(decreases_to!(x@ => x@[1]));
        }
        let c = self.compare(rg.element, &x[0], &y[0]);
        match c {
            Ok(Cmp::Equal) => {},
            _ => {
                return c;
            },
        }
        let c = self.compare(rg.element, &x[1], &y[1]);
        match c {
            Ok(Cmp::Equal) => {},
            _ => {
                return c;
            },
        }
        if x.len() == 4 {
            match (&x[2], &y[2]) {
                (Value::Bool(a2), Value::Bool(b2)) => {
                    if *a2 != *b2 {
                        Ok(exec_order_bool(*a2, *b2))
                    } else {
                        match (&x[3], &y[3]) {
                            (Value::Bool(a3), Value::Bool(b3)) => Ok(exec_order_bool(*a3, *b3)),
                            _ => Err(LqError::UnexpectedValue),
                        }
                    }
                },
                _ => Err(LqError::UnexpectedValue),
            }
        } else {
            Ok(Cmp::Equal)
        }
    }

    /// Compares two anchor containers `[master, anchors]`.
    fn compare_anchors(&self, an: &TAnchors, x: &Vec<Value>, y: &Vec<Value>) -> (r: Result<
        Cmp,
        LqError,
    >)
        ensures
            r == spec_compare_type(
                self.spec_types(),
                AnyType::Anchors(*an),
                Value::Sequence(*x),
                Value::Sequence(*y),
            ),
        decreases x, 0nat,
    {
        if x.len() != 2 || y.len() != 2 {
            return Err(LqError::MalformedAnchors);
        }
        proof {
            assert(decreases_to!(*x => x@));
            assert(decreases_to!(x@ => x@[0]));
            assert(decreases_to!(x@ => x@[1]));
        }
        let c = self.compare(an.master(), &x[0], &y[0]);
        match c {
            Ok(Cmp::Equal) => {},
            _ => {
                return c;
            },
        }
        match (&x[1], &y[1]) {
            (Value::Sequence(ax), Value::Sequence(ay)) => {
                proof {
                    assert(decreases_to!(x@[1] => *ax));
                }
                self.compare_lex(an.anchor(), ax, ay)
            },
            _ => Err(LqError::UnexpectedValue),
        }
    }
}

} // verus!
