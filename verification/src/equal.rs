//! Equality of values.
//!
//! Two values are equal when they are of the same case and their contents are
//! equal. Floating-point patterns are equal when their ranks are, so every NaN
//! equals every NaN and the two zeros are equal. A number never equals a
//! number of another case, whatever the two hold.

use vstd::prelude::*;
use crate::value::{discriminant, entry_models, models, scalar_rank, Model, Value};

verus! {

/// Whether two values are equal.
pub open spec fn same(a: Model, b: Model) -> bool
    decreases a,
{
    match (a, b) {
        (Model::String(x), Model::String(y)) => x == y,
        (Model::Option(x), Model::Option(y)) => match (x, y) {
            (None, None) => true,
            (Some(p), Some(q)) => same(*p, *q),
            _ => false,
        },
        (Model::Newtype(x), Model::Newtype(y)) => same(*x, *y),
        (Model::Sequence(x), Model::Sequence(y)) => x.len() == y.len() && forall|i: int|
            0 <= i < x.len() ==> same(#[trigger] x[i], y[i]),
        (Model::Mapping(x), Model::Mapping(y)) => x.len() == y.len() && forall|i: int|
            0 <= i < x.len() ==> same((#[trigger] x[i]).0, y[i].0) && same(x[i].1, y[i].1),
        (Model::Bytes(x), Model::Bytes(y)) => x == y,
        _ => discriminant(a) == discriminant(b) && scalar_rank(a) == scalar_rank(b),
    }
}

/// Tells whether two byte strings hold the same bytes.
fn same_bytes(a: &[u8], b: &[u8]) -> (r: bool)
    ensures
        r == (a@ == b@),
{
    if a.len() != b.len() {
        return false;
    }
    let mut i: usize = 0;
    while i < a.len()
        invariant
            i <= a.len(),
            a.len() == b.len(),
            forall|k: int| 0 <= k < i ==> a@[k] == b@[k],
        decreases a.len() - i,
    {
        if a[i] != b[i] {
            return false;
        }
        i += 1;
    }
    assert(a@ =~= b@);
    true
}

impl Value {
    /// Tells whether this value equals another.
    pub fn same_as(&self, rhs: &Value) -> (r: bool)
        ensures
            r == same(self@, rhs@),
        decreases *self,
    {
        match (self, rhs) {
            (Value::String(x), Value::String(y)) => *x == *y,
            (Value::Option(x), Value::Option(y)) => match (x, y) {
                (None, None) => true,
                (Some(p), Some(q)) => p.same_as(q),
                _ => false,
            },
            (Value::Newtype(x), Value::Newtype(y)) => x.same_as(y),
            (Value::Sequence(x), Value::Sequence(y)) => {
                assert(self@ == Model::Sequence(models(x@)));
                assert(rhs@ == Model::Sequence(models(y@)));
                if x.len() != y.len() {
                    return false;
                }
                let mut i: usize = 0;
                while i < x.len()
                    invariant
                        i <= x.len(),
                        x.len() == y.len(),
                        *self == Value::Sequence(*x),
                        self@ == Model::Sequence(models(x@)),
                        rhs@ == Model::Sequence(models(y@)),
                        forall|k: int|
                            0 <= k < i ==> same(#[trigger] models(x@)[k], models(y@)[k]),
                    decreases x.len() - i,
                {
                    proof {
                        assert(decreases_to!(*self => *x));
                        assert(decreases_to!(*x => x[i as int]));
                    }
                    if !x[i].same_as(&y[i]) {
                        assert(!same(models(x@)[i as int], models(y@)[i as int]));
                        return false;
                    }
                    i += 1;
                }
                true
            },
            (Value::Mapping(x), Value::Mapping(y)) => {
                assert(self@ == Model::Mapping(entry_models(x@)));
                assert(rhs@ == Model::Mapping(entry_models(y@)));
                if x.len() != y.len() {
                    return false;
                }
                let mut i: usize = 0;
                while i < x.len()
                    invariant
                        i <= x.len(),
                        x.len() == y.len(),
                        *self == Value::Mapping(*x),
                        self@ == Model::Mapping(entry_models(x@)),
                        rhs@ == Model::Mapping(entry_models(y@)),
                        forall|k: int|
                            0 <= k < i ==> same(
                                (#[trigger] entry_models(x@)[k]).0,
                                entry_models(y@)[k].0,
                            ) && same(entry_models(x@)[k].1, entry_models(y@)[k].1),
                    decreases x.len() - i,
                {
                    proof {
                        assert(decreases_to!(*self => *x));
                        assert(decreases_to!(*x => x[i as int]));
                        assert(decreases_to!(x@[i as int] => x@[i as int].0));
                        assert(decreases_to!(x@[i as int] => x@[i as int].1));
                    }
                    if !x[i].0.same_as(&y[i].0) || !x[i].1.same_as(&y[i].1) {
                        assert(!(same(entry_models(x@)[i as int].0, entry_models(y@)[i as int].0)
                            && same(entry_models(x@)[i as int].1, entry_models(y@)[i as int].1)));
                        return false;
                    }
                    i += 1;
                }
                true
            },
            (Value::Bytes(x), Value::Bytes(y)) => same_bytes(x.as_slice(), y.as_slice()),
            _ => self.discriminant() == rhs.discriminant() && self.scalar_rank()
                == rhs.scalar_rank(),
        }
    }
}

impl PartialEq for Value {
    fn eq(&self, rhs: &Value) -> (r: bool) {
        self.same_as(rhs)
    }
}

impl vstd::std_specs::cmp::PartialEqSpecImpl for Value {
    open spec fn obeys_eq_spec() -> bool {
        true
    }

    open spec fn eq_spec(&self, rhs: &Value) -> bool {
        same(self@, rhs@)
    }
}

impl Eq for Value {

}

} // verus!
