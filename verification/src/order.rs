//! The total order on values.
//!
//! Values of one case are ordered by their contents; values of different
//! cases by the position of their case in the declaration of the type.

use std::cmp::Ordering;
use vstd::prelude::*;
use vstd::utf8::encode_utf8;
use crate::value::{discriminant, entry_models, models, scalar_rank, Model, Value};

verus! {

/// How two integers compare.
pub open spec fn int_order(a: int, b: int) -> Ordering {
    if a < b {
        Ordering::Less
    } else if a > b {
        Ordering::Greater
    } else {
        Ordering::Equal
    }
}

/// How two byte strings compare from position `start` on, position by
/// position; where one ends first, it comes first.
pub open spec fn bytes_order(a: Seq<u8>, b: Seq<u8>, start: int) -> Ordering
    decreases a.len() - start,
{
    if start >= a.len() {
        if start >= b.len() {
            Ordering::Equal
        } else {
            Ordering::Less
        }
    } else if start >= b.len() {
        Ordering::Greater
    } else if a[start] < b[start] {
        Ordering::Less
    } else if a[start] > b[start] {
        Ordering::Greater
    } else {
        bytes_order(a, b, start + 1)
    }
}

/// How two values compare.
///
/// Scalars of one case compare by their rank, strings by the bytes of their
/// UTF-8 encoding, an absent option before a present one, sequences element by
/// element, mappings entry by entry (key, then value), byte strings byte by
/// byte. Values of different cases compare by the position of their case.
pub open spec fn order(a: Model, b: Model) -> Ordering
    decreases a, 0int,
{
    match (a, b) {
        (Model::String(x), Model::String(y)) => bytes_order(encode_utf8(x), encode_utf8(y), 0),
        (Model::Option(x), Model::Option(y)) => match (x, y) {
            (None, None) => Ordering::Equal,
            (None, Some(_)) => Ordering::Less,
            (Some(_), None) => Ordering::Greater,
            (Some(p), Some(q)) => order(*p, *q),
        },
        (Model::Newtype(x), Model::Newtype(y)) => order(*x, *y),
        (Model::Sequence(x), Model::Sequence(y)) => sequence_order(x, y, 0),
        (Model::Mapping(x), Model::Mapping(y)) => entries_order(x, y, 0),
        (Model::Bytes(x), Model::Bytes(y)) => bytes_order(x, y, 0),
        _ => if discriminant(a) != discriminant(b) {
            int_order(discriminant(a), discriminant(b))
        } else {
            int_order(scalar_rank(a), scalar_rank(b))
        },
    }
}

/// Whether the first value comes before the second in the order.
pub open spec fn less(a: Model, b: Model) -> bool {
    order(a, b) == Ordering::Less
}

/// How two sequences of values compare from position `start` on: by the first
/// position at which the elements differ; where one ends first, it comes
/// first.
pub open spec fn sequence_order(a: Seq<Model>, b: Seq<Model>, start: int) -> Ordering
    decreases a, a.len() - start,
{
    if start < 0 || start >= a.len() {
        if start < 0 || start >= b.len() {
            Ordering::Equal
        } else {
            Ordering::Less
        }
    } else if start >= b.len() {
        Ordering::Greater
    } else {
        match order(a[start], b[start]) {
            Ordering::Equal => sequence_order(a, b, start + 1),
            decided => decided,
        }
    }
}

/// How two sequences of entries compare from position `start` on: by the
/// first position at which the keys differ or, with equal keys, the values.
pub open spec fn entries_order(
    a: Seq<(Model, Model)>,
    b: Seq<(Model, Model)>,
    start: int,
) -> Ordering
    decreases a, a.len() - start,
{
    if start < 0 || start >= a.len() {
        if start < 0 || start >= b.len() {
            Ordering::Equal
        } else {
            Ordering::Less
        }
    } else if start >= b.len() {
        Ordering::Greater
    } else {
        match order(a[start].0, b[start].0) {
            Ordering::Equal => match order(a[start].1, b[start].1) {
                Ordering::Equal => entries_order(a, b, start + 1),
                decided => decided,
            },
            decided => decided,
        }
    }
}

/// Compares two integers.
fn compare_ints(a: i128, b: i128) -> (r: Ordering)
    ensures
        a < b ==> r == Ordering::Less,
        a > b ==> r == Ordering::Greater,
        a == b ==> r == Ordering::Equal,
{
    if a < b {
        Ordering::Less
    } else if a > b {
        Ordering::Greater
    } else {
        Ordering::Equal
    }
}

/// Compares two byte strings position by position.
pub fn compare_bytes(a: &[u8], b: &[u8]) -> (r: Ordering)
    ensures
        r == bytes_order(a@, b@, 0),
{
    let mut i: usize = 0;
    let ghost mut at: int = 0;
    while i < a.len() && i < b.len()
        invariant
            at == i,
            i <= a.len(),
            i <= b.len(),
            bytes_order(a@, b@, 0) == bytes_order(a@, b@, at),
        decreases a.len() - i,
    {
        if a[i] < b[i] {
            return Ordering::Less;
        }
        if a[i] > b[i] {
            return Ordering::Greater;
        }
        i += 1;
        proof {
            at = at + 1;
        }
    }
    if i < b.len() {
        Ordering::Less
    } else if i < a.len() {
        Ordering::Greater
    } else {
        Ordering::Equal
    }
}

impl Value {
    /// Compares this value with another in the total order on values.
    pub fn cmp(&self, rhs: &Value) -> (r: Ordering)
        ensures
            r == order(self@, rhs@),
        decreases *self,
    {
        match (self, rhs) {
            (Value::String(x), Value::String(y)) => compare_bytes(
                x.as_str().as_bytes(),
                y.as_str().as_bytes(),
            ),
            (Value::Option(x), Value::Option(y)) => match (x, y) {
                (None, None) => Ordering::Equal,
                (None, Some(_)) => Ordering::Less,
                (Some(_), None) => Ordering::Greater,
                (Some(p), Some(q)) => p.cmp(q),
            },
            (Value::Newtype(x), Value::Newtype(y)) => x.cmp(y),
            (Value::Sequence(x), Value::Sequence(y)) => {
                let mut i: usize = 0;
                let ghost mut at: int = 0;
                while i < x.len() && i < y.len()
                    invariant
                        at == i,
                        i <= x.len(),
                        i <= y.len(),
                        *self == Value::Sequence(*x),
                        *rhs == Value::Sequence(*y),
                        sequence_order(models(x@), models(y@), 0) == sequence_order(
                            models(x@),
                            models(y@),
                            at,
                        ),
                    decreases x.len() - i,
                {
                    proof {
                        assert(decreases_to!(*self => x@[at]));
                    }
                    let step = x[i].cmp(&y[i]);
                    match step {
                        Ordering::Equal => {},
                        _ => {
                            return step;
                        },
                    }
                    i += 1;
                    proof {
                        at = at + 1;
                    }
                }
                if i < y.len() {
                    Ordering::Less
                } else if i < x.len() {
                    Ordering::Greater
                } else {
                    Ordering::Equal
                }
            },
            (Value::Mapping(x), Value::Mapping(y)) => {
                let mut i: usize = 0;
                let ghost mut at: int = 0;
                while i < x.len() && i < y.len()
                    invariant
                        at == i,
                        i <= x.len(),
                        i <= y.len(),
                        *self == Value::Mapping(*x),
                        *rhs == Value::Mapping(*y),
                        entries_order(entry_models(x@), entry_models(y@), 0) == entries_order(
                            entry_models(x@),
                            entry_models(y@),
                            at,
                        ),
                    decreases x.len() - i,
                {
                    proof {
                        assert(decreases_to!(*self => x@[at]));
                        assert(decreases_to!(x@[at] => x@[at].0));
                        assert(decreases_to!(x@[at] => x@[at].1));
                    }
                    let key_step = x[i].0.cmp(&y[i].0);
                    match key_step {
                        Ordering::Equal => {},
                        _ => {
                            return key_step;
                        },
                    }
                    let value_step = x[i].1.cmp(&y[i].1);
                    match value_step {
                        Ordering::Equal => {},
                        _ => {
                            return value_step;
                        },
                    }
                    i += 1;
                    proof {
                        at = at + 1;
                    }
                }
                if i < y.len() {
                    Ordering::Less
                } else if i < x.len() {
                    Ordering::Greater
                } else {
                    Ordering::Equal
                }
            },
            (Value::Bytes(x), Value::Bytes(y)) => compare_bytes(x.as_slice(), y.as_slice()),
            _ => {
                let d0 = self.discriminant();
                let d1 = rhs.discriminant();
                if d0 < d1 {
                    Ordering::Less
                } else if d0 > d1 {
                    Ordering::Greater
                } else {
                    compare_ints(self.scalar_rank(), rhs.scalar_rank())
                }
            },
        }
    }
}

impl PartialOrd for Value {
    fn partial_cmp(&self, rhs: &Value) -> (r: Option<Ordering>) {
        Some(self.cmp(rhs))
    }
}

impl vstd::std_specs::cmp::PartialOrdSpecImpl for Value {
    open spec fn obeys_partial_cmp_spec() -> bool {
        true
    }

    open spec fn partial_cmp_spec(&self, rhs: &Value) -> Option<Ordering> {
        Some(order(self@, rhs@))
    }
}

} // verus!
