//! The order on values is a total order.

use std::cmp::Ordering;
use vstd::prelude::*;
use vstd::utf8::{encode_utf8, encode_utf8_decode_utf8};
use crate::equal::same;
use crate::order::{bytes_order, entries_order, less, order, sequence_order};
use crate::value::{discriminant, Model};

verus! {

/// The outcome of a comparison with its two sides exchanged.
pub open spec fn opposite(o: Ordering) -> Ordering {
    match o {
        Ordering::Less => Ordering::Greater,
        Ordering::Equal => Ordering::Equal,
        Ordering::Greater => Ordering::Less,
    }
}

/// Whether the comparison of a first with a third item is what follows from
/// comparing the first with a second and the second with the third: where
/// neither comparison says greater, the first is less than the third if one
/// of them says less, and equal to it otherwise.
pub open spec fn chained(first: Ordering, second: Ordering, outer: Ordering) -> bool {
    first != Ordering::Greater && second != Ordering::Greater ==> outer == if first
        == Ordering::Less || second == Ordering::Less {
        Ordering::Less
    } else {
        Ordering::Equal
    }
}

proof fn bytes_reflexive(a: Seq<u8>, start: int)
    ensures
        bytes_order(a, a, start) == Ordering::Equal,
    decreases a.len() - start,
{
    if start < a.len() {
        bytes_reflexive(a, start + 1);
    }
}

proof fn bytes_antisymmetric(a: Seq<u8>, b: Seq<u8>, start: int)
    ensures
        bytes_order(b, a, start) == opposite(bytes_order(a, b, start)),
    decreases a.len() - start,
{
    if start < a.len() && start < b.len() {
        bytes_antisymmetric(a, b, start + 1);
    }
}

proof fn bytes_transitive(a: Seq<u8>, b: Seq<u8>, c: Seq<u8>, start: int)
    ensures
        chained(bytes_order(a, b, start), bytes_order(b, c, start), bytes_order(a, c, start)),
    decreases a.len() - start,
{
    if start < a.len() && start < b.len() && start < c.len() {
        bytes_transitive(a, b, c, start + 1);
    }
}

/// Every value equals itself in the order.
pub proof fn order_reflexive(a: Model)
    ensures
        order(a, a) == Ordering::Equal,
    decreases a, 0int,
{
    match a {
        Model::String(x) => bytes_reflexive(encode_utf8(x), 0),
        Model::Option(Some(p)) => order_reflexive(*p),
        Model::Newtype(p) => order_reflexive(*p),
        Model::Sequence(x) => sequence_reflexive(x, 0),
        Model::Mapping(x) => entries_reflexive(x, 0),
        Model::Bytes(x) => bytes_reflexive(x, 0),
        _ => {},
    }
}

proof fn sequence_reflexive(a: Seq<Model>, start: int)
    ensures
        sequence_order(a, a, start) == Ordering::Equal,
    decreases a, a.len() - start,
{
    if 0 <= start < a.len() {
        order_reflexive(a[start]);
        sequence_reflexive(a, start + 1);
    }
}

proof fn entries_reflexive(a: Seq<(Model, Model)>, start: int)
    ensures
        entries_order(a, a, start) == Ordering::Equal,
    decreases a, a.len() - start,
{
    if 0 <= start < a.len() {
        order_reflexive(a[start].0);
        order_reflexive(a[start].1);
        entries_reflexive(a, start + 1);
    }
}

/// Exchanging the two sides of a comparison reverses its outcome.
pub proof fn order_antisymmetric(a: Model, b: Model)
    ensures
        order(b, a) == opposite(order(a, b)),
    decreases a, 0int,
{
    if discriminant(a) == discriminant(b) {
        match (a, b) {
            (Model::String(x), Model::String(y)) => bytes_antisymmetric(
                encode_utf8(x),
                encode_utf8(y),
                0,
            ),
            (Model::Option(Some(p)), Model::Option(Some(q))) => order_antisymmetric(*p, *q),
            (Model::Newtype(p), Model::Newtype(q)) => order_antisymmetric(*p, *q),
            (Model::Sequence(x), Model::Sequence(y)) => sequence_antisymmetric(x, y, 0),
            (Model::Mapping(x), Model::Mapping(y)) => entries_antisymmetric(x, y, 0),
            (Model::Bytes(x), Model::Bytes(y)) => bytes_antisymmetric(x, y, 0),
            _ => {},
        }
    }
}

proof fn sequence_antisymmetric(a: Seq<Model>, b: Seq<Model>, start: int)
    ensures
        sequence_order(b, a, start) == opposite(sequence_order(a, b, start)),
    decreases a, a.len() - start,
{
    if 0 <= start < a.len() && start < b.len() {
        order_antisymmetric(a[start], b[start]);
        sequence_antisymmetric(a, b, start + 1);
    }
}

proof fn entries_antisymmetric(a: Seq<(Model, Model)>, b: Seq<(Model, Model)>, start: int)
    ensures
        entries_order(b, a, start) == opposite(entries_order(a, b, start)),
    decreases a, a.len() - start,
{
    if 0 <= start < a.len() && start < b.len() {
        order_antisymmetric(a[start].0, b[start].0);
        order_antisymmetric(a[start].1, b[start].1);
        entries_antisymmetric(a, b, start + 1);
    }
}

/// The order is transitive: see [`chained`].
pub proof fn order_chained(a: Model, b: Model, c: Model)
    ensures
        chained(order(a, b), order(b, c), order(a, c)),
    decreases a, 0int,
{
    if discriminant(a) == discriminant(b) && discriminant(b) == discriminant(c) {
        match (a, b, c) {
            (Model::String(x), Model::String(y), Model::String(z)) => bytes_transitive(
                encode_utf8(x),
                encode_utf8(y),
                encode_utf8(z),
                0,
            ),
            (
                Model::Option(Some(p)),
                Model::Option(Some(q)),
                Model::Option(Some(r)),
            ) => order_chained(*p, *q, *r),
            (Model::Newtype(p), Model::Newtype(q), Model::Newtype(r)) => order_chained(
                *p,
                *q,
                *r,
            ),
            (Model::Sequence(x), Model::Sequence(y), Model::Sequence(z)) => sequence_chained(
                x,
                y,
                z,
                0,
            ),
            (Model::Mapping(x), Model::Mapping(y), Model::Mapping(z)) => entries_chained(
                x,
                y,
                z,
                0,
            ),
            (Model::Bytes(x), Model::Bytes(y), Model::Bytes(z)) => bytes_transitive(x, y, z, 0),
            _ => {},
        }
    }
}

proof fn sequence_chained(a: Seq<Model>, b: Seq<Model>, c: Seq<Model>, start: int)
    ensures
        chained(
            sequence_order(a, b, start),
            sequence_order(b, c, start),
            sequence_order(a, c, start),
        ),
    decreases a, a.len() - start,
{
    if 0 <= start < a.len() && start < b.len() && start < c.len() {
        order_chained(a[start], b[start], c[start]);
        sequence_chained(a, b, c, start + 1);
    }
}

proof fn entries_chained(
    a: Seq<(Model, Model)>,
    b: Seq<(Model, Model)>,
    c: Seq<(Model, Model)>,
    start: int,
)
    ensures
        chained(
            entries_order(a, b, start),
            entries_order(b, c, start),
            entries_order(a, c, start),
        ),
    decreases a, a.len() - start,
{
    if 0 <= start < a.len() && start < b.len() && start < c.len() {
        order_chained(a[start].0, b[start].0, c[start].0);
        order_chained(a[start].1, b[start].1, c[start].1);
        entries_chained(a, b, c, start + 1);
    }
}

proof fn bytes_equal_iff(a: Seq<u8>, b: Seq<u8>, start: int)
    requires
        0 <= start <= a.len(),
        start <= b.len(),
    ensures
        bytes_order(a, b, start) == Ordering::Equal <==> a.len() == b.len() && forall|i: int|
            start <= i < a.len() ==> a[i] == b[i],
    decreases a.len() - start,
{
    if start < a.len() && start < b.len() {
        bytes_equal_iff(a, b, start + 1);
    }
}

/// Two values compare as equal in the order exactly when they are equal.
pub proof fn order_agrees_with_equality(a: Model, b: Model)
    ensures
        order(a, b) == Ordering::Equal <==> same(a, b),
    decreases a, 0int,
{
    if discriminant(a) == discriminant(b) {
        match (a, b) {
            (Model::String(x), Model::String(y)) => {
                bytes_equal_iff(encode_utf8(x), encode_utf8(y), 0);
                encode_utf8_decode_utf8(x);
                encode_utf8_decode_utf8(y);
                if order(a, b) == Ordering::Equal {
                    assert(encode_utf8(x) =~= encode_utf8(y));
                }
            },
            (Model::Option(Some(p)), Model::Option(Some(q))) => order_agrees_with_equality(
                *p,
                *q,
            ),
            (Model::Newtype(p), Model::Newtype(q)) => order_agrees_with_equality(*p, *q),
            (Model::Sequence(x), Model::Sequence(y)) => sequence_equal_iff(x, y, 0),
            (Model::Mapping(x), Model::Mapping(y)) => entries_equal_iff(x, y, 0),
            (Model::Bytes(x), Model::Bytes(y)) => {
                bytes_equal_iff(x, y, 0);
                if order(a, b) == Ordering::Equal {
                    assert(x =~= y);
                }
            },
            _ => {},
        }
    }
}

proof fn sequence_equal_iff(a: Seq<Model>, b: Seq<Model>, start: int)
    requires
        0 <= start <= a.len(),
        start <= b.len(),
    ensures
        sequence_order(a, b, start) == Ordering::Equal <==> a.len() == b.len() && forall|i: int|
            start <= i < a.len() ==> same(#[trigger] a[i], b[i]),
    decreases a, a.len() - start,
{
    if start < a.len() && start < b.len() {
        order_agrees_with_equality(a[start], b[start]);
        sequence_equal_iff(a, b, start + 1);
    }
}

proof fn entries_equal_iff(a: Seq<(Model, Model)>, b: Seq<(Model, Model)>, start: int)
    requires
        0 <= start <= a.len(),
        start <= b.len(),
    ensures
        entries_order(a, b, start) == Ordering::Equal <==> a.len() == b.len() && forall|i: int|
            start <= i < a.len() ==> same((#[trigger] a[i]).0, b[i].0) && same(a[i].1, b[i].1),
    decreases a, a.len() - start,
{
    if start < a.len() && start < b.len() {
        order_agrees_with_equality(a[start].0, b[start].0);
        order_agrees_with_equality(a[start].1, b[start].1);
        entries_equal_iff(a, b, start + 1);
    }
}

/// Of two values exactly one holds: the first is less than the second, the
/// two are equal, or the first is greater than the second.
pub proof fn order_total(a: Model, b: Model)
    ensures
        less(a, b) || same(a, b) || less(b, a),
        !(less(a, b) && same(a, b)),
        !(less(a, b) && less(b, a)),
        !(same(a, b) && less(b, a)),
{
    order_antisymmetric(a, b);
    order_agrees_with_equality(a, b);
}

/// Where a first value is less than a second and the second less than a
/// third, the first is less than the third.
pub proof fn order_transitive(a: Model, b: Model, c: Model)
    ensures
        less(a, b) && less(b, c) ==> less(a, c),
{
    order_chained(a, b, c);
}

/// Every value equals itself.
pub proof fn equality_reflexive(a: Model)
    ensures
        same(a, a),
{
    order_reflexive(a);
    order_agrees_with_equality(a, a);
}

/// Where a first value equals a second, the second equals the first.
pub proof fn equality_symmetric(a: Model, b: Model)
    ensures
        same(a, b) ==> same(b, a),
{
    order_antisymmetric(a, b);
    order_agrees_with_equality(a, b);
    order_agrees_with_equality(b, a);
}

/// Where a first value equals a second and the second a third, the first
/// equals the third.
pub proof fn equality_transitive(a: Model, b: Model, c: Model)
    ensures
        same(a, b) && same(b, c) ==> same(a, c),
{
    order_chained(a, b, c);
    order_agrees_with_equality(a, b);
    order_agrees_with_equality(b, c);
    order_agrees_with_equality(a, c);
}

} // verus!
