//! Mappings as entries sorted by key.
//!
//! A mapping holds its entries in ascending order of their keys, each key
//! once. That order is the one in which a mapping is walked, compared, hashed
//! and encoded.

use std::cmp::Ordering;
use vstd::prelude::*;
use crate::equal::same;
use crate::laws::{order_agrees_with_equality, order_antisymmetric, order_chained};
use crate::order::{less, order};
use crate::value::{entry_models, model_of, models, Model, Value};

verus! {

/// Whether the keys of the entries ascend strictly.
pub open spec fn sorted(entries: Seq<(Model, Model)>) -> bool {
    forall|i: int, j: int|
        0 <= i < j < entries.len() ==> less((#[trigger] entries[i]).0, (#[trigger] entries[j]).0)
}

/// Whether every mapping in the value, at any depth, is sorted.
pub open spec fn well_formed(model: Model) -> bool
    decreases model,
{
    match model {
        Model::Option(Some(v)) => well_formed(*v),
        Model::Newtype(v) => well_formed(*v),
        Model::Sequence(v) => forall|i: int| 0 <= i < v.len() ==> well_formed(#[trigger] v[i]),
        Model::Mapping(v) => sorted(v) && forall|i: int|
            0 <= i < v.len() ==> well_formed((#[trigger] v[i]).0) && well_formed(v[i].1),
        _ => true,
    }
}

/// The first position from `start` on whose key is not less than `key`; the
/// number of entries where there is none.
pub open spec fn position(entries: Seq<(Model, Model)>, key: Model, start: int) -> int
    decreases entries.len() - start,
{
    if 0 <= start < entries.len() && less(entries[start].0, key) {
        position(entries, key, start + 1)
    } else {
        start
    }
}

/// Whether the entries hold `key`, at the position where it belongs.
pub open spec fn holds(entries: Seq<(Model, Model)>, key: Model) -> bool {
    let at = position(entries, key, 0);
    at < entries.len() && same(entries[at].0, key)
}

/// The value that the entries hold for `key`.
pub open spec fn held(entries: Seq<(Model, Model)>, key: Model) -> Option<Model> {
    if holds(entries, key) {
        Some(entries[position(entries, key, 0)].1)
    } else {
        None
    }
}

/// The entries after `value` was put under `key`: where the key is held
/// already, its entry keeps the key it has and takes the new value; otherwise
/// a new entry stands where the key belongs.
pub open spec fn inserted(entries: Seq<(Model, Model)>, key: Model, value: Model) -> Seq<
    (Model, Model),
> {
    let at = position(entries, key, 0);
    if holds(entries, key) {
        entries.update(at, (entries[at].0, value))
    } else {
        entries.insert(at, (key, value))
    }
}

/// The entries that come of putting the first `count` pairs, in their order,
/// into an empty mapping.
pub open spec fn collected(pairs: Seq<(Model, Model)>, count: int) -> Seq<(Model, Model)>
    decreases count,
{
    if count <= 0 || count > pairs.len() {
        Seq::empty()
    } else {
        inserted(collected(pairs, count - 1), pairs[count - 1].0, pairs[count - 1].1)
    }
}

proof fn position_in_range(entries: Seq<(Model, Model)>, key: Model, start: int)
    requires
        0 <= start <= entries.len(),
    ensures
        start <= position(entries, key, start) <= entries.len(),
        forall|i: int|
            start <= i < position(entries, key, start) ==> less((#[trigger] entries[i]).0, key),
        position(entries, key, start) < entries.len() ==> !less(
            entries[position(entries, key, start)].0,
            key,
        ),
    decreases entries.len() - start,
{
    if start < entries.len() && less(entries[start].0, key) {
        position_in_range(entries, key, start + 1);
    }
}

/// Putting a value into sorted entries leaves them sorted.
pub proof fn inserted_is_sorted(entries: Seq<(Model, Model)>, key: Model, value: Model)
    requires
        sorted(entries),
    ensures
        sorted(inserted(entries, key, value)),
{
    let at = position(entries, key, 0);
    let after = inserted(entries, key, value);
    position_in_range(entries, key, 0);
    if !holds(entries, key) {
        assert forall|i: int, j: int| 0 <= i < j < after.len() implies less(
            (#[trigger] after[i]).0,
            (#[trigger] after[j]).0,
        ) by {
            if j == at {
                assert(after[i] == entries[i]);
            } else if i == at {
                // The new key comes before every entry from `at` on.
                let first = entries[at];
                order_antisymmetric(first.0, key);
                order_agrees_with_equality(first.0, key);
                assert(less(key, first.0));
                if j - 1 > at {
                    assert(less(first.0, entries[j - 1].0));
                    order_chained(key, first.0, entries[j - 1].0);
                }
            } else {
                let before = if i < at { i } else { i - 1 };
                let behind = if j < at { j } else { j - 1 };
                assert(less(entries[before].0, entries[behind].0));
            }
        }
    } else {
        assert forall|i: int, j: int| 0 <= i < j < after.len() implies less(
            (#[trigger] after[i]).0,
            (#[trigger] after[j]).0,
        ) by {
            assert(less(entries[i].0, entries[j].0));
        }
    }
}

/// Where every key of sorted entries is less than `key`, putting `key` in
/// appends an entry.
pub proof fn inserted_at_end(entries: Seq<(Model, Model)>, key: Model, value: Model)
    requires
        forall|i: int| 0 <= i < entries.len() ==> less((#[trigger] entries[i]).0, key),
    ensures
        inserted(entries, key, value) == entries.push((key, value)),
{
    position_at_end(entries, key, 0);
    assert(entries.insert(entries.len() as int, (key, value)) =~= entries.push((key, value)));
}

proof fn position_at_end(entries: Seq<(Model, Model)>, key: Model, start: int)
    requires
        0 <= start <= entries.len(),
        forall|i: int| 0 <= i < entries.len() ==> less((#[trigger] entries[i]).0, key),
    ensures
        position(entries, key, start) == entries.len(),
    decreases entries.len() - start,
{
    if start < entries.len() {
        position_at_end(entries, key, start + 1);
    }
}

/// Puts `value` under `key` and hands back the value that the key held
/// before, if it was held.
pub fn insert(
    entries: &mut Vec<(Value, Value)>,
    key: Value,
    value: Value,
) -> (previous: Option<Value>)
    ensures
        entry_models(final(entries)@) == inserted(entry_models(old(entries)@), key@, value@),
        match previous {
            Some(v) => held(entry_models(old(entries)@), key@) == Some(v@),
            None => held(entry_models(old(entries)@), key@) is None,
        },
        sorted(entry_models(old(entries)@)) ==> sorted(entry_models(final(entries)@)),
{
    let ghost before = entry_models(entries@);
    let mut i: usize = 0;
    let ghost mut at: int = 0;
    let mut found = false;
    while i < entries.len()
        invariant_except_break
            !found,
        invariant
            at == i,
            i <= entries.len(),
            entries@ == old(entries)@,
            before == entry_models(entries@),
            position(before, key@, 0) == position(before, key@, at),
        ensures
            i < entries.len() ==> position(before, key@, 0) == at,
            i >= entries.len() ==> position(before, key@, 0) == at && !found,
            found ==> i < entries.len() && same(before[at].0, key@),
            !found && i < entries.len() ==> !same(before[at].0, key@),
        decreases entries.len() - i,
    {
        proof {
            order_agrees_with_equality(before[at].0, key@);
            order_antisymmetric(before[at].0, key@);
        }
        match key.cmp(&entries[i].0) {
            Ordering::Greater => {},
            Ordering::Equal => {
                found = true;
                break ;
            },
            Ordering::Less => {
                break ;
            },
        }
        i += 1;
        proof {
            at = at + 1;
        }
    }
    proof {
        if sorted(before) {
            inserted_is_sorted(before, key@, value@);
        }
    }
    if found {
        let (kept, previous) = entries.remove(i);
        entries.insert(i, (kept, value));
        assert(entry_models(entries@) =~= inserted(before, key@, value@));
        Some(previous)
    } else {
        entries.insert(i, (key, value));
        assert(entry_models(entries@) =~= inserted(before, key@, value@));
        None
    }
}

/// The value as it is built anew from its parts: every mapping in it, at any
/// depth, is collected from its entries in their order.
pub open spec fn rebuilt(model: Model) -> Model
    decreases model,
{
    match model {
        Model::Option(Some(v)) => Model::Option(Some(Box::new(rebuilt(*v)))),
        Model::Newtype(v) => Model::Newtype(Box::new(rebuilt(*v))),
        Model::Sequence(v) => Model::Sequence(rebuilt_values(v)),
        Model::Mapping(v) => Model::Mapping(collected(rebuilt_entries(v), v.len() as int)),
        _ => model,
    }
}

/// Each value of a sequence, built anew.
pub open spec fn rebuilt_values(values: Seq<Model>) -> Seq<Model>
    decreases values,
{
    Seq::new(
        values.len(),
        |i: int|
            if 0 <= i < values.len() {
                rebuilt(values[i])
            } else {
                Model::Unit
            },
    )
}

/// The key and the value of each entry, built anew.
pub open spec fn rebuilt_entries(entries: Seq<(Model, Model)>) -> Seq<(Model, Model)>
    decreases entries,
{
    Seq::new(
        entries.len(),
        |i: int|
            if 0 <= i < entries.len() {
                (rebuilt(entries[i].0), rebuilt(entries[i].1))
            } else {
                (Model::Unit, Model::Unit)
            },
    )
}

/// Collecting the first `count` of sorted entries yields those entries.
pub proof fn collected_sorted(entries: Seq<(Model, Model)>, count: int)
    requires
        sorted(entries),
        0 <= count <= entries.len(),
    ensures
        collected(entries, count) == entries.take(count),
    decreases count,
{
    if count > 0 {
        collected_sorted(entries, count - 1);
        let before = entries.take(count - 1);
        assert forall|i: int| 0 <= i < before.len() implies less(
            (#[trigger] before[i]).0,
            entries[count - 1].0,
        ) by {
            assert(before[i] == entries[i]);
        }
        inserted_at_end(before, entries[count - 1].0, entries[count - 1].1);
        assert(before.push(entries[count - 1]) =~= entries.take(count));
    } else {
        assert(entries.take(0) =~= Seq::empty());
    }
}

/// A value in which every mapping is sorted is built anew as itself.
pub proof fn rebuilt_well_formed(model: Model)
    requires
        well_formed(model),
    ensures
        rebuilt(model) == model,
    decreases model,
{
    match model {
        Model::Option(Some(v)) => rebuilt_well_formed(*v),
        Model::Newtype(v) => rebuilt_well_formed(*v),
        Model::Sequence(v) => {
            assert forall|i: int| 0 <= i < v.len() implies rebuilt_values(v)[i] == v[i] by {
                rebuilt_well_formed(v[i]);
            }
            assert(rebuilt_values(v) =~= v);
        },
        Model::Mapping(v) => {
            assert forall|i: int| 0 <= i < v.len() implies rebuilt_entries(v)[i] == v[i] by {
                rebuilt_well_formed(v[i].0);
                rebuilt_well_formed(v[i].1);
            }
            assert(rebuilt_entries(v) =~= v);
            collected_sorted(v, v.len() as int);
            assert(v.take(v.len() as int) =~= v);
        },
        _ => {},
    }
}

/// Turns a list around.
pub(crate) fn reversed<T>(list: Vec<T>) -> (r: Vec<T>)
    ensures
        r@.len() == list@.len(),
        forall|i: int| 0 <= i < r@.len() ==> r@[i] == list@[list@.len() - 1 - i],
{
    let mut list = list;
    let ghost whole = list@;
    let mut r: Vec<T> = Vec::new();
    while list.len() > 0
        invariant
            list@.len() + r@.len() == whole.len(),
            forall|i: int| 0 <= i < list@.len() ==> list@[i] == whole[i],
            forall|i: int| 0 <= i < r@.len() ==> r@[i] == whole[whole.len() - 1 - i],
        decreases list.len(),
    {
        let item = list.pop();
        match item {
            Some(item) => r.push(item),
            None => {},
        }
    }
    r
}

/// Collects pairs into the entries of a mapping: each pair is put in, in the
/// order of the list, so of two pairs with equal keys the later one's value
/// stays, under the earlier one's key.
pub fn collect(pairs: Vec<(Value, Value)>) -> (entries: Vec<(Value, Value)>)
    ensures
        entry_models(entries@) == collected(entry_models(pairs@), pairs@.len() as int),
        sorted(entry_models(entries@)),
{
    let ghost whole = entry_models(pairs@);
    let mut stack = reversed(pairs);
    let mut entries: Vec<(Value, Value)> = Vec::new();
    let ghost mut done: int = 0;
    while stack.len() > 0
        invariant
            0 <= done <= whole.len(),
            stack@.len() == whole.len() - done,
            forall|i: int|
                0 <= i < stack@.len() ==> (model_of((#[trigger] stack@[i]).0), model_of(
                    stack@[i].1,
                )) == whole[whole.len() - 1 - i],
            entry_models(entries@) == collected(whole, done),
            sorted(entry_models(entries@)),
        decreases stack.len(),
    {
        match stack.pop() {
            Some((key, value)) => {
                assert((key@, value@) == whole[done]);
                insert(&mut entries, key, value);
                proof {
                    done = done + 1;
                }
            },
            None => {},
        }
    }
    entries
}

/// Whether the key and the value of every entry are well-formed.
pub open spec fn entries_well_formed(entries: Seq<(Model, Model)>) -> bool {
    forall|i: int|
        0 <= i < entries.len() ==> well_formed((#[trigger] entries[i]).0) && well_formed(
            entries[i].1,
        )
}

proof fn inserted_entries_well_formed(entries: Seq<(Model, Model)>, key: Model, value: Model)
    requires
        entries_well_formed(entries),
        well_formed(key),
        well_formed(value),
    ensures
        entries_well_formed(inserted(entries, key, value)),
{
    let at = position(entries, key, 0);
    let after = inserted(entries, key, value);
    position_in_range(entries, key, 0);
    assert forall|i: int| 0 <= i < after.len() implies well_formed((#[trigger] after[i]).0)
        && well_formed(after[i].1) by {
        if holds(entries, key) {
            assert(well_formed(entries[i].0) && well_formed(entries[i].1));
        } else if i < at {
            assert(after[i] == entries[i]);
        } else if i > at {
            assert(after[i] == entries[i - 1]);
        }
    }
}

proof fn collected_well_formed(pairs: Seq<(Model, Model)>, count: int)
    requires
        entries_well_formed(pairs),
    ensures
        sorted(collected(pairs, count)),
        entries_well_formed(collected(pairs, count)),
    decreases count,
{
    if 0 < count <= pairs.len() {
        collected_well_formed(pairs, count - 1);
        let before = collected(pairs, count - 1);
        assert(well_formed(pairs[count - 1].0) && well_formed(pairs[count - 1].1));
        inserted_is_sorted(before, pairs[count - 1].0, pairs[count - 1].1);
        inserted_entries_well_formed(before, pairs[count - 1].0, pairs[count - 1].1);
    }
}

/// A value that was built anew is well-formed: every mapping in it is sorted.
pub proof fn rebuilt_is_well_formed(model: Model)
    ensures
        well_formed(rebuilt(model)),
    decreases model,
{
    match model {
        Model::Option(Some(v)) => rebuilt_is_well_formed(*v),
        Model::Newtype(v) => rebuilt_is_well_formed(*v),
        Model::Sequence(v) => {
            assert forall|i: int| 0 <= i < v.len() implies well_formed(
                #[trigger] rebuilt_values(v)[i],
            ) by {
                rebuilt_is_well_formed(v[i]);
            }
            assert(well_formed(Model::Sequence(rebuilt_values(v))));
        },
        Model::Mapping(v) => {
            let pairs = rebuilt_entries(v);
            assert forall|i: int| 0 <= i < pairs.len() implies well_formed((#[trigger] pairs[i]).0)
                && well_formed(pairs[i].1) by {
                rebuilt_is_well_formed(v[i].0);
                rebuilt_is_well_formed(v[i].1);
            }
            collected_well_formed(pairs, v.len() as int);
            assert(well_formed(Model::Mapping(collected(pairs, v.len() as int))));
        },
        _ => {},
    }
}

/// A sequence is well-formed exactly when each of its elements is.
pub proof fn sequence_well_formed(values: Seq<Model>)
    ensures
        well_formed(Model::Sequence(values)) <==> forall|i: int|
            0 <= i < values.len() ==> well_formed(#[trigger] values[i]),
{
    let whole = Model::Sequence(values);
    assert(whole matches Model::Sequence(v) && v == values);
    if well_formed(whole) {
        assert(forall|i: int| 0 <= i < values.len() ==> well_formed(#[trigger] values[i]));
    }
}

/// A mapping is well-formed exactly when it is sorted and the key and the
/// value of each of its entries are well-formed.
pub proof fn mapping_well_formed(entries: Seq<(Model, Model)>)
    ensures
        well_formed(Model::Mapping(entries)) <==> sorted(entries) && entries_well_formed(entries),
{
    let whole = Model::Mapping(entries);
    assert(whole matches Model::Mapping(v) && v == entries);
    if well_formed(whole) {
        assert(forall|i: int|
            0 <= i < entries.len() ==> well_formed((#[trigger] entries[i]).0) && well_formed(
                entries[i].1,
            ));
    }
}

proof fn ascending(entries: Seq<(Model, Model)>, i: int, j: int)
    requires
        0 <= i < j < entries.len(),
        forall|k: int|
            0 <= k && k + 1 < entries.len() ==> less(
                (#[trigger] entries[k]).0,
                entries[k + 1].0,
            ),
    ensures
        less(entries[i].0, entries[j].0),
    decreases j - i,
{
    if i + 1 < j {
        ascending(entries, i, j - 1);
        assert(less(entries[j - 1].0, entries[j - 1 + 1].0));
        order_chained(entries[i].0, entries[j - 1].0, entries[j].0);
    } else {
        assert(less(entries[i].0, entries[i + 1].0));
    }
}

impl Value {
    /// Tells whether every mapping in this value, at any depth, is sorted.
    pub fn is_well_formed(&self) -> (r: bool)
        ensures
            r == well_formed(self@),
        decreases *self,
    {
        match self {
            Value::Option(Some(v)) => v.is_well_formed(),
            Value::Newtype(v) => v.is_well_formed(),
            Value::Sequence(v) => {
                let ghost whole = models(v@);
                assert(self@ == Model::Sequence(whole));
                let mut i: usize = 0;
                let ghost mut at: int = 0;
                while i < v.len()
                    invariant
                        at == i,
                        i <= v.len(),
                        *self == Value::Sequence(*v),
                        whole == models(v@),
                        self@ == Model::Sequence(whole),
                        forall|k: int| 0 <= k < at ==> well_formed(#[trigger] whole[k]),
                    decreases v.len() - i,
                {
                    proof {
                        assert(decreases_to!(*self => v@[at]));
                    }
                    if !v[i].is_well_formed() {
                        assert(!well_formed(whole[at]));
                        proof {
                            sequence_well_formed(whole);
                        }
                        return false;
                    }
                    i += 1;
                    proof {
                        at = at + 1;
                    }
                }
                proof {
                    sequence_well_formed(whole);
                }
                true
            },
            Value::Mapping(v) => {
                let ghost whole = entry_models(v@);
                assert(self@ == Model::Mapping(whole));
                let mut i: usize = 0;
                let ghost mut at: int = 0;
                while i < v.len()
                    invariant
                        at == i,
                        i <= v.len(),
                        *self == Value::Mapping(*v),
                        whole == entry_models(v@),
                        self@ == Model::Mapping(whole),
                        forall|k: int|
                            0 <= k < at ==> well_formed((#[trigger] whole[k]).0) && well_formed(
                                whole[k].1,
                            ),
                        forall|k: int|
                            0 <= k && k + 1 < at ==> less((#[trigger] whole[k]).0, whole[k + 1].0),
                    decreases v.len() - i,
                {
                    proof {
                        assert(decreases_to!(*self => v@[at]));
                        assert(decreases_to!(v@[at] => v@[at].0));
                        assert(decreases_to!(v@[at] => v@[at].1));
                    }
                    if !v[i].0.is_well_formed() || !v[i].1.is_well_formed() {
                        assert(!(well_formed(whole[at].0) && well_formed(whole[at].1)));
                        proof {
                            mapping_well_formed(whole);
                        }
                        return false;
                    }
                    if i > 0 {
                        match v[i - 1].0.cmp(&v[i].0) {
                            Ordering::Less => {},
                            _ => {
                                assert(!less(whole[at - 1].0, whole[at].0));
                                proof {
                                    mapping_well_formed(whole);
                                }
                                return false;
                            },
                        }
                    }
                    i += 1;
                    proof {
                        at = at + 1;
                    }
                }
                proof {
                    assert forall|a: int, b: int| 0 <= a < b < whole.len() implies less(
                        (#[trigger] whole[a]).0,
                        (#[trigger] whole[b]).0,
                    ) by {
                        ascending(whole, a, b);
                    }
                    mapping_well_formed(whole);
                }
                true
            },
            _ => true,
        }
    }
}

} // verus!
