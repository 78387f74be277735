//! Hashing of values.
//!
//! A value is hashed by what it feeds to the hasher: a sequence of writes.
//! Equal values feed the same writes, so they hash alike. A floating-point
//! pattern is fed as its canonical pattern, never as it is held.

use std::collections::hash_map::DefaultHasher;
use std::hash::Hasher;
use vstd::bytes::{spec_u64_to_le_bytes, u64_to_le_bytes};
use vstd::prelude::*;
use vstd::utf8::encode_utf8;
use crate::equal::same;
use crate::float::{
    canonical_double,
    canonical_single,
    double_canonical,
    double_rank_matches_canonical,
    single_canonical,
    single_rank_matches_canonical,
};
use crate::value::{discriminant, entry_models, models, Model, Value};

verus! {

/// The two's complement of a signed integer in 64 bits.
pub open spec fn signed_word(v: int) -> u64 {
    if v >= 0 {
        v as u64
    } else {
        (v + 0x1_0000_0000_0000_0000) as u64
    }
}

/// The word that a scalar feeds to the hasher after its case; 0 for every
/// other value.
pub open spec fn scalar_word(model: Model) -> u64 {
    match model {
        Model::Bool(v) => if v { 1 } else { 0 },
        Model::U8(v) => v as u64,
        Model::U16(v) => v as u64,
        Model::U32(v) => v as u64,
        Model::U64(v) => v,
        Model::I8(v) => signed_word(v as int),
        Model::I16(v) => signed_word(v as int),
        Model::I32(v) => signed_word(v as int),
        Model::I64(v) => signed_word(v as int),
        Model::F32(v) => single_canonical(v) as u64,
        Model::F64(v) => double_canonical(v),
        Model::Char(v) => v as u32 as u64,
        _ => 0,
    }
}

/// One write of a word: its eight bytes, least significant first.
pub open spec fn word(x: u64) -> Seq<Seq<u8>> {
    seq![spec_u64_to_le_bytes(x)]
}

/// The writes that a value feeds to the hasher.
///
/// Every value feeds the position of its case first. A scalar then feeds its
/// word; a string its length in bytes and its UTF-8 encoding; a byte string
/// its length and its bytes; an option 0 where absent, 1 and the wrapped
/// value where present; a newtype the wrapped value; a sequence its length and
/// each element; a mapping its length and each key with its value.
pub open spec fn hash_feed(model: Model) -> Seq<Seq<u8>>
    decreases model, 0int,
{
    let head = word(discriminant(model) as u64);
    match model {
        Model::String(v) => head + word(encode_utf8(v).len() as u64) + seq![encode_utf8(v)],
        Model::Unit => head,
        Model::Option(None) => head + word(0),
        Model::Option(Some(v)) => head + word(1) + hash_feed(*v),
        Model::Newtype(v) => head + hash_feed(*v),
        Model::Sequence(v) => head + word(v.len() as u64) + sequence_feed(v, v.len() as int),
        Model::Mapping(v) => head + word(v.len() as u64) + entries_feed(v, v.len() as int),
        Model::Bytes(v) => head + word(v.len() as u64) + seq![v],
        _ => head + word(scalar_word(model)),
    }
}

/// The writes of the first `count` values of a sequence.
pub open spec fn sequence_feed(values: Seq<Model>, count: int) -> Seq<Seq<u8>>
    decreases values, count,
{
    if count <= 0 || count > values.len() {
        Seq::empty()
    } else {
        sequence_feed(values, count - 1) + hash_feed(values[count - 1])
    }
}

/// The writes of the first `count` entries of a mapping.
pub open spec fn entries_feed(entries: Seq<(Model, Model)>, count: int) -> Seq<Seq<u8>>
    decreases entries, count,
{
    if count <= 0 || count > entries.len() {
        Seq::empty()
    } else {
        entries_feed(entries, count - 1) + hash_feed(entries[count - 1].0) + hash_feed(
            entries[count - 1].1,
        )
    }
}

/// Equal values feed the same writes to the hasher.
pub proof fn equal_values_hash_alike(a: Model, b: Model)
    requires
        same(a, b),
    ensures
        hash_feed(a) == hash_feed(b),
    decreases a, 0int,
{
    match (a, b) {
        (Model::Option(Some(p)), Model::Option(Some(q))) => equal_values_hash_alike(*p, *q),
        (Model::Newtype(p), Model::Newtype(q)) => equal_values_hash_alike(*p, *q),
        (Model::Sequence(x), Model::Sequence(y)) => equal_sequences_hash_alike(
            x,
            y,
            x.len() as int,
        ),
        (Model::Mapping(x), Model::Mapping(y)) => equal_entries_hash_alike(x, y, x.len() as int),
        (Model::F32(x), Model::F32(y)) => single_rank_matches_canonical(x, y),
        (Model::F64(x), Model::F64(y)) => double_rank_matches_canonical(x, y),
        _ => {},
    }
}

proof fn equal_sequences_hash_alike(a: Seq<Model>, b: Seq<Model>, count: int)
    requires
        a.len() == b.len(),
        forall|i: int| 0 <= i < a.len() ==> same(#[trigger] a[i], b[i]),
    ensures
        sequence_feed(a, count) == sequence_feed(b, count),
    decreases a, count,
{
    if 0 < count <= a.len() {
        equal_sequences_hash_alike(a, b, count - 1);
        equal_values_hash_alike(a[count - 1], b[count - 1]);
    }
}

proof fn equal_entries_hash_alike(a: Seq<(Model, Model)>, b: Seq<(Model, Model)>, count: int)
    requires
        a.len() == b.len(),
        forall|i: int|
            0 <= i < a.len() ==> same((#[trigger] a[i]).0, b[i].0) && same(a[i].1, b[i].1),
    ensures
        entries_feed(a, count) == entries_feed(b, count),
    decreases a, count,
{
    if 0 < count <= a.len() {
        equal_entries_hash_alike(a, b, count - 1);
        equal_values_hash_alike(a[count - 1].0, b[count - 1].0);
        equal_values_hash_alike(a[count - 1].1, b[count - 1].1);
    }
}

/// Computes the two's complement of a signed integer in 64 bits.
fn word_of_signed(v: i64) -> (w: u64)
    ensures
        w == signed_word(v as int),
{
    if v >= 0 {
        v as u64
    } else {
        u64::MAX - ((-(v + 1)) as u64)
    }
}

/// Feeds one word to the hasher.
fn write_word(state: &mut DefaultHasher, x: u64)
    ensures
        final(state)@ == old(state)@ + word(x),
{
    let bytes = u64_to_le_bytes(x);
    state.write(bytes.as_slice());
    assert(state@ =~= old(state)@ + word(x));
}

impl Value {
    /// The word that this value feeds to the hasher if it is a scalar.
    fn scalar_word(&self) -> (w: u64)
        ensures
            w == scalar_word(self@),
    {
        match *self {
            Value::Bool(v) => if v { 1 } else { 0 },
            Value::U8(v) => v as u64,
            Value::U16(v) => v as u64,
            Value::U32(v) => v as u64,
            Value::U64(v) => v,
            Value::I8(v) => word_of_signed(v as i64),
            Value::I16(v) => word_of_signed(v as i64),
            Value::I32(v) => word_of_signed(v as i64),
            Value::I64(v) => word_of_signed(v),
            Value::F32(v) => canonical_single(v) as u64,
            Value::F64(v) => canonical_double(v),
            Value::Char(v) => v as u32 as u64,
            _ => 0,
        }
    }

    /// Feeds this value to the hasher.
    pub fn hash(&self, state: &mut DefaultHasher)
        ensures
            final(state)@ == old(state)@ + hash_feed(self@),
        decreases *self,
    {
        write_word(state, self.discriminant() as u64);
        match self {
            Value::String(v) => {
                let bytes = v.as_str().as_bytes();
                write_word(state, bytes.len() as u64);
                state.write(bytes);
                assert(state@ =~= old(state)@ + hash_feed(self@));
            },
            Value::Unit => {},
            Value::Option(None) => {
                write_word(state, 0);
                assert(state@ =~= old(state)@ + hash_feed(self@));
            },
            Value::Option(Some(v)) => {
                write_word(state, 1);
                v.hash(state);
                assert(state@ =~= old(state)@ + hash_feed(self@));
            },
            Value::Newtype(v) => {
                v.hash(state);
                assert(state@ =~= old(state)@ + hash_feed(self@));
            },
            Value::Sequence(v) => {
                write_word(state, v.len() as u64);
                let ghost base = state@;
                assert(decreases_to!(*self => self->Sequence_0));
                let mut i: usize = 0;
                while i < v.len()
                    invariant
                        i <= v.len(),
                        *self == Value::Sequence(*v),
                        decreases_to!(*self => *v),
                        state@ == base + sequence_feed(models(v@), i as int),
                    decreases v.len() - i,
                {
                    proof {
                        assert(decreases_to!(*v => v[i as int]));
                    }
                    v[i].hash(state);
                    i += 1;
                    assert(state@ =~= base + sequence_feed(models(v@), i as int));
                }
                assert(state@ =~= old(state)@ + hash_feed(self@));
            },
            Value::Mapping(v) => {
                write_word(state, v.len() as u64);
                let ghost base = state@;
                assert(decreases_to!(*self => self->Mapping_0));
                let mut i: usize = 0;
                while i < v.len()
                    invariant
                        i <= v.len(),
                        *self == Value::Mapping(*v),
                        decreases_to!(*self => *v),
                        state@ == base + entries_feed(entry_models(v@), i as int),
                    decreases v.len() - i,
                {
                    proof {
                        assert(decreases_to!(*v => v[i as int]));
                        assert(decreases_to!(v[i as int] => v[i as int].0));
                        assert(decreases_to!(v[i as int] => v[i as int].1));
                    }
                    v[i].0.hash(state);
                    v[i].1.hash(state);
                    i += 1;
                    assert(state@ =~= base + entries_feed(entry_models(v@), i as int));
                }
                assert(state@ =~= old(state)@ + hash_feed(self@));
            },
            Value::Bytes(v) => {
                write_word(state, v.len() as u64);
                state.write(v.as_slice());
                assert(state@ =~= old(state)@ + hash_feed(self@));
            },
            _ => {
                write_word(state, self.scalar_word());
                assert(state@ =~= old(state)@ + hash_feed(self@));
            },
        }
    }
}

} // verus!
