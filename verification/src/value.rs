//! The value tree and its mathematical model.

use vstd::prelude::*;
use crate::float::{double_rank, rank_double, rank_single, single_rank};

verus! {

/// A self-describing value: one case for each scalar and each composite shape.
///
/// The two floating-point cases hold the number's bit pattern. The entries of
/// a `Mapping` are kept sorted by key, each key once; see
/// [`well_formed`](crate::map::well_formed).
#[derive(Debug)]
pub enum Value {
    Bool(bool),
    U8(u8),
    U16(u16),
    U32(u32),
    U64(u64),
    I8(i8),
    I16(i16),
    I32(i32),
    I64(i64),
    F32(u32),
    F64(u64),
    Char(char),
    String(String),
    Unit,
    Option(Option<Box<Value>>),
    Newtype(Box<Value>),
    Sequence(Vec<Value>),
    Mapping(Vec<(Value, Value)>),
    Bytes(Vec<u8>),
}

/// What a [`Value`] stands for: the same tree over mathematical sequences.
pub enum Model {
    Bool(bool),
    U8(u8),
    U16(u16),
    U32(u32),
    U64(u64),
    I8(i8),
    I16(i16),
    I32(i32),
    I64(i64),
    F32(u32),
    F64(u64),
    Char(char),
    String(Seq<char>),
    Unit,
    Option(Option<Box<Model>>),
    Newtype(Box<Model>),
    Sequence(Seq<Model>),
    Mapping(Seq<(Model, Model)>),
    Bytes(Seq<u8>),
}

/// The models of a sequence of values, element by element.
pub open spec fn models(values: Seq<Value>) -> Seq<Model>
    decreases values,
{
    Seq::new(
        values.len(),
        |i: int|
            if 0 <= i < values.len() {
                model_of(values[i])
            } else {
                Model::Unit
            },
    )
}

/// The models of a sequence of entries, key and value of each.
pub open spec fn entry_models(entries: Seq<(Value, Value)>) -> Seq<(Model, Model)>
    decreases entries,
{
    Seq::new(
        entries.len(),
        |i: int|
            if 0 <= i < entries.len() {
                (model_of(entries[i].0), model_of(entries[i].1))
            } else {
                (Model::Unit, Model::Unit)
            },
    )
}

/// The model of one value.
pub open spec fn model_of(value: Value) -> Model
    decreases value,
{
    match value {
        Value::Bool(v) => Model::Bool(v),
        Value::U8(v) => Model::U8(v),
        Value::U16(v) => Model::U16(v),
        Value::U32(v) => Model::U32(v),
        Value::U64(v) => Model::U64(v),
        Value::I8(v) => Model::I8(v),
        Value::I16(v) => Model::I16(v),
        Value::I32(v) => Model::I32(v),
        Value::I64(v) => Model::I64(v),
        Value::F32(v) => Model::F32(v),
        Value::F64(v) => Model::F64(v),
        Value::Char(v) => Model::Char(v),
        Value::String(v) => Model::String(v@),
        Value::Unit => Model::Unit,
        Value::Option(None) => Model::Option(None),
        Value::Option(Some(v)) => Model::Option(Some(Box::new(model_of(*v)))),
        Value::Newtype(v) => Model::Newtype(Box::new(model_of(*v))),
        Value::Sequence(v) => Model::Sequence(models(v@)),
        Value::Mapping(v) => Model::Mapping(entry_models(v@)),
        Value::Bytes(v) => Model::Bytes(v@),
    }
}

impl View for Value {
    type V = Model;

    open spec fn view(&self) -> Model {
        model_of(*self)
    }
}

/// The position of a value's case in the declaration of [`Value`]. Values of
/// different cases are ordered by it.
pub open spec fn discriminant(model: Model) -> int {
    match model {
        Model::Bool(_) => 0,
        Model::U8(_) => 1,
        Model::U16(_) => 2,
        Model::U32(_) => 3,
        Model::U64(_) => 4,
        Model::I8(_) => 5,
        Model::I16(_) => 6,
        Model::I32(_) => 7,
        Model::I64(_) => 8,
        Model::F32(_) => 9,
        Model::F64(_) => 10,
        Model::Char(_) => 11,
        Model::String(_) => 12,
        Model::Unit => 13,
        Model::Option(_) => 14,
        Model::Newtype(_) => 15,
        Model::Sequence(_) => 16,
        Model::Mapping(_) => 17,
        Model::Bytes(_) => 18,
    }
}

/// The integer by which a scalar is ordered among the scalars of its own
/// case: `false` before `true`, an integer by its value, a floating-point
/// pattern by its rank, a character by its code point. Every other value has
/// rank 0.
pub open spec fn scalar_rank(model: Model) -> int {
    match model {
        Model::Bool(v) => if v { 1 } else { 0 },
        Model::U8(v) => v as int,
        Model::U16(v) => v as int,
        Model::U32(v) => v as int,
        Model::U64(v) => v as int,
        Model::I8(v) => v as int,
        Model::I16(v) => v as int,
        Model::I32(v) => v as int,
        Model::I64(v) => v as int,
        Model::F32(v) => single_rank(v),
        Model::F64(v) => double_rank(v),
        Model::Char(v) => v as u32 as int,
        _ => 0,
    }
}

impl Value {
    /// The position of this value's case in the declaration of the type.
    pub fn discriminant(&self) -> (d: usize)
        ensures
            d == discriminant(self@),
    {
        match *self {
            Value::Bool(..) => 0,
            Value::U8(..) => 1,
            Value::U16(..) => 2,
            Value::U32(..) => 3,
            Value::U64(..) => 4,
            Value::I8(..) => 5,
            Value::I16(..) => 6,
            Value::I32(..) => 7,
            Value::I64(..) => 8,
            Value::F32(..) => 9,
            Value::F64(..) => 10,
            Value::Char(..) => 11,
            Value::String(..) => 12,
            Value::Unit => 13,
            Value::Option(..) => 14,
            Value::Newtype(..) => 15,
            Value::Sequence(..) => 16,
            Value::Mapping(..) => 17,
            Value::Bytes(..) => 18,
        }
    }

    /// The integer by which this value is ordered among scalars of its case.
    pub fn scalar_rank(&self) -> (rank: i128)
        ensures
            rank == scalar_rank(self@),
    {
        match *self {
            Value::Bool(v) => if v { 1 } else { 0 },
            Value::U8(v) => v as i128,
            Value::U16(v) => v as i128,
            Value::U32(v) => v as i128,
            Value::U64(v) => v as i128,
            Value::I8(v) => v as i128,
            Value::I16(v) => v as i128,
            Value::I32(v) => v as i128,
            Value::I64(v) => v as i128,
            Value::F32(v) => rank_single(v) as i128,
            Value::F64(v) => rank_double(v),
            Value::Char(v) => v as u32 as i128,
            _ => 0,
        }
    }
}

/// Copies a byte string.
pub fn copy_bytes(bytes: &[u8]) -> (copy: Vec<u8>)
    ensures
        copy@ == bytes@,
{
    let mut copy: Vec<u8> = Vec::new();
    let mut i: usize = 0;
    while i < bytes.len()
        invariant
            i <= bytes.len(),
            copy@ == bytes@.subrange(0, i as int),
        decreases bytes.len() - i,
    {
        copy.push(bytes[i]);
        i += 1;
        assert(copy@ =~= bytes@.subrange(0, i as int));
    }
    assert(copy@ =~= bytes@);
    copy
}

impl Value {
    /// Copies this value, with all that it holds.
    pub fn duplicate(&self) -> (r: Value)
        ensures
            r@ == self@,
        decreases *self,
    {
        match self {
            Value::Bool(v) => Value::Bool(*v),
            Value::U8(v) => Value::U8(*v),
            Value::U16(v) => Value::U16(*v),
            Value::U32(v) => Value::U32(*v),
            Value::U64(v) => Value::U64(*v),
            Value::I8(v) => Value::I8(*v),
            Value::I16(v) => Value::I16(*v),
            Value::I32(v) => Value::I32(*v),
            Value::I64(v) => Value::I64(*v),
            Value::F32(v) => Value::F32(*v),
            Value::F64(v) => Value::F64(*v),
            Value::Char(v) => Value::Char(*v),
            Value::String(v) => Value::String(v.clone()),
            Value::Unit => Value::Unit,
            Value::Option(None) => Value::Option(None),
            Value::Option(Some(v)) => Value::Option(Some(Box::new(v.duplicate()))),
            Value::Newtype(v) => Value::Newtype(Box::new(v.duplicate())),
            Value::Sequence(v) => {
                assert(decreases_to!(*self => self->Sequence_0));
                let mut copy: Vec<Value> = Vec::new();
                let mut i: usize = 0;
                while i < v.len()
                    invariant
                        i <= v.len(),
                        *self == Value::Sequence(*v),
                        decreases_to!(*self => *v),
                        copy@.len() == i,
                        forall|k: int| 0 <= k < i ==> (#[trigger] copy@[k])@ == v@[k]@,
                    decreases v.len() - i,
                {
                    proof {
                        assert(decreases_to!(*v => v[i as int]));
                    }
                    copy.push(v[i].duplicate());
                    i += 1;
                }
                assert(models(copy@) =~= models(v@));
                Value::Sequence(copy)
            },
            Value::Mapping(v) => {
                assert(decreases_to!(*self => self->Mapping_0));
                let mut copy: Vec<(Value, Value)> = Vec::new();
                let mut i: usize = 0;
                while i < v.len()
                    invariant
                        i <= v.len(),
                        *self == Value::Mapping(*v),
                        decreases_to!(*self => *v),
                        copy@.len() == i,
                        forall|k: int|
                            0 <= k < i ==> (#[trigger] copy@[k]).0@ == v@[k].0@ && copy@[k].1@
                                == v@[k].1@,
                    decreases v.len() - i,
                {
                    proof {
                        assert(decreases_to!(*v => v[i as int]));
                        assert(decreases_to!(v[i as int] => v[i as int].0));
                        assert(decreases_to!(v[i as int] => v[i as int].1));
                    }
                    let key = v[i].0.duplicate();
                    let held = v[i].1.duplicate();
                    copy.push((key, held));
                    i += 1;
                }
                assert(entry_models(copy@) =~= entry_models(v@));
                Value::Mapping(copy)
            },
            Value::Bytes(v) => Value::Bytes(copy_bytes(v.as_slice())),
        }
    }
}

impl Clone for Value {
    fn clone(&self) -> (r: Value)
        ensures
            r@ == self@,
    {
        self.duplicate()
    }
}

} // verus!
