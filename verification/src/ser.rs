//! Encoding: a value says what it emits.
//!
//! A value emits one signal: what it holds, if it is a scalar, or the opening
//! of a composite, whose parts then emit theirs. The receiver of the signals
//! may be anything; one that builds a value from them builds the value anew.

use vstd::prelude::*;
use crate::de::{answer, AnswerModel, Request};
use crate::error::ErrorModel;
use crate::map::{
    collected,
    insert,
    inserted,
    rebuilt,
    rebuilt_entries,
    rebuilt_is_well_formed,
    rebuilt_values,
    rebuilt_well_formed,
    sorted,
    well_formed,
};
use crate::value::{copy_bytes, entry_models, models, Model, Value};

verus! {

/// The one signal that a value emits.
#[derive(Debug)]
pub enum Emission<'a> {
    Bool(bool),
    U8(u8),
    U16(u16),
    U32(u32),
    U64(u64),
    I8(i8),
    I16(i16),
    I32(i32),
    I64(i64),
    F32(u32),
    F64(u64),
    Char(char),
    Str(&'a str),
    Bytes(&'a [u8]),
    Unit,
    /// An option that holds nothing.
    Absent,
    /// An option that holds the value given, which emits next.
    Present(&'a Value),
    /// A wrapper of the name given around the value given, which emits next.
    NewtypeStruct(&'static str, &'a Value),
    /// A sequence of the elements given, each of which emits in turn.
    Sequence(&'a [Value]),
    /// A mapping of the entries given; of each, the key emits and then the
    /// value.
    Mapping(&'a [(Value, Value)]),
}

/// What an [`Emission`] stands for.
pub enum EmissionModel {
    /// A scalar, a string, a byte string or unit: the value itself.
    Plain(Model),
    Absent,
    Present(Model),
    NewtypeStruct(Seq<char>, Model),
    Sequence(Seq<Model>),
    Mapping(Seq<(Model, Model)>),
}

impl<'a> View for Emission<'a> {
    type V = EmissionModel;

    open spec fn view(&self) -> EmissionModel {
        match self {
            Emission::Bool(v) => EmissionModel::Plain(Model::Bool(*v)),
            Emission::U8(v) => EmissionModel::Plain(Model::U8(*v)),
            Emission::U16(v) => EmissionModel::Plain(Model::U16(*v)),
            Emission::U32(v) => EmissionModel::Plain(Model::U32(*v)),
            Emission::U64(v) => EmissionModel::Plain(Model::U64(*v)),
            Emission::I8(v) => EmissionModel::Plain(Model::I8(*v)),
            Emission::I16(v) => EmissionModel::Plain(Model::I16(*v)),
            Emission::I32(v) => EmissionModel::Plain(Model::I32(*v)),
            Emission::I64(v) => EmissionModel::Plain(Model::I64(*v)),
            Emission::F32(v) => EmissionModel::Plain(Model::F32(*v)),
            Emission::F64(v) => EmissionModel::Plain(Model::F64(*v)),
            Emission::Char(v) => EmissionModel::Plain(Model::Char(*v)),
            Emission::Str(v) => EmissionModel::Plain(Model::String(v@)),
            Emission::Bytes(v) => EmissionModel::Plain(Model::Bytes(v@)),
            Emission::Unit => EmissionModel::Plain(Model::Unit),
            Emission::Absent => EmissionModel::Absent,
            Emission::Present(v) => EmissionModel::Present(v@),
            Emission::NewtypeStruct(name, v) => EmissionModel::NewtypeStruct(name@, v@),
            Emission::Sequence(v) => EmissionModel::Sequence(models(v@)),
            Emission::Mapping(v) => EmissionModel::Mapping(entry_models(v@)),
        }
    }
}

/// What a value emits.
///
/// An option emits that it is absent, or that it is present, around what it
/// wraps. A newtype emits a wrapper around what it wraps; the wrapper's name
/// is empty, as a value does not keep the name of the type it came from. A
/// sequence emits its elements and a mapping its entries, in their order.
/// Every other value emits itself.
pub open spec fn emitted(value: Model) -> EmissionModel {
    match value {
        Model::Option(None) => EmissionModel::Absent,
        Model::Option(Some(v)) => EmissionModel::Present(*v),
        Model::Newtype(v) => EmissionModel::NewtypeStruct(""@, *v),
        Model::Sequence(v) => EmissionModel::Sequence(v),
        Model::Mapping(v) => EmissionModel::Mapping(v),
        _ => EmissionModel::Plain(value),
    }
}

impl Value {
    /// The signal that this value emits.
    pub fn emission(&self) -> (e: Emission<'_>)
        ensures
            e@ == emitted(self@),
    {
        match self {
            Value::Bool(v) => Emission::Bool(*v),
            Value::U8(v) => Emission::U8(*v),
            Value::U16(v) => Emission::U16(*v),
            Value::U32(v) => Emission::U32(*v),
            Value::U64(v) => Emission::U64(*v),
            Value::I8(v) => Emission::I8(*v),
            Value::I16(v) => Emission::I16(*v),
            Value::I32(v) => Emission::I32(*v),
            Value::I64(v) => Emission::I64(*v),
            Value::F32(v) => Emission::F32(*v),
            Value::F64(v) => Emission::F64(*v),
            Value::Char(v) => Emission::Char(*v),
            Value::String(v) => Emission::Str(v.as_str()),
            Value::Unit => Emission::Unit,
            Value::Option(None) => Emission::Absent,
            Value::Option(Some(v)) => Emission::Present(v),
            Value::Newtype(v) => Emission::NewtypeStruct("", v),
            Value::Sequence(v) => Emission::Sequence(v.as_slice()),
            Value::Mapping(v) => Emission::Mapping(v.as_slice()),
            Value::Bytes(v) => Emission::Bytes(v.as_slice()),
        }
    }
}

/// Encodes a value into a value: the receiver that builds what the signals
/// say. The outcome is the value itself, but for a mapping that was not
/// sorted: see [`rebuilt`].
pub fn encode_value(value: &Value) -> (r: Value)
    ensures
        r@ == rebuilt(value@),
        well_formed(r@),
        well_formed(value@) ==> r@ == value@,
    decreases value@,
{
    proof {
        rebuilt_is_well_formed(value@);
        if well_formed(value@) {
            rebuilt_well_formed(value@);
        }
    }
    let ghost source = value@;
    match value.emission() {
        Emission::Bool(v) => Value::Bool(v),
        Emission::U8(v) => Value::U8(v),
        Emission::U16(v) => Value::U16(v),
        Emission::U32(v) => Value::U32(v),
        Emission::U64(v) => Value::U64(v),
        Emission::I8(v) => Value::I8(v),
        Emission::I16(v) => Value::I16(v),
        Emission::I32(v) => Value::I32(v),
        Emission::I64(v) => Value::I64(v),
        Emission::F32(v) => Value::F32(v),
        Emission::F64(v) => Value::F64(v),
        Emission::Char(v) => Value::Char(v),
        Emission::Str(v) => Value::String(v.to_owned()),
        Emission::Bytes(v) => Value::Bytes(copy_bytes(v)),
        Emission::Unit => Value::Unit,
        Emission::Absent => Value::Option(None),
        Emission::Present(v) => {
            proof {
                assert(source == Model::Option(Some(Box::new(v@))));
                assert(decreases_to!(source => source->Option_0));
                assert(decreases_to!(source->Option_0 => source->Option_0->Some_0));
            }
            Value::Option(Some(Box::new(encode_value(v))))
        },
        Emission::NewtypeStruct(_, v) => {
            proof {
                assert(source == Model::Newtype(Box::new(v@)));
                assert(decreases_to!(source => source->Newtype_0));
            }
            Value::Newtype(Box::new(encode_value(v)))
        },
        Emission::Sequence(items) => {
            let ghost whole = models(items@);
            let mut built: Vec<Value> = Vec::new();
            let mut i: usize = 0;
            while i < items.len()
                invariant
                    source == value@,
                    source == Model::Sequence(whole),
                    whole == models(items@),
                    i <= items.len(),
                    built@.len() == i,
                    forall|k: int| 0 <= k < i ==> (#[trigger] built@[k])@ == rebuilt(whole[k]),
                decreases items.len() - i,
            {
                proof {
                    assert(items[i as int]@ == whole[i as int]);
                    assert(decreases_to!(source => source->Sequence_0));
                    assert(decreases_to!(whole => whole[i as int]));
                }
                built.push(encode_value(&items[i]));
                i += 1;
            }
            assert(models(built@) =~= rebuilt_values(whole));
            Value::Sequence(built)
        },
        Emission::Mapping(entries) => {
            let ghost whole = entry_models(entries@);
            let mut built: Vec<(Value, Value)> = Vec::new();
            let mut i: usize = 0;
            while i < entries.len()
                invariant
                    source == value@,
                    source == Model::Mapping(whole),
                    whole == entry_models(entries@),
                    i <= entries.len(),
                    entry_models(built@) == collected(rebuilt_entries(whole), i as int),
                decreases entries.len() - i,
            {
                proof {
                    assert(entries[i as int].0@ == whole[i as int].0);
                    assert(entries[i as int].1@ == whole[i as int].1);
                    assert(decreases_to!(source => source->Mapping_0));
                    assert(decreases_to!(whole => whole[i as int]));
                    assert(decreases_to!(whole[i as int] => whole[i as int].0));
                    assert(decreases_to!(whole[i as int] => whole[i as int].1));
                }
                let key = encode_value(&entries[i].0);
                let held = encode_value(&entries[i].1);
                insert(&mut built, key, held);
                i += 1;
            }
            Value::Mapping(built)
        },
    }
}

/// Puts a named field into the entries of a mapping: the field's name, as a
/// string, is the key.
pub fn field(entries: &mut Vec<(Value, Value)>, name: &str, value: Value)
    ensures
        entry_models(final(entries)@) == inserted(
            entry_models(old(entries)@),
            Model::String(name@),
            value@,
        ),
        sorted(entry_models(old(entries)@)) ==> sorted(entry_models(final(entries)@)),
{
    insert(entries, Value::String(name.to_owned()), value);
}

/// The value that stands for a variant with a payload: a mapping of one
/// entry, from the variant's name to the payload.
pub fn variant(name: &str, payload: Value) -> (r: Value)
    ensures
        r@ == Model::Mapping(seq![(Model::String(name@), payload@)]),
        answer(r@, Request::Enum) == Ok::<AnswerModel, ErrorModel>(
            AnswerModel::Enum(Model::String(name@), Some(payload@)),
        ),
{
    let mut entries: Vec<(Value, Value)> = Vec::new();
    entries.push((Value::String(name.to_owned()), payload));
    assert(entry_models(entries@) =~= seq![(Model::String(name@), payload@)]);
    Value::Mapping(entries)
}

/// The value that stands for a variant without payload: its name.
pub fn unit_variant(name: &str) -> (r: Value)
    ensures
        r@ == Model::String(name@),
        answer(r@, Request::Enum) == Ok::<AnswerModel, ErrorModel>(AnswerModel::Enum(r@, None)),
{
    Value::String(name.to_owned())
}

/// Encoding a value in which every mapping is sorted and decoding the outcome
/// yields the value: both build it anew as it is.
pub proof fn round_trip(value: Model)
    requires
        well_formed(value),
    ensures
        rebuilt(value) == value,
        rebuilt(rebuilt(value)) == value,
{
    rebuilt_well_formed(value);
}

} // verus!
