//! What decoding reports when it fails.

use vstd::prelude::*;
use crate::value::{copy_bytes, Model, Value};

verus! {

/// What a request found in place of what it asked for.
///
/// A floating-point number is held as its bit pattern, in the width it was
/// found in.
#[derive(Clone, Debug, PartialEq)]
pub enum Unexpected {
    Bool(bool),
    Unsigned(u64),
    Signed(i64),
    Float32(u32),
    Float64(u64),
    Char(char),
    Str(String),
    Bytes(Vec<u8>),
    Unit,
    Option,
    NewtypeStruct,
    Sequence,
    Mapping,
    Enum,
    UnitVariant,
    NewtypeVariant,
    TupleVariant,
    StructVariant,
    Other(String),
}

/// What an [`Unexpected`] stands for.
pub enum UnexpectedModel {
    Bool(bool),
    Unsigned(u64),
    Signed(i64),
    Float32(u32),
    Float64(u64),
    Char(char),
    Str(Seq<char>),
    Bytes(Seq<u8>),
    Unit,
    Option,
    NewtypeStruct,
    Sequence,
    Mapping,
    Enum,
    UnitVariant,
    NewtypeVariant,
    TupleVariant,
    StructVariant,
    Other(Seq<char>),
}

impl View for Unexpected {
    type V = UnexpectedModel;

    open spec fn view(&self) -> UnexpectedModel {
        match self {
            Unexpected::Bool(v) => UnexpectedModel::Bool(*v),
            Unexpected::Unsigned(v) => UnexpectedModel::Unsigned(*v),
            Unexpected::Signed(v) => UnexpectedModel::Signed(*v),
            Unexpected::Float32(v) => UnexpectedModel::Float32(*v),
            Unexpected::Float64(v) => UnexpectedModel::Float64(*v),
            Unexpected::Char(v) => UnexpectedModel::Char(*v),
            Unexpected::Str(v) => UnexpectedModel::Str(v@),
            Unexpected::Bytes(v) => UnexpectedModel::Bytes(v@),
            Unexpected::Unit => UnexpectedModel::Unit,
            Unexpected::Option => UnexpectedModel::Option,
            Unexpected::NewtypeStruct => UnexpectedModel::NewtypeStruct,
            Unexpected::Sequence => UnexpectedModel::Sequence,
            Unexpected::Mapping => UnexpectedModel::Mapping,
            Unexpected::Enum => UnexpectedModel::Enum,
            Unexpected::UnitVariant => UnexpectedModel::UnitVariant,
            Unexpected::NewtypeVariant => UnexpectedModel::NewtypeVariant,
            Unexpected::TupleVariant => UnexpectedModel::TupleVariant,
            Unexpected::StructVariant => UnexpectedModel::StructVariant,
            Unexpected::Other(v) => UnexpectedModel::Other(v@),
        }
    }
}

/// Why a decode failed.
#[derive(Clone, Debug, PartialEq)]
pub enum DeserializerError {
    /// A failure that the target's own decode logic describes.
    Custom(String),
    /// The value is not of the kind that was requested: what was found, and
    /// what was expected.
    InvalidType(Unexpected, String),
    /// The value is of the requested kind but the target rejects it.
    InvalidValue(Unexpected, String),
    /// A sequence has another length than the target requires.
    InvalidLength(usize, String),
    /// An enum variant that the target does not have, and those it has.
    UnknownVariant(String, &'static [&'static str]),
    /// A key that the target does not have, and those it has.
    UnknownField(String, &'static [&'static str]),
    /// A key that the target requires and that never came.
    MissingField(&'static str),
    /// A key that came more than once.
    DuplicateField(&'static str),
}

/// The texts of a list of names.
pub open spec fn names(list: Seq<&'static str>) -> Seq<Seq<char>> {
    Seq::new(list.len(), |i: int| list[i]@)
}

/// What a [`DeserializerError`] stands for.
pub enum ErrorModel {
    Custom(Seq<char>),
    InvalidType(UnexpectedModel, Seq<char>),
    InvalidValue(UnexpectedModel, Seq<char>),
    InvalidLength(nat, Seq<char>),
    UnknownVariant(Seq<char>, Seq<Seq<char>>),
    UnknownField(Seq<char>, Seq<Seq<char>>),
    MissingField(Seq<char>),
    DuplicateField(Seq<char>),
}

impl View for DeserializerError {
    type V = ErrorModel;

    open spec fn view(&self) -> ErrorModel {
        match self {
            DeserializerError::Custom(m) => ErrorModel::Custom(m@),
            DeserializerError::InvalidType(u, e) => ErrorModel::InvalidType(u@, e@),
            DeserializerError::InvalidValue(u, e) => ErrorModel::InvalidValue(u@, e@),
            DeserializerError::InvalidLength(n, e) => ErrorModel::InvalidLength(*n as nat, e@),
            DeserializerError::UnknownVariant(v, e) => ErrorModel::UnknownVariant(v@, names(e@)),
            DeserializerError::UnknownField(f, e) => ErrorModel::UnknownField(f@, names(e@)),
            DeserializerError::MissingField(f) => ErrorModel::MissingField(f@),
            DeserializerError::DuplicateField(f) => ErrorModel::DuplicateField(f@),
        }
    }
}

/// How a value is described where it was not expected: a scalar with what it
/// holds, integers widened to 64 bits; a composite by its kind alone.
pub open spec fn unexpected(model: Model) -> UnexpectedModel {
    match model {
        Model::Bool(v) => UnexpectedModel::Bool(v),
        Model::U8(v) => UnexpectedModel::Unsigned(v as u64),
        Model::U16(v) => UnexpectedModel::Unsigned(v as u64),
        Model::U32(v) => UnexpectedModel::Unsigned(v as u64),
        Model::U64(v) => UnexpectedModel::Unsigned(v),
        Model::I8(v) => UnexpectedModel::Signed(v as i64),
        Model::I16(v) => UnexpectedModel::Signed(v as i64),
        Model::I32(v) => UnexpectedModel::Signed(v as i64),
        Model::I64(v) => UnexpectedModel::Signed(v),
        Model::F32(v) => UnexpectedModel::Float32(v),
        Model::F64(v) => UnexpectedModel::Float64(v),
        Model::Char(v) => UnexpectedModel::Char(v),
        Model::String(v) => UnexpectedModel::Str(v),
        Model::Unit => UnexpectedModel::Unit,
        Model::Option(_) => UnexpectedModel::Option,
        Model::Newtype(_) => UnexpectedModel::NewtypeStruct,
        Model::Sequence(_) => UnexpectedModel::Sequence,
        Model::Mapping(_) => UnexpectedModel::Mapping,
        Model::Bytes(v) => UnexpectedModel::Bytes(v),
    }
}

impl Value {
    /// Describes this value for a report that it was not expected.
    pub fn unexpected(&self) -> (r: Unexpected)
        ensures
            r@ == unexpected(self@),
    {
        match self {
            Value::Bool(b) => Unexpected::Bool(*b),
            Value::U8(n) => Unexpected::Unsigned(*n as u64),
            Value::U16(n) => Unexpected::Unsigned(*n as u64),
            Value::U32(n) => Unexpected::Unsigned(*n as u64),
            Value::U64(n) => Unexpected::Unsigned(*n),
            Value::I8(n) => Unexpected::Signed(*n as i64),
            Value::I16(n) => Unexpected::Signed(*n as i64),
            Value::I32(n) => Unexpected::Signed(*n as i64),
            Value::I64(n) => Unexpected::Signed(*n),
            Value::F32(n) => Unexpected::Float32(*n),
            Value::F64(n) => Unexpected::Float64(*n),
            Value::Char(c) => Unexpected::Char(*c),
            Value::String(s) => Unexpected::Str(s.clone()),
            Value::Unit => Unexpected::Unit,
            Value::Option(_) => Unexpected::Option,
            Value::Newtype(_) => Unexpected::NewtypeStruct,
            Value::Sequence(_) => Unexpected::Sequence,
            Value::Mapping(_) => Unexpected::Mapping,
            Value::Bytes(b) => Unexpected::Bytes(copy_bytes(b.as_slice())),
        }
    }
}

} // verus!
