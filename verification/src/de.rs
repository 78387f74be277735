//! Decoding: a value answers what a target asks for.
//!
//! A target asks for one thing at a time: a scalar of some kind, an option, a
//! sequence, a mapping. The value it is decoded from answers each request or
//! fails. A sequence and a mapping answer with a decoder that hands out what
//! they hold, piece by piece, to further requests.

use vstd::prelude::*;
use crate::error::{unexpected, DeserializerError, ErrorModel, Unexpected, UnexpectedModel};
use crate::map::{
    collected,
    insert,
    inserted,
    rebuilt,
    rebuilt_entries,
    rebuilt_is_well_formed,
    rebuilt_values,
    rebuilt_well_formed,
    reversed,
    sorted,
    well_formed,
};
use crate::value::{discriminant, entry_models, model_of, models, Model, Value};

verus! {

/// What a target may ask a value for.
#[derive(Clone, Copy, Debug, PartialEq, Eq)]
pub enum Request {
    /// Whatever the value holds.
    Any,
    Bool,
    U8,
    U16,
    U32,
    U64,
    I8,
    I16,
    I32,
    I64,
    F32,
    F64,
    Char,
    String,
    Bytes,
    Unit,
    /// Something that may be absent.
    Option,
    /// A wrapper around one value.
    Newtype,
    Sequence,
    Mapping,
    /// One of several named variants, with or without a payload.
    Enum,
}

/// The state of a [`MapDecoder`].
pub struct MapState {
    /// The entries not yet walked, in their order.
    pub pending: Seq<(Model, Model)>,
    /// The value of the entry whose key was handed out last, until it is
    /// taken or put back.
    pub value: Option<Model>,
    /// The entries that were put back, sorted by key.
    pub unknown: Seq<(Model, Model)>,
}

/// What an [`Answer`] stands for.
pub enum AnswerModel {
    /// The value itself: a scalar, a string, a byte string or unit.
    Plain(Model),
    /// Nothing is there.
    Absent,
    /// Something is there: the value to decode in its place.
    Present(Model),
    /// A wrapper: the value to decode as what it wraps.
    Newtype(Model),
    /// The elements to hand out.
    Sequence(Seq<Model>),
    /// The entries to walk.
    Mapping(MapState),
    /// A variant: what names it, and its payload where it has one.
    Enum(Model, Option<Model>),
}

/// The case of [`Value`] that a request wants to find, by its position; none
/// for a request that any case can answer.
pub open spec fn wanted(request: Request) -> Option<int> {
    match request {
        Request::Bool => Some(0),
        Request::U8 => Some(1),
        Request::U16 => Some(2),
        Request::U32 => Some(3),
        Request::U64 => Some(4),
        Request::I8 => Some(5),
        Request::I16 => Some(6),
        Request::I32 => Some(7),
        Request::I64 => Some(8),
        Request::F32 => Some(9),
        Request::F64 => Some(10),
        Request::Char => Some(11),
        Request::String => Some(12),
        Request::Unit => Some(13),
        Request::Sequence => Some(16),
        Request::Mapping => Some(17),
        Request::Bytes => Some(18),
        Request::Any | Request::Option | Request::Newtype | Request::Enum => None,
    }
}

/// How a request is named in the report that a value did not meet it.
pub open spec fn expectation(request: Request) -> Seq<char> {
    match request {
        Request::Any => "any value"@,
        Request::Bool => "a boolean"@,
        Request::U8 => "an unsigned 8-bit integer"@,
        Request::U16 => "an unsigned 16-bit integer"@,
        Request::U32 => "an unsigned 32-bit integer"@,
        Request::U64 => "an unsigned 64-bit integer"@,
        Request::I8 => "a signed 8-bit integer"@,
        Request::I16 => "a signed 16-bit integer"@,
        Request::I32 => "a signed 32-bit integer"@,
        Request::I64 => "a signed 64-bit integer"@,
        Request::F32 => "a 32-bit floating-point number"@,
        Request::F64 => "a 64-bit floating-point number"@,
        Request::Char => "a character"@,
        Request::String => "a string"@,
        Request::Bytes => "a byte string"@,
        Request::Unit => "unit"@,
        Request::Option => "an option"@,
        Request::Newtype => "a newtype"@,
        Request::Sequence => "a sequence"@,
        Request::Mapping => "a map"@,
        Request::Enum => "string or map"@,
    }
}

/// What a value answers when it is asked for what it holds.
pub open spec fn plain(value: Model) -> AnswerModel {
    match value {
        Model::Option(None) => AnswerModel::Absent,
        Model::Option(Some(v)) => AnswerModel::Present(*v),
        Model::Newtype(v) => AnswerModel::Newtype(*v),
        Model::Sequence(v) => AnswerModel::Sequence(v),
        Model::Mapping(v) => AnswerModel::Mapping(
            MapState { pending: v, value: None, unknown: Seq::empty() },
        ),
        _ => AnswerModel::Plain(value),
    }
}

/// What a value answers to a request.
///
/// - Asked for anything, it answers with what it holds.
/// - Asked for an option, an option answers as absent or present with what it
///   wraps, unit answers as absent, and every other value as present with
///   itself.
/// - Asked for a newtype, a newtype answers with what it wraps and every other
///   value with itself.
/// - Asked for an enum, a string names a variant without payload and a mapping
///   of one entry names a variant by its key, with its value as payload.
/// - Asked for any other kind, it answers if it is of that very kind. No
///   number answers for a number of another kind, and a byte string does not
///   answer for a sequence.
pub open spec fn answer(value: Model, request: Request) -> Result<AnswerModel, ErrorModel> {
    match request {
        Request::Any => Ok(plain(value)),
        Request::Option => Ok(
            match value {
                Model::Option(None) => AnswerModel::Absent,
                Model::Option(Some(v)) => AnswerModel::Present(*v),
                Model::Unit => AnswerModel::Absent,
                _ => AnswerModel::Present(value),
            },
        ),
        Request::Newtype => Ok(
            match value {
                Model::Newtype(v) => AnswerModel::Newtype(*v),
                _ => AnswerModel::Newtype(value),
            },
        ),
        Request::Enum => match value {
            Model::String(_) => Ok(AnswerModel::Enum(value, None)),
            Model::Mapping(v) => if v.len() == 1 {
                Ok(AnswerModel::Enum(v[0].0, Some(v[0].1)))
            } else {
                Err(ErrorModel::InvalidValue(UnexpectedModel::Mapping, "map with a single key"@))
            },
            _ => Err(ErrorModel::InvalidType(unexpected(value), expectation(request))),
        },
        _ => if wanted(request) == Some(discriminant(value)) {
            Ok(plain(value))
        } else {
            Err(ErrorModel::InvalidType(unexpected(value), expectation(request)))
        },
    }
}

/// Hands out the elements of a sequence, first to last, each once.
#[derive(Debug)]
pub struct SeqDecoder {
    /// The elements not yet handed out, the next one last.
    rest: Vec<Value>,
    /// How many elements the sequence had.
    total: usize,
}

impl View for SeqDecoder {
    type V = Seq<Model>;

    /// The elements not yet handed out, the next one first.
    closed spec fn view(&self) -> Seq<Model> {
        Seq::new(self.rest@.len(), |i: int| model_of(self.rest@[self.rest@.len() - 1 - i]))
    }
}

impl SeqDecoder {
    /// How many elements the sequence had when decoding began.
    pub closed spec fn total(&self) -> nat {
        self.total as nat
    }

    /// A decoder that hands out `items`.
    pub fn new(items: Vec<Value>) -> (d: SeqDecoder)
        ensures
            d@ == models(items@),
            d.total() == items@.len(),
    {
        let total = items.len();
        let d = SeqDecoder { rest: reversed(items), total };
        assert(d@ =~= models(items@));
        d
    }

    /// How many elements are left.
    pub fn remaining(&self) -> (n: usize)
        ensures
            n == self@.len(),
    {
        self.rest.len()
    }

    /// Hands out the next element, or nothing when none is left.
    pub fn next_element(&mut self) -> (r: Option<Value>)
        ensures
            final(self).total() == old(self).total(),
            match r {
                Some(v) => old(self)@.len() > 0 && v@ == old(self)@[0] && final(self)@ == old(
                    self,
                )@.drop_first(),
                None => old(self)@.len() == 0 && final(self)@ == old(self)@,
            },
    {
        let r = self.rest.pop();
        proof {
            if r is Some {
                assert(self@ =~= old(self)@.drop_first());
            }
        }
        r
    }

    /// Ends the decoding: fails if elements are left that nobody asked for.
    pub fn end(self) -> (r: Result<(), DeserializerError>)
        ensures
            match r {
                Ok(_) => self@.len() == 0,
                Err(e) => self@.len() > 0 && e@ == ErrorModel::InvalidLength(
                    self.total(),
                    "fewer elements in sequence"@,
                ),
            },
    {
        if self.rest.len() == 0 {
            Ok(())
        } else {
            Err(
                DeserializerError::InvalidLength(
                    self.total,
                    "fewer elements in sequence".to_owned(),
                ),
            )
        }
    }
}

/// Walks the entries of a mapping for a target that asks for keys and values
/// in turn.
///
/// The target asks for the next key and tries to decode it. A key that it
/// does not know is put back with its value: it is kept aside, not lost, and
/// the walk goes on. After a key that it knows, it asks for the value. The
/// entries kept aside are sorted by key, as those of every mapping.
#[derive(Debug)]
pub struct MapDecoder {
    /// The entries not yet walked, the next one last.
    pending: Vec<(Value, Value)>,
    /// The value that belongs to the key handed out last.
    value: Option<Value>,
    /// The entries that were put back.
    unknown: Vec<(Value, Value)>,
}

impl View for MapDecoder {
    type V = MapState;

    closed spec fn view(&self) -> MapState {
        MapState {
            pending: Seq::new(
                self.pending@.len(),
                |i: int|
                    (
                        model_of(self.pending@[self.pending@.len() - 1 - i].0),
                        model_of(self.pending@[self.pending@.len() - 1 - i].1),
                    ),
            ),
            value: match self.value {
                Some(v) => Some(model_of(v)),
                None => None,
            },
            unknown: entry_models(self.unknown@),
        }
    }
}

impl MapDecoder {
    /// A decoder that walks `entries`.
    pub fn new(entries: Vec<(Value, Value)>) -> (d: MapDecoder)
        ensures
            d@ == (MapState {
                pending: entry_models(entries@),
                value: None,
                unknown: Seq::empty(),
            }),
    {
        let d = MapDecoder { pending: reversed(entries), value: None, unknown: Vec::new() };
        assert(d@.pending =~= entry_models(entries@));
        assert(d@.unknown =~= Seq::empty());
        d
    }

    /// How many entries are not yet walked.
    pub fn remaining(&self) -> (n: usize)
        ensures
            n == self@.pending.len(),
    {
        self.pending.len()
    }

    /// Hands out the key of the next entry and keeps its value ready, or hands
    /// out nothing when every entry was walked.
    pub fn next_key(&mut self) -> (r: Option<Value>)
        ensures
            match r {
                Some(key) => old(self)@.pending.len() > 0 && key@ == old(self)@.pending[0].0
                    && final(self)@ == (MapState {
                    pending: old(self)@.pending.drop_first(),
                    value: Some(old(self)@.pending[0].1),
                    unknown: old(self)@.unknown,
                }),
                None => old(self)@.pending.len() == 0 && final(self)@ == old(self)@,
            },
    {
        match self.pending.pop() {
            Some((key, value)) => {
                self.value = Some(value);
                assert(self@.pending =~= old(self)@.pending.drop_first());
                Some(key)
            },
            None => None,
        }
    }

    /// Hands out the value that belongs to the key handed out last. Fails if
    /// no key was handed out, or its value was taken or put back already.
    pub fn next_value(&mut self) -> (r: Result<Value, DeserializerError>)
        ensures
            final(self)@ == (MapState { value: None, ..old(self)@ }),
            match r {
                Ok(v) => old(self)@.value == Some(v@),
                Err(e) => old(self)@.value is None && e@ == ErrorModel::Custom(
                    "value is missing"@,
                ),
            },
    {
        match self.value.take() {
            Some(v) => Ok(v),
            None => Err(DeserializerError::Custom("value is missing".to_owned())),
        }
    }

    /// Puts the key handed out last back with its value: the entry is kept
    /// aside. Where the value was taken already, nothing is kept.
    pub fn put_back(&mut self, key: Value)
        ensures
            final(self)@ == match old(self)@.value {
                Some(v) => MapState {
                    value: None,
                    unknown: inserted(old(self)@.unknown, key@, v),
                    ..old(self)@
                },
                None => old(self)@,
            },
            sorted(old(self)@.unknown) ==> sorted(final(self)@.unknown),
    {
        match self.value.take() {
            Some(v) => {
                insert(&mut self.unknown, key, v);
            },
            None => {},
        }
    }

    /// Takes note of how the target fared with the key handed out last.
    ///
    /// Where it decoded the key, the answer is `true` and the value waits to
    /// be asked for. Where it did not know the key, the entry is put back and
    /// the answer is `false`: the walk goes on with the next key. Any other
    /// failure ends the decoding and is handed on as it is.
    pub fn key_decoded(&mut self, key: Value, outcome: Result<(), DeserializerError>) -> (r:
        Result<bool, DeserializerError>)
        ensures
            match outcome {
                Ok(_) => r == Ok::<bool, DeserializerError>(true) && final(self)@ == old(self)@,
                Err(DeserializerError::UnknownField(_, _)) => r == Ok::<bool, DeserializerError>(
                    false,
                ) && final(self)@ == match old(self)@.value {
                    Some(v) => MapState {
                        value: None,
                        unknown: inserted(old(self)@.unknown, key@, v),
                        ..old(self)@
                    },
                    None => old(self)@,
                },
                Err(e) => r == Err::<bool, DeserializerError>(e) && final(self)@ == old(self)@,
            },
            sorted(old(self)@.unknown) ==> sorted(final(self)@.unknown),
    {
        match outcome {
            Ok(_) => Ok(true),
            Err(DeserializerError::UnknownField(_, _)) => {
                self.put_back(key);
                Ok(false)
            },
            Err(e) => Err(e),
        }
    }

    /// Ends the walk and hands back, as a mapping, the entries that were put
    /// back.
    pub fn leftover(self) -> (r: Value)
        ensures
            r@ == Model::Mapping(self@.unknown),
    {
        Value::Mapping(self.unknown)
    }
}

/// What a value hands to the target in answer to a request.
#[derive(Debug)]
pub enum Answer {
    Bool(bool),
    U8(u8),
    U16(u16),
    U32(u32),
    U64(u64),
    I8(i8),
    I16(i16),
    I32(i32),
    I64(i64),
    F32(u32),
    F64(u64),
    Char(char),
    String(String),
    Bytes(Vec<u8>),
    Unit,
    /// Nothing is there.
    Absent,
    /// Something is there: the value to decode in its place.
    Present(Value),
    /// A wrapper: the value to decode as what it wraps.
    Newtype(Value),
    /// The elements of a sequence, to be handed out.
    Sequence(SeqDecoder),
    /// The entries of a mapping, to be walked.
    Mapping(MapDecoder),
    /// A variant: the value that names it, and its payload where it has one.
    Enum(Value, Option<Value>),
}

impl View for Answer {
    type V = AnswerModel;

    open spec fn view(&self) -> AnswerModel {
        match self {
            Answer::Bool(v) => AnswerModel::Plain(Model::Bool(*v)),
            Answer::U8(v) => AnswerModel::Plain(Model::U8(*v)),
            Answer::U16(v) => AnswerModel::Plain(Model::U16(*v)),
            Answer::U32(v) => AnswerModel::Plain(Model::U32(*v)),
            Answer::U64(v) => AnswerModel::Plain(Model::U64(*v)),
            Answer::I8(v) => AnswerModel::Plain(Model::I8(*v)),
            Answer::I16(v) => AnswerModel::Plain(Model::I16(*v)),
            Answer::I32(v) => AnswerModel::Plain(Model::I32(*v)),
            Answer::I64(v) => AnswerModel::Plain(Model::I64(*v)),
            Answer::F32(v) => AnswerModel::Plain(Model::F32(*v)),
            Answer::F64(v) => AnswerModel::Plain(Model::F64(*v)),
            Answer::Char(v) => AnswerModel::Plain(Model::Char(*v)),
            Answer::String(v) => AnswerModel::Plain(Model::String(v@)),
            Answer::Bytes(v) => AnswerModel::Plain(Model::Bytes(v@)),
            Answer::Unit => AnswerModel::Plain(Model::Unit),
            Answer::Absent => AnswerModel::Absent,
            Answer::Present(v) => AnswerModel::Present(v@),
            Answer::Newtype(v) => AnswerModel::Newtype(v@),
            Answer::Sequence(d) => AnswerModel::Sequence(d@),
            Answer::Mapping(d) => AnswerModel::Mapping(d@),
            Answer::Enum(v, p) => AnswerModel::Enum(
                v@,
                match p {
                    Some(p) => Some(p@),
                    None => None,
                },
            ),
        }
    }
}

/// What the outcome of a request stands for.
pub open spec fn outcome(r: Result<Answer, DeserializerError>) -> Result<AnswerModel, ErrorModel> {
    match r {
        Ok(a) => Ok(a@),
        Err(e) => Err(e@),
    }
}

/// The kinds of variant that a target may take the payload of an enum for.
#[derive(Clone, Copy, Debug, PartialEq, Eq)]
pub enum VariantKind {
    /// A variant without payload.
    Unit,
    /// A variant that wraps one value.
    Newtype,
    /// A variant that holds a sequence of values.
    Tuple,
    /// A variant that holds named fields.
    Struct,
}

/// How a kind of variant is named in the report that a payload did not fit.
pub open spec fn variant_expectation(kind: VariantKind) -> Seq<char> {
    match kind {
        VariantKind::Unit => "unit variant"@,
        VariantKind::Newtype => "newtype variant"@,
        VariantKind::Tuple => "tuple variant"@,
        VariantKind::Struct => "struct variant"@,
    }
}

/// What the payload of an enum answers to a target that takes it for a
/// variant of the given kind.
///
/// A unit variant has no payload, or one that answers for unit. A newtype
/// variant hands on its payload. A tuple variant needs a sequence and a struct
/// variant a mapping. A payload that is missing is reported as a unit variant
/// found in place of the kind expected.
pub open spec fn payload_answer(payload: Option<Model>, kind: VariantKind) -> Result<
    AnswerModel,
    ErrorModel,
> {
    match payload {
        None => match kind {
            VariantKind::Unit => Ok(AnswerModel::Plain(Model::Unit)),
            _ => Err(
                ErrorModel::InvalidType(UnexpectedModel::UnitVariant, variant_expectation(kind)),
            ),
        },
        Some(v) => match kind {
            VariantKind::Unit => answer(v, Request::Unit),
            VariantKind::Newtype => Ok(AnswerModel::Newtype(v)),
            VariantKind::Tuple => match v {
                Model::Sequence(_) => Ok(plain(v)),
                _ => Err(ErrorModel::InvalidType(unexpected(v), variant_expectation(kind))),
            },
            VariantKind::Struct => match v {
                Model::Mapping(_) => Ok(plain(v)),
                _ => Err(ErrorModel::InvalidType(unexpected(v), variant_expectation(kind))),
            },
        },
    }
}

/// What stands in for a field that the mapping never held: nothing, for a
/// target that asks for an option; for every other request a failure that
/// names the field.
pub open spec fn missing_answer(field: Seq<char>, request: Request) -> Result<
    AnswerModel,
    ErrorModel,
> {
    match request {
        Request::Option => Ok(AnswerModel::Absent),
        _ => Err(ErrorModel::MissingField(field)),
    }
}

impl Request {
    /// The case of [`Value`] that this request wants to find.
    pub fn wanted(self) -> (r: Option<usize>)
        ensures
            match r {
                Some(d) => wanted(self) == Some(d as int),
                None => wanted(self) is None,
            },
    {
        match self {
            Request::Bool => Some(0),
            Request::U8 => Some(1),
            Request::U16 => Some(2),
            Request::U32 => Some(3),
            Request::U64 => Some(4),
            Request::I8 => Some(5),
            Request::I16 => Some(6),
            Request::I32 => Some(7),
            Request::I64 => Some(8),
            Request::F32 => Some(9),
            Request::F64 => Some(10),
            Request::Char => Some(11),
            Request::String => Some(12),
            Request::Unit => Some(13),
            Request::Sequence => Some(16),
            Request::Mapping => Some(17),
            Request::Bytes => Some(18),
            Request::Any | Request::Option | Request::Newtype | Request::Enum => None,
        }
    }

    /// Names this request for the report that a value did not meet it.
    pub fn expecting(self) -> (text: String)
        ensures
            text@ == expectation(self),
    {
        match self {
            Request::Any => "any value".to_owned(),
            Request::Bool => "a boolean".to_owned(),
            Request::U8 => "an unsigned 8-bit integer".to_owned(),
            Request::U16 => "an unsigned 16-bit integer".to_owned(),
            Request::U32 => "an unsigned 32-bit integer".to_owned(),
            Request::U64 => "an unsigned 64-bit integer".to_owned(),
            Request::I8 => "a signed 8-bit integer".to_owned(),
            Request::I16 => "a signed 16-bit integer".to_owned(),
            Request::I32 => "a signed 32-bit integer".to_owned(),
            Request::I64 => "a signed 64-bit integer".to_owned(),
            Request::F32 => "a 32-bit floating-point number".to_owned(),
            Request::F64 => "a 64-bit floating-point number".to_owned(),
            Request::Char => "a character".to_owned(),
            Request::String => "a string".to_owned(),
            Request::Bytes => "a byte string".to_owned(),
            Request::Unit => "unit".to_owned(),
            Request::Option => "an option".to_owned(),
            Request::Newtype => "a newtype".to_owned(),
            Request::Sequence => "a sequence".to_owned(),
            Request::Mapping => "a map".to_owned(),
            Request::Enum => "string or map".to_owned(),
        }
    }
}

impl VariantKind {
    /// Names this kind for the report that a payload did not fit it.
    pub fn expecting(self) -> (text: String)
        ensures
            text@ == variant_expectation(self),
    {
        match self {
            VariantKind::Unit => "unit variant".to_owned(),
            VariantKind::Newtype => "newtype variant".to_owned(),
            VariantKind::Tuple => "tuple variant".to_owned(),
            VariantKind::Struct => "struct variant".to_owned(),
        }
    }
}

impl Value {
    /// Answers with what this value holds.
    fn into_answer(self) -> (a: Answer)
        ensures
            a@ == plain(self@),
    {
        match self {
            Value::Bool(v) => Answer::Bool(v),
            Value::U8(v) => Answer::U8(v),
            Value::U16(v) => Answer::U16(v),
            Value::U32(v) => Answer::U32(v),
            Value::U64(v) => Answer::U64(v),
            Value::I8(v) => Answer::I8(v),
            Value::I16(v) => Answer::I16(v),
            Value::I32(v) => Answer::I32(v),
            Value::I64(v) => Answer::I64(v),
            Value::F32(v) => Answer::F32(v),
            Value::F64(v) => Answer::F64(v),
            Value::Char(v) => Answer::Char(v),
            Value::String(v) => Answer::String(v),
            Value::Unit => Answer::Unit,
            Value::Option(None) => Answer::Absent,
            Value::Option(Some(v)) => Answer::Present(*v),
            Value::Newtype(v) => Answer::Newtype(*v),
            Value::Sequence(v) => Answer::Sequence(SeqDecoder::new(v)),
            Value::Mapping(v) => Answer::Mapping(MapDecoder::new(v)),
            Value::Bytes(v) => Answer::Bytes(v),
        }
    }

    /// Decodes this value into what a target asks for: the answer to hand to
    /// the target, or the reason why the value cannot give one.
    pub fn deserialize_into(self, request: Request) -> (r: Result<Answer, DeserializerError>)
        ensures
            outcome(r) == answer(self@, request),
    {
        match request {
            Request::Any => Ok(self.into_answer()),
            Request::Option => match self {
                Value::Option(None) => Ok(Answer::Absent),
                Value::Option(Some(v)) => Ok(Answer::Present(*v)),
                Value::Unit => Ok(Answer::Absent),
                other => Ok(Answer::Present(other)),
            },
            Request::Newtype => match self {
                Value::Newtype(v) => Ok(Answer::Newtype(*v)),
                other => Ok(Answer::Newtype(other)),
            },
            Request::Enum => match self {
                Value::String(name) => Ok(Answer::Enum(Value::String(name), None)),
                Value::Mapping(entries) => {
                    let mut entries = entries;
                    let ghost whole = entry_models(entries@);
                    assert(self@ == Model::Mapping(whole));
                    if entries.len() == 1 {
                        match entries.pop() {
                            Some((name, payload)) => {
                                assert(name@ == whole[0].0);
                                assert(payload@ == whole[0].1);
                                Ok(Answer::Enum(name, Some(payload)))
                            },
                            None => Err(
                                DeserializerError::InvalidValue(
                                    Unexpected::Mapping,
                                    "map with a single key".to_owned(),
                                ),
                            ),
                        }
                    } else {
                        Err(
                            DeserializerError::InvalidValue(
                                Unexpected::Mapping,
                                "map with a single key".to_owned(),
                            ),
                        )
                    }
                },
                other => Err(
                    DeserializerError::InvalidType(other.unexpected(), request.expecting()),
                ),
            },
            _ => {
                let fits = match request.wanted() {
                    Some(d) => d == self.discriminant(),
                    None => false,
                };
                if fits {
                    Ok(self.into_answer())
                } else {
                    Err(DeserializerError::InvalidType(self.unexpected(), request.expecting()))
                }
            },
        }
    }
}

/// Decodes the payload of an enum for a variant of the given kind.
pub fn variant_payload(payload: Option<Value>, kind: VariantKind) -> (r: Result<
    Answer,
    DeserializerError,
>)
    ensures
        outcome(r) == payload_answer(
            match payload {
                Some(v) => Some(v@),
                None => None,
            },
            kind,
        ),
{
    match payload {
        None => match kind {
            VariantKind::Unit => Ok(Answer::Unit),
            _ => Err(DeserializerError::InvalidType(Unexpected::UnitVariant, kind.expecting())),
        },
        Some(v) => match kind {
            VariantKind::Unit => v.deserialize_into(Request::Unit),
            VariantKind::Newtype => Ok(Answer::Newtype(v)),
            VariantKind::Tuple => match v {
                Value::Sequence(items) => Ok(Answer::Sequence(SeqDecoder::new(items))),
                other => Err(DeserializerError::InvalidType(other.unexpected(), kind.expecting())),
            },
            VariantKind::Struct => match v {
                Value::Mapping(entries) => Ok(Answer::Mapping(MapDecoder::new(entries))),
                other => Err(DeserializerError::InvalidType(other.unexpected(), kind.expecting())),
            },
        },
    }
}

/// Answers a request for a field that the mapping never held.
pub fn missing_field(field: &'static str, request: Request) -> (r: Result<
    Answer,
    DeserializerError,
>)
    ensures
        outcome(r) == missing_answer(field@, request),
{
    match request {
        Request::Option => Ok(Answer::Absent),
        _ => Err(DeserializerError::MissingField(field)),
    }
}

/// Decodes a value into a value: the target that asks for whatever is there
/// and builds it anew. The outcome is the value itself, but for a mapping
/// that was not sorted: see [`rebuilt`].
pub fn decode_value(value: Value) -> (r: Result<Value, DeserializerError>)
    ensures
        r matches Ok(v) && v@ == rebuilt(value@) && well_formed(v@),
        well_formed(value@) ==> (r matches Ok(v) && v@ == value@),
    decreases value@,
{
    proof {
        rebuilt_is_well_formed(value@);
        if well_formed(value@) {
            rebuilt_well_formed(value@);
        }
    }
    let ghost source = value@;
    let answered = match value.deserialize_into(Request::Any) {
        Ok(a) => a,
        Err(e) => {
            return Err(e);
        },
    };
    match answered {
        Answer::Bool(v) => Ok(Value::Bool(v)),
        Answer::U8(v) => Ok(Value::U8(v)),
        Answer::U16(v) => Ok(Value::U16(v)),
        Answer::U32(v) => Ok(Value::U32(v)),
        Answer::U64(v) => Ok(Value::U64(v)),
        Answer::I8(v) => Ok(Value::I8(v)),
        Answer::I16(v) => Ok(Value::I16(v)),
        Answer::I32(v) => Ok(Value::I32(v)),
        Answer::I64(v) => Ok(Value::I64(v)),
        Answer::F32(v) => Ok(Value::F32(v)),
        Answer::F64(v) => Ok(Value::F64(v)),
        Answer::Char(v) => Ok(Value::Char(v)),
        Answer::String(v) => Ok(Value::String(v)),
        Answer::Bytes(v) => Ok(Value::Bytes(v)),
        Answer::Unit => Ok(Value::Unit),
        Answer::Absent => Ok(Value::Option(None)),
        Answer::Present(v) => {
            proof {
                assert(source == Model::Option(Some(Box::new(v@))));
                assert(decreases_to!(source => source->Option_0));
                assert(decreases_to!(source->Option_0 => source->Option_0->Some_0));
            }
            match decode_value(v) {
                Ok(again) => Ok(Value::Option(Some(Box::new(again)))),
                Err(e) => Err(e),
            }
        },
        Answer::Newtype(v) => {
            proof {
                assert(source == Model::Newtype(Box::new(v@)));
                assert(decreases_to!(source => source->Newtype_0));
            }
            match decode_value(v) {
                Ok(again) => Ok(Value::Newtype(Box::new(again))),
                Err(e) => Err(e),
            }
        },
        Answer::Sequence(d) => {
            let mut d = d;
            let ghost whole = d@;
            let ghost mut done: int = 0;
            let mut items: Vec<Value> = Vec::new();
            while d.remaining() > 0
                invariant
                    source == value@,
                    source == Model::Sequence(whole),
                    0 <= done <= whole.len(),
                    items@.len() == done,
                    d@ == whole.skip(done),
                    forall|i: int| 0 <= i < done ==> (#[trigger] items@[i])@ == rebuilt(whole[i]),
                decreases d@.len(),
            {
                match d.next_element() {
                    Some(v) => {
                        proof {
                            assert(v@ == whole[done]);
                            assert(decreases_to!(source => source->Sequence_0));
                            assert(decreases_to!(whole => whole[done]));
                        }
                        match decode_value(v) {
                            Ok(again) => {
                                items.push(again);
                            },
                            Err(e) => {
                                return Err(e);
                            },
                        }
                        proof {
                            assert(d@ =~= whole.skip(done + 1));
                            done = done + 1;
                        }
                    },
                    None => {},
                }
            }
            assert(models(items@) =~= rebuilt_values(whole));
            Ok(Value::Sequence(items))
        },
        Answer::Mapping(d) => {
            let mut d = d;
            let ghost whole = d@.pending;
            let ghost mut done: int = 0;
            let mut entries: Vec<(Value, Value)> = Vec::new();
            while d.remaining() > 0
                invariant
                    source == value@,
                    source == Model::Mapping(whole),
                    0 <= done <= whole.len(),
                    d@.pending == whole.skip(done),
                    entry_models(entries@) == collected(rebuilt_entries(whole), done),
                decreases d@.pending.len(),
            {
                match d.next_key() {
                    Some(k) => {
                        proof {
                            assert(k@ == whole[done].0);
                            assert(decreases_to!(source => source->Mapping_0));
                            assert(decreases_to!(whole => whole[done]));
                            assert(decreases_to!(whole[done] => whole[done].0));
                            assert(decreases_to!(whole[done] => whole[done].1));
                        }
                        let key = match decode_value(k) {
                            Ok(again) => again,
                            Err(e) => {
                                return Err(e);
                            },
                        };
                        let v = match d.next_value() {
                            Ok(v) => v,
                            Err(e) => {
                                return Err(e);
                            },
                        };
                        let held = match decode_value(v) {
                            Ok(again) => again,
                            Err(e) => {
                                return Err(e);
                            },
                        };
                        insert(&mut entries, key, held);
                        proof {
                            assert(d@.pending =~= whole.skip(done + 1));
                            done = done + 1;
                        }
                    },
                    None => {},
                }
            }
            Ok(Value::Mapping(entries))
        },
        Answer::Enum(_, _) => Err(DeserializerError::Custom("no enum was asked for".to_owned())),
    }
}

/// A request for one kind of value is answered by a value of that kind alone,
/// with what it holds. Every other value is turned down with a report of what
/// it is and what was asked for: nothing is coerced.
pub proof fn only_its_own_kind_answers(value: Model, request: Request)
    requires
        wanted(request) is Some,
    ensures
        wanted(request) == Some(discriminant(value)) ==> answer(value, request) == Ok::<
            AnswerModel,
            ErrorModel,
        >(plain(value)),
        wanted(request) != Some(discriminant(value)) ==> answer(value, request) == Err::<
            AnswerModel,
            ErrorModel,
        >(ErrorModel::InvalidType(unexpected(value), expectation(request))),
{
}

} // verus!
