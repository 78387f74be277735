// Typed values through serde: the encoder and the decoder of the library,
// each behind the traits that serde asks for.

use serde::de::{self, Deserialize, DeserializeSeed, VariantAccess, Visitor};
use serde::ser::{
    self, Serialize, SerializeMap, SerializeSeq, SerializeStruct, SerializeStructVariant,
    SerializeTupleVariant,
};
use serde_value::de::{variant_payload, Answer, MapDecoder, Request, SeqDecoder, VariantKind};
use serde_value::error::{DeserializerError as Kind, Unexpected as Found};
use serde_value::map::{collect, insert};
use serde_value::ser::{field, unit_variant, variant, Emission};
use serde_value::value::Value;
use std::collections::BTreeMap;
use std::fmt;

/// What was found, as serde names it.
pub fn to_unexpected(found: &Found) -> de::Unexpected<'_> {
    match *found {
        Found::Bool(v) => de::Unexpected::Bool(v),
        Found::Unsigned(v) => de::Unexpected::Unsigned(v),
        Found::Signed(v) => de::Unexpected::Signed(v),
        Found::Float32(bits) => de::Unexpected::Float(f64::from(f32::from_bits(bits))),
        Found::Float64(bits) => de::Unexpected::Float(f64::from_bits(bits)),
        Found::Char(v) => de::Unexpected::Char(v),
        Found::Str(ref v) => de::Unexpected::Str(v),
        Found::Bytes(ref v) => de::Unexpected::Bytes(v),
        Found::Unit => de::Unexpected::Unit,
        Found::Option => de::Unexpected::Option,
        Found::NewtypeStruct => de::Unexpected::NewtypeStruct,
        Found::Sequence => de::Unexpected::Seq,
        Found::Mapping => de::Unexpected::Map,
        Found::Enum => de::Unexpected::Enum,
        Found::UnitVariant => de::Unexpected::UnitVariant,
        Found::NewtypeVariant => de::Unexpected::NewtypeVariant,
        Found::TupleVariant => de::Unexpected::TupleVariant,
        Found::StructVariant => de::Unexpected::StructVariant,
        Found::Other(ref v) => de::Unexpected::Other(v),
    }
}

/// What serde found, as the library names it.
pub fn from_unexpected(found: de::Unexpected<'_>) -> Found {
    match found {
        de::Unexpected::Bool(v) => Found::Bool(v),
        de::Unexpected::Unsigned(v) => Found::Unsigned(v),
        de::Unexpected::Signed(v) => Found::Signed(v),
        de::Unexpected::Float(v) => Found::Float64(v.to_bits()),
        de::Unexpected::Char(v) => Found::Char(v),
        de::Unexpected::Str(v) => Found::Str(v.to_owned()),
        de::Unexpected::Bytes(v) => Found::Bytes(v.to_owned()),
        de::Unexpected::Unit => Found::Unit,
        de::Unexpected::Option => Found::Option,
        de::Unexpected::NewtypeStruct => Found::NewtypeStruct,
        de::Unexpected::Seq => Found::Sequence,
        de::Unexpected::Map => Found::Mapping,
        de::Unexpected::Enum => Found::Enum,
        de::Unexpected::UnitVariant => Found::UnitVariant,
        de::Unexpected::NewtypeVariant => Found::NewtypeVariant,
        de::Unexpected::TupleVariant => Found::TupleVariant,
        de::Unexpected::StructVariant => Found::StructVariant,
        de::Unexpected::Other(v) => Found::Other(v.to_owned()),
        other => Found::Other(other.to_string()),
    }
}

/// Why a decode failed: the library's failure, with the traits that serde
/// asks of an error.
#[derive(Clone, Debug, PartialEq)]
pub struct DeserializerError(pub Kind);

impl From<Kind> for DeserializerError {
    fn from(kind: Kind) -> DeserializerError {
        DeserializerError(kind)
    }
}

impl From<DeserializerError> for Kind {
    fn from(error: DeserializerError) -> Kind {
        error.0
    }
}

impl From<de::value::Error> for DeserializerError {
    fn from(error: de::value::Error) -> DeserializerError {
        DeserializerError(Kind::Custom(error.to_string()))
    }
}

impl DeserializerError {
    /// The same failure as an error of another decoder.
    pub fn to_error<E: de::Error>(&self) -> E {
        match self.0 {
            Kind::Custom(ref message) => E::custom(message),
            Kind::InvalidType(ref found, ref expected) => {
                E::invalid_type(to_unexpected(found), &expected.as_str())
            }
            Kind::InvalidValue(ref found, ref expected) => {
                E::invalid_value(to_unexpected(found), &expected.as_str())
            }
            Kind::InvalidLength(length, ref expected) => {
                E::invalid_length(length, &expected.as_str())
            }
            Kind::UnknownVariant(ref variant, expected) => E::unknown_variant(variant, expected),
            Kind::UnknownField(ref field, expected) => E::unknown_field(field, expected),
            Kind::MissingField(field) => E::missing_field(field),
            Kind::DuplicateField(field) => E::duplicate_field(field),
        }
    }

    /// The same failure as an error of another decoder.
    pub fn into_error<E: de::Error>(self) -> E {
        self.to_error()
    }
}

impl de::Error for DeserializerError {
    fn custom<T: fmt::Display>(message: T) -> Self {
        DeserializerError(Kind::Custom(message.to_string()))
    }

    fn invalid_type(found: de::Unexpected, expected: &dyn de::Expected) -> Self {
        DeserializerError(Kind::InvalidType(from_unexpected(found), expected.to_string()))
    }

    fn invalid_value(found: de::Unexpected, expected: &dyn de::Expected) -> Self {
        DeserializerError(Kind::InvalidValue(from_unexpected(found), expected.to_string()))
    }

    fn invalid_length(length: usize, expected: &dyn de::Expected) -> Self {
        DeserializerError(Kind::InvalidLength(length, expected.to_string()))
    }

    fn unknown_variant(variant: &str, expected: &'static [&'static str]) -> Self {
        DeserializerError(Kind::UnknownVariant(variant.to_owned(), expected))
    }

    fn unknown_field(field: &str, expected: &'static [&'static str]) -> Self {
        DeserializerError(Kind::UnknownField(field.to_owned(), expected))
    }

    fn missing_field(field: &'static str) -> Self {
        DeserializerError(Kind::MissingField(field))
    }

    fn duplicate_field(field: &'static str) -> Self {
        DeserializerError(Kind::DuplicateField(field))
    }
}

impl fmt::Display for DeserializerError {
    fn fmt(&self, f: &mut fmt::Formatter) -> fmt::Result {
        f.write_str(&format!("{:?}", self.0))
    }
}

impl std::error::Error for DeserializerError {}

/// Why an encode failed.
#[derive(Clone, Debug, PartialEq)]
pub enum SerializerError {
    Custom(String),
}

impl ser::Error for SerializerError {
    fn custom<T: fmt::Display>(message: T) -> Self {
        SerializerError::Custom(message.to_string())
    }
}

impl fmt::Display for SerializerError {
    fn fmt(&self, f: &mut fmt::Formatter) -> fmt::Result {
        match *self {
            SerializerError::Custom(ref message) => f.write_str(message),
        }
    }
}

impl std::error::Error for SerializerError {}

/// A value as something that serde can serialize.
pub struct Encoded<'a>(pub &'a Value);

impl<'a> Serialize for Encoded<'a> {
    fn serialize<S: ser::Serializer>(&self, s: S) -> Result<S::Ok, S::Error> {
        match self.0.emission() {
            Emission::Bool(v) => s.serialize_bool(v),
            Emission::U8(v) => s.serialize_u8(v),
            Emission::U16(v) => s.serialize_u16(v),
            Emission::U32(v) => s.serialize_u32(v),
            Emission::U64(v) => s.serialize_u64(v),
            Emission::I8(v) => s.serialize_i8(v),
            Emission::I16(v) => s.serialize_i16(v),
            Emission::I32(v) => s.serialize_i32(v),
            Emission::I64(v) => s.serialize_i64(v),
            Emission::F32(bits) => s.serialize_f32(f32::from_bits(bits)),
            Emission::F64(bits) => s.serialize_f64(f64::from_bits(bits)),
            Emission::Char(v) => s.serialize_char(v),
            Emission::Str(v) => s.serialize_str(v),
            Emission::Bytes(v) => s.serialize_bytes(v),
            Emission::Unit => s.serialize_unit(),
            Emission::Absent => s.serialize_none(),
            Emission::Present(v) => s.serialize_some(&Encoded(v)),
            Emission::NewtypeStruct(name, v) => s.serialize_newtype_struct(name, &Encoded(v)),
            Emission::Sequence(items) => {
                let mut seq = s.serialize_seq(Some(items.len()))?;
                for item in items {
                    seq.serialize_element(&Encoded(item))?;
                }
                seq.end()
            }
            Emission::Mapping(entries) => {
                let mut map = s.serialize_map(Some(entries.len()))?;
                for (key, value) in entries {
                    map.serialize_entry(&Encoded(key), &Encoded(value))?;
                }
                map.end()
            }
        }
    }
}

/// Encodes anything that serde can serialize into a value.
pub fn to_value<T: Serialize>(value: T) -> Result<Value, SerializerError> {
    value.serialize(Serializer)
}

/// The serializer that builds a value.
pub struct Serializer;

impl ser::Serializer for Serializer {
    type Ok = Value;
    type Error = SerializerError;
    type SerializeSeq = SeqBuilder;
    type SerializeTuple = SeqBuilder;
    type SerializeTupleStruct = SeqBuilder;
    type SerializeTupleVariant = TupleVariantBuilder;
    type SerializeMap = MapBuilder;
    type SerializeStruct = StructBuilder;
    type SerializeStructVariant = StructVariantBuilder;

    fn serialize_bool(self, v: bool) -> Result<Value, SerializerError> {
        Ok(Value::Bool(v))
    }

    fn serialize_i8(self, v: i8) -> Result<Value, SerializerError> {
        Ok(Value::I8(v))
    }

    fn serialize_i16(self, v: i16) -> Result<Value, SerializerError> {
        Ok(Value::I16(v))
    }

    fn serialize_i32(self, v: i32) -> Result<Value, SerializerError> {
        Ok(Value::I32(v))
    }

    fn serialize_i64(self, v: i64) -> Result<Value, SerializerError> {
        Ok(Value::I64(v))
    }

    fn serialize_u8(self, v: u8) -> Result<Value, SerializerError> {
        Ok(Value::U8(v))
    }

    fn serialize_u16(self, v: u16) -> Result<Value, SerializerError> {
        Ok(Value::U16(v))
    }

    fn serialize_u32(self, v: u32) -> Result<Value, SerializerError> {
        Ok(Value::U32(v))
    }

    fn serialize_u64(self, v: u64) -> Result<Value, SerializerError> {
        Ok(Value::U64(v))
    }

    fn serialize_f32(self, v: f32) -> Result<Value, SerializerError> {
        Ok(Value::F32(v.to_bits()))
    }

    fn serialize_f64(self, v: f64) -> Result<Value, SerializerError> {
        Ok(Value::F64(v.to_bits()))
    }

    fn serialize_char(self, v: char) -> Result<Value, SerializerError> {
        Ok(Value::Char(v))
    }

    fn serialize_str(self, v: &str) -> Result<Value, SerializerError> {
        Ok(Value::String(v.to_owned()))
    }

    fn serialize_bytes(self, v: &[u8]) -> Result<Value, SerializerError> {
        Ok(Value::Bytes(v.to_owned()))
    }

    fn serialize_none(self) -> Result<Value, SerializerError> {
        Ok(Value::Option(None))
    }

    fn serialize_some<T: ?Sized + Serialize>(self, value: &T) -> Result<Value, SerializerError> {
        value
            .serialize(Serializer)
            .map(|v| Value::Option(Some(Box::new(v))))
    }

    fn serialize_unit(self) -> Result<Value, SerializerError> {
        Ok(Value::Unit)
    }

    fn serialize_unit_struct(self, _name: &'static str) -> Result<Value, SerializerError> {
        Ok(Value::Unit)
    }

    fn serialize_unit_variant(
        self,
        _name: &'static str,
        _index: u32,
        name: &'static str,
    ) -> Result<Value, SerializerError> {
        Ok(unit_variant(name))
    }

    fn serialize_newtype_struct<T: ?Sized + Serialize>(
        self,
        _name: &'static str,
        value: &T,
    ) -> Result<Value, SerializerError> {
        value
            .serialize(Serializer)
            .map(|v| Value::Newtype(Box::new(v)))
    }

    fn serialize_newtype_variant<T: ?Sized + Serialize>(
        self,
        _name: &'static str,
        _index: u32,
        name: &'static str,
        value: &T,
    ) -> Result<Value, SerializerError> {
        value.serialize(Serializer).map(|v| variant(name, v))
    }

    fn serialize_seq(self, _len: Option<usize>) -> Result<SeqBuilder, SerializerError> {
        Ok(SeqBuilder(Vec::new()))
    }

    fn serialize_tuple(self, _len: usize) -> Result<SeqBuilder, SerializerError> {
        Ok(SeqBuilder(Vec::new()))
    }

    fn serialize_tuple_struct(
        self,
        _name: &'static str,
        _len: usize,
    ) -> Result<SeqBuilder, SerializerError> {
        Ok(SeqBuilder(Vec::new()))
    }

    fn serialize_tuple_variant(
        self,
        _name: &'static str,
        _index: u32,
        name: &'static str,
        _len: usize,
    ) -> Result<TupleVariantBuilder, SerializerError> {
        Ok(TupleVariantBuilder(name, Vec::new()))
    }

    fn serialize_map(self, _len: Option<usize>) -> Result<MapBuilder, SerializerError> {
        Ok(MapBuilder {
            entries: Vec::new(),
            key: None,
        })
    }

    fn serialize_struct(
        self,
        _name: &'static str,
        _len: usize,
    ) -> Result<StructBuilder, SerializerError> {
        Ok(StructBuilder(Vec::new()))
    }

    fn serialize_struct_variant(
        self,
        _name: &'static str,
        _index: u32,
        name: &'static str,
        _len: usize,
    ) -> Result<StructVariantBuilder, SerializerError> {
        Ok(StructVariantBuilder(name, Vec::new()))
    }
}

/// Gathers the elements of a sequence, a tuple or a tuple struct.
pub struct SeqBuilder(Vec<Value>);

impl ser::SerializeSeq for SeqBuilder {
    type Ok = Value;
    type Error = SerializerError;

    fn serialize_element<T: ?Sized + Serialize>(
        &mut self,
        value: &T,
    ) -> Result<(), SerializerError> {
        self.0.push(value.serialize(Serializer)?);
        Ok(())
    }

    fn end(self) -> Result<Value, SerializerError> {
        Ok(Value::Sequence(self.0))
    }
}

impl ser::SerializeTuple for SeqBuilder {
    type Ok = Value;
    type Error = SerializerError;

    fn serialize_element<T: ?Sized + Serialize>(
        &mut self,
        value: &T,
    ) -> Result<(), SerializerError> {
        self.0.push(value.serialize(Serializer)?);
        Ok(())
    }

    fn end(self) -> Result<Value, SerializerError> {
        Ok(Value::Sequence(self.0))
    }
}

impl ser::SerializeTupleStruct for SeqBuilder {
    type Ok = Value;
    type Error = SerializerError;

    fn serialize_field<T: ?Sized + Serialize>(&mut self, value: &T) -> Result<(), SerializerError> {
        self.0.push(value.serialize(Serializer)?);
        Ok(())
    }

    fn end(self) -> Result<Value, SerializerError> {
        Ok(Value::Sequence(self.0))
    }
}

/// Gathers the elements of a tuple variant.
pub struct TupleVariantBuilder(&'static str, Vec<Value>);

impl ser::SerializeTupleVariant for TupleVariantBuilder {
    type Ok = Value;
    type Error = SerializerError;

    fn serialize_field<T: ?Sized + Serialize>(&mut self, value: &T) -> Result<(), SerializerError> {
        self.1.push(value.serialize(Serializer)?);
        Ok(())
    }

    fn end(self) -> Result<Value, SerializerError> {
        Ok(variant(self.0, Value::Sequence(self.1)))
    }
}

/// Gathers the entries of a mapping.
pub struct MapBuilder {
    entries: Vec<(Value, Value)>,
    key: Option<Value>,
}

impl ser::SerializeMap for MapBuilder {
    type Ok = Value;
    type Error = SerializerError;

    fn serialize_key<T: ?Sized + Serialize>(&mut self, key: &T) -> Result<(), SerializerError> {
        self.key = Some(key.serialize(Serializer)?);
        Ok(())
    }

    fn serialize_value<T: ?Sized + Serialize>(&mut self, value: &T) -> Result<(), SerializerError> {
        let value = value.serialize(Serializer)?;
        match self.key.take() {
            Some(key) => {
                insert(&mut self.entries, key, value);
                Ok(())
            }
            None => Err(SerializerError::Custom("missing key".to_owned())),
        }
    }

    fn end(self) -> Result<Value, SerializerError> {
        Ok(Value::Mapping(self.entries))
    }
}

/// Gathers the fields of a struct.
pub struct StructBuilder(Vec<(Value, Value)>);

impl ser::SerializeStruct for StructBuilder {
    type Ok = Value;
    type Error = SerializerError;

    fn serialize_field<T: ?Sized + Serialize>(
        &mut self,
        name: &'static str,
        value: &T,
    ) -> Result<(), SerializerError> {
        let value = value.serialize(Serializer)?;
        field(&mut self.0, name, value);
        Ok(())
    }

    fn end(self) -> Result<Value, SerializerError> {
        Ok(Value::Mapping(self.0))
    }
}

/// Gathers the fields of a struct variant.
pub struct StructVariantBuilder(&'static str, Vec<(Value, Value)>);

impl ser::SerializeStructVariant for StructVariantBuilder {
    type Ok = Value;
    type Error = SerializerError;

    fn serialize_field<T: ?Sized + Serialize>(
        &mut self,
        name: &'static str,
        value: &T,
    ) -> Result<(), SerializerError> {
        let value = value.serialize(Serializer)?;
        field(&mut self.1, name, value);
        Ok(())
    }

    fn end(self) -> Result<Value, SerializerError> {
        Ok(variant(self.0, Value::Mapping(self.1)))
    }
}

/// Decodes a value into anything that serde can deserialize.
pub fn deserialize_into<'de, T: Deserialize<'de>>(value: Value) -> Result<T, DeserializerError> {
    T::deserialize(ValueDeserializer::new(value))
}

/// A value as the source that serde decodes from.
pub struct ValueDeserializer(Value);

impl ValueDeserializer {
    pub fn new(value: Value) -> ValueDeserializer {
        ValueDeserializer(value)
    }

    /// Asks the value for what the target wants and hands the answer on.
    fn ask<'de, V: Visitor<'de>>(
        self,
        request: Request,
        visitor: V,
    ) -> Result<V::Value, DeserializerError> {
        match self.0.deserialize_into(request) {
            Ok(answer) => hand(answer, visitor),
            Err(kind) => Err(DeserializerError(kind)),
        }
    }
}

/// Hands the answer of a value to the target.
fn hand<'de, V: Visitor<'de>>(answer: Answer, visitor: V) -> Result<V::Value, DeserializerError> {
    match answer {
        Answer::Bool(v) => visitor.visit_bool(v),
        Answer::U8(v) => visitor.visit_u8(v),
        Answer::U16(v) => visitor.visit_u16(v),
        Answer::U32(v) => visitor.visit_u32(v),
        Answer::U64(v) => visitor.visit_u64(v),
        Answer::I8(v) => visitor.visit_i8(v),
        Answer::I16(v) => visitor.visit_i16(v),
        Answer::I32(v) => visitor.visit_i32(v),
        Answer::I64(v) => visitor.visit_i64(v),
        Answer::F32(bits) => visitor.visit_f32(f32::from_bits(bits)),
        Answer::F64(bits) => visitor.visit_f64(f64::from_bits(bits)),
        Answer::Char(v) => visitor.visit_char(v),
        Answer::String(v) => visitor.visit_string(v),
        Answer::Bytes(v) => visitor.visit_byte_buf(v),
        Answer::Unit => visitor.visit_unit(),
        Answer::Absent => visitor.visit_none(),
        Answer::Present(v) => visitor.visit_some(ValueDeserializer(v)),
        Answer::Newtype(v) => visitor.visit_newtype_struct(ValueDeserializer(v)),
        Answer::Sequence(decoder) => {
            let mut walk = SeqWalk(decoder);
            let decoded = visitor.visit_seq(&mut walk)?;
            match walk.0.end() {
                Ok(()) => Ok(decoded),
                Err(kind) => Err(DeserializerError(kind)),
            }
        }
        Answer::Mapping(decoder) => visitor.visit_map(MapWalk(decoder)),
        Answer::Enum(name, payload) => visitor.visit_enum(EnumWalk { name, payload }),
    }
}

impl<'de> de::Deserializer<'de> for ValueDeserializer {
    type Error = DeserializerError;

    fn deserialize_any<V: Visitor<'de>>(self, visitor: V) -> Result<V::Value, Self::Error> {
        self.ask(Request::Any, visitor)
    }

    fn deserialize_bool<V: Visitor<'de>>(self, visitor: V) -> Result<V::Value, Self::Error> {
        self.ask(Request::Bool, visitor)
    }

    fn deserialize_i8<V: Visitor<'de>>(self, visitor: V) -> Result<V::Value, Self::Error> {
        self.ask(Request::I8, visitor)
    }

    fn deserialize_i16<V: Visitor<'de>>(self, visitor: V) -> Result<V::Value, Self::Error> {
        self.ask(Request::I16, visitor)
    }

    fn deserialize_i32<V: Visitor<'de>>(self, visitor: V) -> Result<V::Value, Self::Error> {
        self.ask(Request::I32, visitor)
    }

    fn deserialize_i64<V: Visitor<'de>>(self, visitor: V) -> Result<V::Value, Self::Error> {
        self.ask(Request::I64, visitor)
    }

    fn deserialize_u8<V: Visitor<'de>>(self, visitor: V) -> Result<V::Value, Self::Error> {
        self.ask(Request::U8, visitor)
    }

    fn deserialize_u16<V: Visitor<'de>>(self, visitor: V) -> Result<V::Value, Self::Error> {
        self.ask(Request::U16, visitor)
    }

    fn deserialize_u32<V: Visitor<'de>>(self, visitor: V) -> Result<V::Value, Self::Error> {
        self.ask(Request::U32, visitor)
    }

    fn deserialize_u64<V: Visitor<'de>>(self, visitor: V) -> Result<V::Value, Self::Error> {
        self.ask(Request::U64, visitor)
    }

    fn deserialize_f32<V: Visitor<'de>>(self, visitor: V) -> Result<V::Value, Self::Error> {
        self.ask(Request::F32, visitor)
    }

    fn deserialize_f64<V: Visitor<'de>>(self, visitor: V) -> Result<V::Value, Self::Error> {
        self.ask(Request::F64, visitor)
    }

    fn deserialize_char<V: Visitor<'de>>(self, visitor: V) -> Result<V::Value, Self::Error> {
        self.ask(Request::Char, visitor)
    }

    fn deserialize_str<V: Visitor<'de>>(self, visitor: V) -> Result<V::Value, Self::Error> {
        self.ask(Request::String, visitor)
    }

    fn deserialize_string<V: Visitor<'de>>(self, visitor: V) -> Result<V::Value, Self::Error> {
        self.ask(Request::String, visitor)
    }

    fn deserialize_bytes<V: Visitor<'de>>(self, visitor: V) -> Result<V::Value, Self::Error> {
        self.ask(Request::Bytes, visitor)
    }

    fn deserialize_byte_buf<V: Visitor<'de>>(self, visitor: V) -> Result<V::Value, Self::Error> {
        self.ask(Request::Bytes, visitor)
    }

    fn deserialize_option<V: Visitor<'de>>(self, visitor: V) -> Result<V::Value, Self::Error> {
        self.ask(Request::Option, visitor)
    }

    fn deserialize_unit<V: Visitor<'de>>(self, visitor: V) -> Result<V::Value, Self::Error> {
        self.ask(Request::Unit, visitor)
    }

    fn deserialize_unit_struct<V: Visitor<'de>>(
        self,
        _name: &'static str,
        visitor: V,
    ) -> Result<V::Value, Self::Error> {
        self.ask(Request::Unit, visitor)
    }

    fn deserialize_newtype_struct<V: Visitor<'de>>(
        self,
        _name: &'static str,
        visitor: V,
    ) -> Result<V::Value, Self::Error> {
        self.ask(Request::Newtype, visitor)
    }

    fn deserialize_seq<V: Visitor<'de>>(self, visitor: V) -> Result<V::Value, Self::Error> {
        self.ask(Request::Sequence, visitor)
    }

    fn deserialize_tuple<V: Visitor<'de>>(
        self,
        _len: usize,
        visitor: V,
    ) -> Result<V::Value, Self::Error> {
        self.ask(Request::Sequence, visitor)
    }

    fn deserialize_tuple_struct<V: Visitor<'de>>(
        self,
        _name: &'static str,
        _len: usize,
        visitor: V,
    ) -> Result<V::Value, Self::Error> {
        self.ask(Request::Sequence, visitor)
    }

    fn deserialize_map<V: Visitor<'de>>(self, visitor: V) -> Result<V::Value, Self::Error> {
        self.ask(Request::Mapping, visitor)
    }

    fn deserialize_struct<V: Visitor<'de>>(
        self,
        _name: &'static str,
        _fields: &'static [&'static str],
        visitor: V,
    ) -> Result<V::Value, Self::Error> {
        self.ask(Request::Mapping, visitor)
    }

    fn deserialize_enum<V: Visitor<'de>>(
        self,
        _name: &'static str,
        _variants: &'static [&'static str],
        visitor: V,
    ) -> Result<V::Value, Self::Error> {
        self.ask(Request::Enum, visitor)
    }

    fn deserialize_identifier<V: Visitor<'de>>(self, visitor: V) -> Result<V::Value, Self::Error> {
        self.ask(Request::Any, visitor)
    }

    fn deserialize_ignored_any<V: Visitor<'de>>(self, visitor: V) -> Result<V::Value, Self::Error> {
        drop(self);
        visitor.visit_unit()
    }
}

/// Hands the elements of a sequence to serde.
struct SeqWalk(SeqDecoder);

impl<'de> de::SeqAccess<'de> for SeqWalk {
    type Error = DeserializerError;

    fn next_element_seed<T: DeserializeSeed<'de>>(
        &mut self,
        seed: T,
    ) -> Result<Option<T::Value>, Self::Error> {
        match self.0.next_element() {
            Some(value) => seed.deserialize(ValueDeserializer(value)).map(Some),
            None => Ok(None),
        }
    }

    fn size_hint(&self) -> Option<usize> {
        Some(self.0.remaining())
    }
}

/// Walks the entries of a mapping for serde.
struct MapWalk(MapDecoder);

impl<'de> de::MapAccess<'de> for MapWalk {
    type Error = DeserializerError;

    /// Tries the next key with the seed. A seed decodes once, so a key that
    /// the target does not know is put back and its failure handed on.
    fn next_key_seed<K: DeserializeSeed<'de>>(
        &mut self,
        seed: K,
    ) -> Result<Option<K::Value>, Self::Error> {
        let key = match self.0.next_key() {
            Some(key) => key,
            None => return Ok(None),
        };
        match seed.deserialize(ValueDeserializer(key.clone())) {
            Ok(decoded) => match self.0.key_decoded(key, Ok(())) {
                Ok(_) => Ok(Some(decoded)),
                Err(kind) => Err(DeserializerError(kind)),
            },
            Err(error) => {
                let kind: Kind = error.into();
                match self.0.key_decoded(key, Err(kind.clone())) {
                    Ok(_) => Err(DeserializerError(kind)),
                    Err(kind) => Err(DeserializerError(kind)),
                }
            }
        }
    }

    /// Tries key after key until the target knows one: the entries of the
    /// keys that it does not know are put back.
    fn next_key<K: Deserialize<'de>>(&mut self) -> Result<Option<K>, Self::Error> {
        loop {
            let key = match self.0.next_key() {
                Some(key) => key,
                None => return Ok(None),
            };
            let (decoded, outcome) = match K::deserialize(ValueDeserializer(key.clone())) {
                Ok(decoded) => (Some(decoded), Ok(())),
                Err(error) => (None, Err(error.into())),
            };
            match self.0.key_decoded(key, outcome) {
                Ok(true) => return Ok(decoded),
                Ok(false) => {}
                Err(kind) => return Err(DeserializerError(kind)),
            }
        }
    }

    fn next_value_seed<V: DeserializeSeed<'de>>(
        &mut self,
        seed: V,
    ) -> Result<V::Value, Self::Error> {
        match self.0.next_value() {
            Ok(value) => seed.deserialize(ValueDeserializer(value)),
            Err(kind) => Err(DeserializerError(kind)),
        }
    }

    fn size_hint(&self) -> Option<usize> {
        Some(self.0.remaining())
    }
}

/// Hands the name of a variant to serde, and then its payload.
struct EnumWalk {
    name: Value,
    payload: Option<Value>,
}

impl<'de> de::EnumAccess<'de> for EnumWalk {
    type Error = DeserializerError;
    type Variant = PayloadWalk;

    fn variant_seed<V: DeserializeSeed<'de>>(
        self,
        seed: V,
    ) -> Result<(V::Value, PayloadWalk), Self::Error> {
        let name = seed.deserialize(ValueDeserializer(self.name))?;
        Ok((name, PayloadWalk(self.payload)))
    }
}

/// Hands the payload of a variant to serde.
struct PayloadWalk(Option<Value>);

impl PayloadWalk {
    fn ask(self, kind: VariantKind) -> Result<Answer, DeserializerError> {
        variant_payload(self.0, kind).map_err(DeserializerError)
    }
}

impl<'de> de::VariantAccess<'de> for PayloadWalk {
    type Error = DeserializerError;

    fn unit_variant(self) -> Result<(), Self::Error> {
        self.ask(VariantKind::Unit).map(|_| ())
    }

    fn newtype_variant_seed<T: DeserializeSeed<'de>>(
        self,
        seed: T,
    ) -> Result<T::Value, Self::Error> {
        match self.ask(VariantKind::Newtype)? {
            Answer::Newtype(value) => seed.deserialize(ValueDeserializer(value)),
            _ => Err(de::Error::custom("value is missing")),
        }
    }

    fn tuple_variant<V: Visitor<'de>>(
        self,
        _len: usize,
        visitor: V,
    ) -> Result<V::Value, Self::Error> {
        hand(self.ask(VariantKind::Tuple)?, visitor)
    }

    fn struct_variant<V: Visitor<'de>>(
        self,
        _fields: &'static [&'static str],
        visitor: V,
    ) -> Result<V::Value, Self::Error> {
        hand(self.ask(VariantKind::Struct)?, visitor)
    }
}

/// A value as something that serde can deserialize.
pub struct Decoded(pub Value);

impl<'de> Deserialize<'de> for Decoded {
    fn deserialize<D: de::Deserializer<'de>>(d: D) -> Result<Decoded, D::Error> {
        d.deserialize_any(ValueVisitor).map(Decoded)
    }
}

/// The target that builds a value from whatever it is handed.
pub struct ValueVisitor;

impl<'de> Visitor<'de> for ValueVisitor {
    type Value = Value;

    fn expecting(&self, f: &mut fmt::Formatter) -> fmt::Result {
        f.write_str("any value")
    }

    fn visit_bool<E>(self, v: bool) -> Result<Value, E> {
        Ok(Value::Bool(v))
    }

    fn visit_i8<E>(self, v: i8) -> Result<Value, E> {
        Ok(Value::I8(v))
    }

    fn visit_i16<E>(self, v: i16) -> Result<Value, E> {
        Ok(Value::I16(v))
    }

    fn visit_i32<E>(self, v: i32) -> Result<Value, E> {
        Ok(Value::I32(v))
    }

    fn visit_i64<E>(self, v: i64) -> Result<Value, E> {
        Ok(Value::I64(v))
    }

    fn visit_u8<E>(self, v: u8) -> Result<Value, E> {
        Ok(Value::U8(v))
    }

    fn visit_u16<E>(self, v: u16) -> Result<Value, E> {
        Ok(Value::U16(v))
    }

    fn visit_u32<E>(self, v: u32) -> Result<Value, E> {
        Ok(Value::U32(v))
    }

    fn visit_u64<E>(self, v: u64) -> Result<Value, E> {
        Ok(Value::U64(v))
    }

    fn visit_f32<E>(self, v: f32) -> Result<Value, E> {
        Ok(Value::F32(v.to_bits()))
    }

    fn visit_f64<E>(self, v: f64) -> Result<Value, E> {
        Ok(Value::F64(v.to_bits()))
    }

    fn visit_char<E>(self, v: char) -> Result<Value, E> {
        Ok(Value::Char(v))
    }

    fn visit_str<E>(self, v: &str) -> Result<Value, E> {
        Ok(Value::String(v.to_owned()))
    }

    fn visit_string<E>(self, v: String) -> Result<Value, E> {
        Ok(Value::String(v))
    }

    fn visit_bytes<E>(self, v: &[u8]) -> Result<Value, E> {
        Ok(Value::Bytes(v.to_owned()))
    }

    fn visit_byte_buf<E>(self, v: Vec<u8>) -> Result<Value, E> {
        Ok(Value::Bytes(v))
    }

    fn visit_none<E>(self) -> Result<Value, E> {
        Ok(Value::Option(None))
    }

    fn visit_some<D: de::Deserializer<'de>>(self, d: D) -> Result<Value, D::Error> {
        d.deserialize_any(ValueVisitor)
            .map(|v| Value::Option(Some(Box::new(v))))
    }

    fn visit_unit<E>(self) -> Result<Value, E> {
        Ok(Value::Unit)
    }

    fn visit_newtype_struct<D: de::Deserializer<'de>>(self, d: D) -> Result<Value, D::Error> {
        d.deserialize_any(ValueVisitor)
            .map(|v| Value::Newtype(Box::new(v)))
    }

    fn visit_seq<A: de::SeqAccess<'de>>(self, mut seq: A) -> Result<Value, A::Error> {
        let mut items = Vec::new();
        while let Some(Decoded(item)) = seq.next_element()? {
            items.push(item);
        }
        Ok(Value::Sequence(items))
    }

    fn visit_map<A: de::MapAccess<'de>>(self, mut map: A) -> Result<Value, A::Error> {
        let mut entries = Vec::new();
        while let Some((Decoded(key), Decoded(value))) = map.next_entry()? {
            insert(&mut entries, key, value);
        }
        Ok(Value::Mapping(entries))
    }
}

fn round_trip<T>(x: T)
where
    T: Serialize + for<'de> Deserialize<'de> + PartialEq + fmt::Debug,
{
    let value = to_value(&x).unwrap();
    assert!(value.is_well_formed());
    let back: T = deserialize_into(value).unwrap();
    assert_eq!(back, x);
}

#[derive(Debug, PartialEq)]
struct Meters(u32);

impl Serialize for Meters {
    fn serialize<S: ser::Serializer>(&self, s: S) -> Result<S::Ok, S::Error> {
        s.serialize_newtype_struct("Meters", &self.0)
    }
}

impl<'de> Deserialize<'de> for Meters {
    fn deserialize<D: de::Deserializer<'de>>(d: D) -> Result<Meters, D::Error> {
        struct Target;

        impl<'de> Visitor<'de> for Target {
            type Value = Meters;

            fn expecting(&self, f: &mut fmt::Formatter) -> fmt::Result {
                f.write_str("a length in meters")
            }

            fn visit_newtype_struct<D: de::Deserializer<'de>>(
                self,
                d: D,
            ) -> Result<Meters, D::Error> {
                u32::deserialize(d).map(Meters)
            }
        }

        d.deserialize_newtype_struct("Meters", Target)
    }
}

#[derive(Debug, PartialEq)]
struct Blob(Vec<u8>);

impl Serialize for Blob {
    fn serialize<S: ser::Serializer>(&self, s: S) -> Result<S::Ok, S::Error> {
        s.serialize_bytes(&self.0)
    }
}

impl<'de> Deserialize<'de> for Blob {
    fn deserialize<D: de::Deserializer<'de>>(d: D) -> Result<Blob, D::Error> {
        struct Target;

        impl<'de> Visitor<'de> for Target {
            type Value = Blob;

            fn expecting(&self, f: &mut fmt::Formatter) -> fmt::Result {
                f.write_str("bytes")
            }

            fn visit_byte_buf<E>(self, v: Vec<u8>) -> Result<Blob, E> {
                Ok(Blob(v))
            }
        }

        d.deserialize_byte_buf(Target)
    }
}

#[derive(Debug, PartialEq)]
struct Foo {
    a: u32,
    b: String,
    c: Vec<bool>,
}

impl Serialize for Foo {
    fn serialize<S: ser::Serializer>(&self, s: S) -> Result<S::Ok, S::Error> {
        let mut fields = s.serialize_struct("Foo", 3)?;
        fields.serialize_field("a", &self.a)?;
        fields.serialize_field("b", &self.b)?;
        fields.serialize_field("c", &self.c)?;
        fields.end()
    }
}

enum FooField {
    A,
    B,
    C,
}

impl<'de> Deserialize<'de> for FooField {
    fn deserialize<D: de::Deserializer<'de>>(d: D) -> Result<FooField, D::Error> {
        match String::deserialize(d)?.as_str() {
            "a" => Ok(FooField::A),
            "b" => Ok(FooField::B),
            "c" => Ok(FooField::C),
            other => Err(de::Error::unknown_field(other, &["a", "b", "c"])),
        }
    }
}

impl<'de> Deserialize<'de> for Foo {
    fn deserialize<D: de::Deserializer<'de>>(d: D) -> Result<Foo, D::Error> {
        struct Target;

        impl<'de> Visitor<'de> for Target {
            type Value = Foo;

            fn expecting(&self, f: &mut fmt::Formatter) -> fmt::Result {
                f.write_str("struct Foo")
            }

            fn visit_map<A: de::MapAccess<'de>>(self, mut map: A) -> Result<Foo, A::Error> {
                let mut a = None;
                let mut b = None;
                let mut c = None;
                while let Some(key) = map.next_key::<FooField>()? {
                    match key {
                        FooField::A => a = Some(map.next_value()?),
                        FooField::B => b = Some(map.next_value()?),
                        FooField::C => c = Some(map.next_value()?),
                    }
                }
                Ok(Foo {
                    a: a.ok_or_else(|| de::Error::missing_field("a"))?,
                    b: b.ok_or_else(|| de::Error::missing_field("b"))?,
                    c: c.ok_or_else(|| de::Error::missing_field("c"))?,
                })
            }
        }

        d.deserialize_struct("Foo", &["a", "b", "c"], Target)
    }
}

#[derive(Debug, PartialEq)]
enum Shape {
    Point,
    Circle(u8),
    Rect(u8, u8),
    Named { side: u8 },
}

impl Serialize for Shape {
    fn serialize<S: ser::Serializer>(&self, s: S) -> Result<S::Ok, S::Error> {
        match *self {
            Shape::Point => s.serialize_unit_variant("Shape", 0, "Point"),
            Shape::Circle(r) => s.serialize_newtype_variant("Shape", 1, "Circle", &r),
            Shape::Rect(w, h) => {
                let mut fields = s.serialize_tuple_variant("Shape", 2, "Rect", 2)?;
                fields.serialize_field(&w)?;
                fields.serialize_field(&h)?;
                fields.end()
            }
            Shape::Named { side } => {
                let mut fields = s.serialize_struct_variant("Shape", 3, "Named", 1)?;
                fields.serialize_field("side", &side)?;
                fields.end()
            }
        }
    }
}

impl<'de> Deserialize<'de> for Shape {
    fn deserialize<D: de::Deserializer<'de>>(d: D) -> Result<Shape, D::Error> {
        struct Pair;

        impl<'de> Visitor<'de> for Pair {
            type Value = Shape;

            fn expecting(&self, f: &mut fmt::Formatter) -> fmt::Result {
                f.write_str("two sides")
            }

            fn visit_seq<A: de::SeqAccess<'de>>(self, mut seq: A) -> Result<Shape, A::Error> {
                let w = seq
                    .next_element()?
                    .ok_or_else(|| de::Error::invalid_length(0, &self))?;
                let h = seq
                    .next_element()?
                    .ok_or_else(|| de::Error::invalid_length(1, &self))?;
                Ok(Shape::Rect(w, h))
            }
        }

        struct Side;

        impl<'de> Visitor<'de> for Side {
            type Value = Shape;

            fn expecting(&self, f: &mut fmt::Formatter) -> fmt::Result {
                f.write_str("a side")
            }

            fn visit_map<A: de::MapAccess<'de>>(self, mut map: A) -> Result<Shape, A::Error> {
                let mut side = None;
                while let Some(key) = map.next_key::<String>()? {
                    if key == "side" {
                        side = Some(map.next_value()?);
                    } else {
                        return Err(de::Error::unknown_field(&key, &["side"]));
                    }
                }
                Ok(Shape::Named {
                    side: side.ok_or_else(|| de::Error::missing_field("side"))?,
                })
            }
        }

        struct Target;

        impl<'de> Visitor<'de> for Target {
            type Value = Shape;

            fn expecting(&self, f: &mut fmt::Formatter) -> fmt::Result {
                f.write_str("enum Shape")
            }

            fn visit_enum<A: de::EnumAccess<'de>>(self, data: A) -> Result<Shape, A::Error> {
                let (name, payload) = data.variant::<String>()?;
                match name.as_str() {
                    "Point" => payload.unit_variant().map(|()| Shape::Point),
                    "Circle" => payload.newtype_variant().map(Shape::Circle),
                    "Rect" => payload.tuple_variant(2, Pair),
                    "Named" => payload.struct_variant(&["side"], Side),
                    other => Err(de::Error::unknown_variant(
                        other,
                        &["Point", "Circle", "Rect", "Named"],
                    )),
                }
            }
        }

        d.deserialize_enum("Shape", &["Point", "Circle", "Rect", "Named"], Target)
    }
}

#[test]
fn typed_scalars_round_trip() {
    round_trip(true);
    round_trip(0u8);
    round_trip(u16::MAX);
    round_trip(7u32);
    round_trip(u64::MAX);
    round_trip(i8::MIN);
    round_trip(-2i16);
    round_trip(i32::MAX);
    round_trip(i64::MIN);
    round_trip(1.5f32);
    round_trip(-0.25f64);
    round_trip('x');
    round_trip(String::from("hello"));
    round_trip(());
}

#[test]
fn typed_composites_round_trip() {
    round_trip(Some(15u32));
    round_trip(None::<u32>);
    round_trip(Some(Some(String::from("x"))));
    round_trip(Meters(3));
    round_trip(Blob(vec![0, 1, 255]));
    round_trip(vec![true, false]);
    round_trip(Vec::<u8>::new());
    round_trip((1u8, String::from("two"), 3i64));
    let mut map = BTreeMap::new();
    map.insert(String::from("b"), vec![Some(2u16)]);
    map.insert(String::from("a"), vec![None, Some(1)]);
    round_trip(map);
    let mut nested = BTreeMap::new();
    nested.insert(2u8, vec![Meters(1), Meters(2)]);
    nested.insert(1u8, vec![]);
    round_trip(vec![Some(nested)]);
    round_trip(Foo {
        a: 15,
        b: "hello".into(),
        c: vec![true, false],
    });
    round_trip(Shape::Point);
    round_trip(Shape::Circle(3));
    round_trip(Shape::Rect(1, 2));
    round_trip(Shape::Named { side: 4 });
}

#[test]
fn a_value_round_trips_through_serde() {
    let value = Value::Option(Some(Box::new(Value::Sequence(vec![
        Value::U16(8),
        Value::Char('a'),
        Value::F32(1.0f32.to_bits()),
        Value::String("hello".into()),
        Value::Mapping(collect(vec![
            (Value::Bool(false), Value::Unit),
            (
                Value::Bool(true),
                Value::Newtype(Box::new(Value::Bytes(b"hi".as_ref().into()))),
            ),
        ])),
    ]))));
    assert_eq!(to_value(Encoded(&value)).unwrap(), value);
    let Decoded(decoded) = deserialize_into(value.clone()).unwrap();
    assert_eq!(decoded, value);
}

#[test]
fn a_struct_encodes_as_a_map_of_its_fields() {
    let foo = Foo {
        a: 15,
        b: "hello".into(),
        c: vec![true, false],
    };
    let expected = Value::Mapping(collect(vec![
        (Value::String("a".into()), Value::U32(15)),
        (Value::String("b".into()), Value::String("hello".into())),
        (
            Value::String("c".into()),
            Value::Sequence(vec![Value::Bool(true), Value::Bool(false)]),
        ),
    ]));
    assert_eq!(to_value(&foo).unwrap(), expected);
}

#[test]
fn variants_encode_as_a_name_or_a_map_with_a_single_key() {
    assert_eq!(to_value(Shape::Point).unwrap(), Value::String("Point".into()));
    assert_eq!(
        to_value(Shape::Circle(3)).unwrap(),
        Value::Mapping(vec![(Value::String("Circle".into()), Value::U8(3))])
    );
    assert_eq!(
        to_value(Shape::Rect(1, 2)).unwrap(),
        Value::Mapping(vec![(
            Value::String("Rect".into()),
            Value::Sequence(vec![Value::U8(1), Value::U8(2)])
        )])
    );
    assert_eq!(
        to_value(Shape::Named { side: 4 }).unwrap(),
        Value::Mapping(vec![(
            Value::String("Named".into()),
            Value::Mapping(vec![(Value::String("side".into()), Value::U8(4))])
        )])
    );
}

#[test]
fn a_target_skips_the_keys_that_it_does_not_know() {
    let value = Value::Mapping(collect(vec![
        (Value::String("a".into()), Value::U32(1)),
        (Value::String("extra".into()), Value::U8(2)),
        (Value::String("b".into()), Value::String("x".into())),
        (Value::String("zzz".into()), Value::Unit),
        (Value::String("c".into()), Value::Sequence(vec![])),
    ]));
    let foo: Foo = deserialize_into(value).unwrap();
    assert_eq!(
        foo,
        Foo {
            a: 1,
            b: "x".into(),
            c: vec![],
        }
    );
}

#[test]
fn a_target_fails_on_a_field_that_is_missing() {
    let value = Value::Mapping(collect(vec![(Value::String("a".into()), Value::U32(1))]));
    assert_eq!(
        deserialize_into::<Foo>(value),
        Err(DeserializerError(Kind::MissingField("b")))
    );
}

#[test]
fn a_typed_target_is_never_served_by_coercion() {
    assert_eq!(
        deserialize_into::<bool>(Value::String("x".into())),
        Err(DeserializerError(Kind::InvalidType(
            Found::Str("x".into()),
            "a boolean".into()
        )))
    );
    assert_eq!(
        deserialize_into::<u32>(Value::I64(5)),
        Err(DeserializerError(Kind::InvalidType(
            Found::Signed(5),
            "an unsigned 32-bit integer".into()
        )))
    );
    assert_eq!(
        deserialize_into::<f64>(Value::F32(1.0f32.to_bits())),
        Err(DeserializerError(Kind::InvalidType(
            Found::Float32(1.0f32.to_bits()),
            "a 64-bit floating-point number".into()
        )))
    );
    assert_eq!(
        deserialize_into::<Vec<u8>>(Value::Bytes(vec![1])),
        Err(DeserializerError(Kind::InvalidType(
            Found::Bytes(vec![1]),
            "a sequence".into()
        )))
    );
    assert_eq!(
        deserialize_into::<String>(Value::U8(1)),
        Err(DeserializerError(Kind::InvalidType(
            Found::Unsigned(1),
            "a string".into()
        )))
    );
}

#[test]
fn an_option_takes_what_is_there() {
    assert_eq!(deserialize_into::<Option<u8>>(Value::U8(1)), Ok(Some(1)));
    assert_eq!(deserialize_into::<Option<u8>>(Value::Unit), Ok(None));
    assert_eq!(deserialize_into::<Option<u8>>(Value::Option(None)), Ok(None));
    assert_eq!(
        deserialize_into::<Option<u8>>(Value::Option(Some(Box::new(Value::U8(2))))),
        Ok(Some(2))
    );
}

#[test]
fn a_tuple_must_use_up_its_sequence() {
    let value = Value::Sequence(vec![Value::U8(1), Value::U8(2), Value::U8(3)]);
    assert_eq!(
        deserialize_into::<(u8, u8)>(value),
        Err(DeserializerError(Kind::InvalidLength(
            3,
            "fewer elements in sequence".into()
        )))
    );
}

#[test]
fn an_unknown_variant_fails() {
    match deserialize_into::<Shape>(Value::String("Line".into())) {
        Err(DeserializerError(Kind::UnknownVariant(name, known))) => {
            assert_eq!(name, "Line");
            assert_eq!(known, ["Point", "Circle", "Rect", "Named"]);
        }
        other => panic!("{:?}", other),
    }
    assert_eq!(
        deserialize_into::<Shape>(Value::U8(1)),
        Err(DeserializerError(Kind::InvalidType(
            Found::Unsigned(1),
            "string or map".into()
        )))
    );
}

#[test]
fn failures_convert_to_another_decoder_and_back() {
    let failures = vec![
        Kind::Custom("no".into()),
        Kind::InvalidType(Found::Float64(1.5f64.to_bits()), "a string".into()),
        Kind::InvalidValue(Found::Sequence, "x".into()),
        Kind::InvalidLength(2, "three".into()),
        Kind::UnknownVariant("v".into(), &["a", "b"]),
        Kind::UnknownField("f".into(), &["a"]),
        Kind::MissingField("f"),
        Kind::DuplicateField("f"),
    ];
    for kind in failures {
        let error = DeserializerError(kind);
        let same: DeserializerError = error.to_error();
        assert_eq!(same, error);
        let plain: de::value::Error = error.clone().into_error();
        assert!(!plain.to_string().is_empty());
        assert!(!error.to_string().is_empty());
    }
    let widened = DeserializerError(Kind::InvalidType(
        Found::Float32(1.5f32.to_bits()),
        "x".into(),
    ));
    assert_eq!(
        widened.to_error::<DeserializerError>(),
        DeserializerError(Kind::InvalidType(
            Found::Float64(1.5f64.to_bits()),
            "x".into()
        ))
    );
}
