//! A self-describing value that any serializable shape can be encoded into
//! and decoded from.
//!
//! - [`value`] holds the value tree and its mathematical model.
//! - [`order`], [`equal`] and [`hash`] give values a total order, an equality
//!   and a hash that agree with each other, floating-point numbers included;
//!   [`float`] ranks the bit patterns of those numbers and [`laws`] proves
//!   that the order is total.
//! - [`map`] keeps the entries of a mapping sorted by key.
//! - [`ser`] says what a value emits to a receiver of an encoding, and [`de`]
//!   what it answers to a target of a decoding; [`error`] names the ways in
//!   which a decoding fails.

pub mod de;
pub mod equal;
pub mod error;
pub mod float;
pub mod hash;
pub mod laws;
pub mod map;
pub mod order;
pub mod ser;
pub mod value;

pub use de::{Answer, MapDecoder, Request, SeqDecoder, VariantKind};
pub use error::{DeserializerError, Unexpected};
pub use ser::Emission;
pub use value::Value;
