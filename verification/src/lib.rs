//! Binary wire codecs driven by a schema.
//!
//! A schema describes records and unions whose fields carry wire
//! directives. Compiling a schema gives, for each entity, a codec: a tree
//! that says what is written for a value and what is read back, so that the
//! two always mirror each other.
//!
//! - [`types`] holds the primitive wire types: bytes, fixed-width numbers
//!   in either byte order, variable-length numbers, booleans and strings.
//! - [`schema`] is the schema model; [`syntax`] and [`directives`] build it
//!   from declarations as they are written.
//! - [`resolver`] turns the declared type of a field and the field's
//!   directive queues into a codec; [`structs`] and [`enums`] compile whole
//!   records and unions.
//! - [`codec`], [`value`] and [`wire_type`] are what compiling gives and
//!   what codecs carry; [`layout`] defines what a codec writes and reads;
//!   [`encode`] and [`decode`] do it on byte streams ([`stream`]).
//! - [`laws`] holds what is true of every codec: reading gives back what
//!   was written, and a stream cut short is reported as truncated.

use crate::error::ProtoRwError;
use bytes::{Bytes, BytesMut};
use vstd::prelude::*;

pub mod codec;
pub mod decode;
pub mod directives;
pub mod encode;
pub mod enums;
pub mod error;
pub mod laws;
pub mod layout;
pub mod resolver;
pub mod schema;
pub mod stream;
pub mod structs;
pub mod syntax;
pub mod types;
pub mod value;
pub mod wire_type;

verus! {

/// A type with a wire form of its own. Each implementation says in its own
/// contract what it reads and writes.
pub trait ProtoRw: Sized {
    /// Reads one value from `buf` and moves `buf` past its bytes.
    fn read_proto(buf: &mut Bytes) -> Result<Self, ProtoRwError>;

    /// Appends the bytes of the value to `buf`.
    fn write_proto(&self, buf: &mut BytesMut) -> Result<(), ProtoRwError>;
}

} // verus!
