//! The primitive wire types: bytes, fixed-width integers in either byte
//! order, variable-length integers, booleans and strings.

pub mod boolean;
pub mod convert;
pub mod endian;
pub mod integer;
pub mod text;
pub mod var;

pub use endian::{Endianness, Width, BE, LE};
pub use integer::Integer;
pub use var::Var;
