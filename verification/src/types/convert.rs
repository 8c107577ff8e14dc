//! Conversions between the wrappers `LE`, `BE` and `Var` and the numbers
//! they carry.

use crate::types::endian::{BE, LE};
use crate::types::var::Var;
use vstd::prelude::*;
use vstd::std_specs::convert::FromSpecImpl;

verus! {

impl<T> From<T> for LE<T> {
    /// The number, to be carried least significant byte first.
    fn from(data: T) -> (r: LE<T>) {
        LE(data)
    }
}

impl<T> FromSpecImpl<T> for LE<T> {
    open spec fn obeys_from_spec() -> bool {
        true
    }

    open spec fn from_spec(data: T) -> LE<T> {
        LE(data)
    }
}

impl<T> From<T> for BE<T> {
    /// The number, to be carried most significant byte first.
    fn from(data: T) -> (r: BE<T>) {
        BE(data)
    }
}

impl<T> FromSpecImpl<T> for BE<T> {
    open spec fn obeys_from_spec() -> bool {
        true
    }

    open spec fn from_spec(data: T) -> BE<T> {
        BE(data)
    }
}

impl<T> From<T> for Var<T> {
    /// The number, to be carried in the variable-length form.
    fn from(data: T) -> (r: Var<T>) {
        Var(data)
    }
}

impl<T> FromSpecImpl<T> for Var<T> {
    open spec fn obeys_from_spec() -> bool {
        true
    }

    open spec fn from_spec(data: T) -> Var<T> {
        Var(data)
    }
}

impl From<LE<u16>> for u16 {
    /// The number that the wrapper carries.
    fn from(data: LE<u16>) -> (r: u16) {
        data.0
    }
}

impl FromSpecImpl<LE<u16>> for u16 {
    open spec fn obeys_from_spec() -> bool {
        true
    }

    open spec fn from_spec(data: LE<u16>) -> u16 {
        data.0
    }
}

impl From<LE<u32>> for u32 {
    /// The number that the wrapper carries.
    fn from(data: LE<u32>) -> (r: u32) {
        data.0
    }
}

impl FromSpecImpl<LE<u32>> for u32 {
    open spec fn obeys_from_spec() -> bool {
        true
    }

    open spec fn from_spec(data: LE<u32>) -> u32 {
        data.0
    }
}

impl From<LE<u64>> for u64 {
    /// The number that the wrapper carries.
    fn from(data: LE<u64>) -> (r: u64) {
        data.0
    }
}

impl FromSpecImpl<LE<u64>> for u64 {
    open spec fn obeys_from_spec() -> bool {
        true
    }

    open spec fn from_spec(data: LE<u64>) -> u64 {
        data.0
    }
}

impl From<LE<u128>> for u128 {
    /// The number that the wrapper carries.
    fn from(data: LE<u128>) -> (r: u128) {
        data.0
    }
}

impl FromSpecImpl<LE<u128>> for u128 {
    open spec fn obeys_from_spec() -> bool {
        true
    }

    open spec fn from_spec(data: LE<u128>) -> u128 {
        data.0
    }
}

impl From<LE<i16>> for i16 {
    /// The number that the wrapper carries.
    fn from(data: LE<i16>) -> (r: i16) {
        data.0
    }
}

impl FromSpecImpl<LE<i16>> for i16 {
    open spec fn obeys_from_spec() -> bool {
        true
    }

    open spec fn from_spec(data: LE<i16>) -> i16 {
        data.0
    }
}

impl From<LE<i32>> for i32 {
    /// The number that the wrapper carries.
    fn from(data: LE<i32>) -> (r: i32) {
        data.0
    }
}

impl FromSpecImpl<LE<i32>> for i32 {
    open spec fn obeys_from_spec() -> bool {
        true
    }

    open spec fn from_spec(data: LE<i32>) -> i32 {
        data.0
    }
}

impl From<LE<i64>> for i64 {
    /// The number that the wrapper carries.
    fn from(data: LE<i64>) -> (r: i64) {
        data.0
    }
}

impl FromSpecImpl<LE<i64>> for i64 {
    open spec fn obeys_from_spec() -> bool {
        true
    }

    open spec fn from_spec(data: LE<i64>) -> i64 {
        data.0
    }
}

impl From<LE<i128>> for i128 {
    /// The number that the wrapper carries.
    fn from(data: LE<i128>) -> (r: i128) {
        data.0
    }
}

impl FromSpecImpl<LE<i128>> for i128 {
    open spec fn obeys_from_spec() -> bool {
        true
    }

    open spec fn from_spec(data: LE<i128>) -> i128 {
        data.0
    }
}

impl From<BE<u16>> for u16 {
    /// The number that the wrapper carries.
    fn from(data: BE<u16>) -> (r: u16) {
        data.0
    }
}

impl FromSpecImpl<BE<u16>> for u16 {
    open spec fn obeys_from_spec() -> bool {
        true
    }

    open spec fn from_spec(data: BE<u16>) -> u16 {
        data.0
    }
}

impl From<BE<u32>> for u32 {
    /// The number that the wrapper carries.
    fn from(data: BE<u32>) -> (r: u32) {
        data.0
    }
}

impl FromSpecImpl<BE<u32>> for u32 {
    open spec fn obeys_from_spec() -> bool {
        true
    }

    open spec fn from_spec(data: BE<u32>) -> u32 {
        data.0
    }
}

impl From<BE<u64>> for u64 {
    /// The number that the wrapper carries.
    fn from(data: BE<u64>) -> (r: u64) {
        data.0
    }
}

impl FromSpecImpl<BE<u64>> for u64 {
    open spec fn obeys_from_spec() -> bool {
        true
    }

    open spec fn from_spec(data: BE<u64>) -> u64 {
        data.0
    }
}

impl From<BE<u128>> for u128 {
    /// The number that the wrapper carries.
    fn from(data: BE<u128>) -> (r: u128) {
        data.0
    }
}

impl FromSpecImpl<BE<u128>> for u128 {
    open spec fn obeys_from_spec() -> bool {
        true
    }

    open spec fn from_spec(data: BE<u128>) -> u128 {
        data.0
    }
}

impl From<BE<i16>> for i16 {
    /// The number that the wrapper carries.
    fn from(data: BE<i16>) -> (r: i16) {
        data.0
    }
}

impl FromSpecImpl<BE<i16>> for i16 {
    open spec fn obeys_from_spec() -> bool {
        true
    }

    open spec fn from_spec(data: BE<i16>) -> i16 {
        data.0
    }
}

impl From<BE<i32>> for i32 {
    /// The number that the wrapper carries.
    fn from(data: BE<i32>) -> (r: i32) {
        data.0
    }
}

impl FromSpecImpl<BE<i32>> for i32 {
    open spec fn obeys_from_spec() -> bool {
        true
    }

    open spec fn from_spec(data: BE<i32>) -> i32 {
        data.0
    }
}

impl From<BE<i64>> for i64 {
    /// The number that the wrapper carries.
    fn from(data: BE<i64>) -> (r: i64) {
        data.0
    }
}

impl FromSpecImpl<BE<i64>> for i64 {
    open spec fn obeys_from_spec() -> bool {
        true
    }

    open spec fn from_spec(data: BE<i64>) -> i64 {
        data.0
    }
}

impl From<BE<i128>> for i128 {
    /// The number that the wrapper carries.
    fn from(data: BE<i128>) -> (r: i128) {
        data.0
    }
}

impl FromSpecImpl<BE<i128>> for i128 {
    open spec fn obeys_from_spec() -> bool {
        true
    }

    open spec fn from_spec(data: BE<i128>) -> i128 {
        data.0
    }
}

impl From<Var<u16>> for u16 {
    /// The number that the wrapper carries.
    fn from(data: Var<u16>) -> (r: u16) {
        data.0
    }
}

impl FromSpecImpl<Var<u16>> for u16 {
    open spec fn obeys_from_spec() -> bool {
        true
    }

    open spec fn from_spec(data: Var<u16>) -> u16 {
        data.0
    }
}

impl From<Var<u32>> for u32 {
    /// The number that the wrapper carries.
    fn from(data: Var<u32>) -> (r: u32) {
        data.0
    }
}

impl FromSpecImpl<Var<u32>> for u32 {
    open spec fn obeys_from_spec() -> bool {
        true
    }

    open spec fn from_spec(data: Var<u32>) -> u32 {
        data.0
    }
}

impl From<Var<u64>> for u64 {
    /// The number that the wrapper carries.
    fn from(data: Var<u64>) -> (r: u64) {
        data.0
    }
}

impl FromSpecImpl<Var<u64>> for u64 {
    open spec fn obeys_from_spec() -> bool {
        true
    }

    open spec fn from_spec(data: Var<u64>) -> u64 {
        data.0
    }
}

impl From<Var<u128>> for u128 {
    /// The number that the wrapper carries.
    fn from(data: Var<u128>) -> (r: u128) {
        data.0
    }
}

impl FromSpecImpl<Var<u128>> for u128 {
    open spec fn obeys_from_spec() -> bool {
        true
    }

    open spec fn from_spec(data: Var<u128>) -> u128 {
        data.0
    }
}

impl From<Var<i16>> for i16 {
    /// The number that the wrapper carries.
    fn from(data: Var<i16>) -> (r: i16) {
        data.0
    }
}

impl FromSpecImpl<Var<i16>> for i16 {
    open spec fn obeys_from_spec() -> bool {
        true
    }

    open spec fn from_spec(data: Var<i16>) -> i16 {
        data.0
    }
}

impl From<Var<i32>> for i32 {
    /// The number that the wrapper carries.
    fn from(data: Var<i32>) -> (r: i32) {
        data.0
    }
}

impl FromSpecImpl<Var<i32>> for i32 {
    open spec fn obeys_from_spec() -> bool {
        true
    }

    open spec fn from_spec(data: Var<i32>) -> i32 {
        data.0
    }
}

impl From<Var<i64>> for i64 {
    /// The number that the wrapper carries.
    fn from(data: Var<i64>) -> (r: i64) {
        data.0
    }
}

impl FromSpecImpl<Var<i64>> for i64 {
    open spec fn obeys_from_spec() -> bool {
        true
    }

    open spec fn from_spec(data: Var<i64>) -> i64 {
        data.0
    }
}

impl From<Var<i128>> for i128 {
    /// The number that the wrapper carries.
    fn from(data: Var<i128>) -> (r: i128) {
        data.0
    }
}

impl FromSpecImpl<Var<i128>> for i128 {
    open spec fn obeys_from_spec() -> bool {
        true
    }

    open spec fn from_spec(data: Var<i128>) -> i128 {
        data.0
    }
}

} // verus!
