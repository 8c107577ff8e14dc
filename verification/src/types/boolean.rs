//! Booleans: one byte, 0 for false and 1 for true.

use crate::error::{ErrorView, ProtoRwError};
use crate::stream::{get_u8, put_u8, remaining, unread, written};
use crate::ProtoRw;
use bytes::{Bytes, BytesMut};
use vstd::prelude::*;

verus! {

/// The byte that carries a boolean.
pub open spec fn bool_wire(value: bool) -> Seq<u8> {
    seq![if value { 1u8 } else { 0u8 }]
}

/// What reading a boolean makes of a stream: the value, `TruncatedInput`
/// on an empty stream, or `InvalidBoolValue` on a byte other than 0 and 1;
/// and the stream after the byte that was looked at.
pub open spec fn bool_parse(stream: Seq<u8>) -> (Result<bool, ErrorView>, Seq<u8>) {
    if stream.len() == 0 {
        (Err(ErrorView::TruncatedInput), stream)
    } else if stream[0] == 0 {
        (Ok(false), stream.skip(1))
    } else if stream[0] == 1 {
        (Ok(true), stream.skip(1))
    } else {
        (Err(ErrorView::InvalidBoolValue(stream[0])), stream.skip(1))
    }
}

/// Reading back what was written gives the boolean again.
pub proof fn lemma_bool_round_trip(value: bool, tail: Seq<u8>)
    ensures
        bool_parse(bool_wire(value) + tail) == (Ok::<bool, ErrorView>(value), tail),
{
    assert((bool_wire(value) + tail).skip(1) =~= tail);
}

/// The byte that carries `value`.
pub fn bool_to_byte(value: bool) -> (b: u8)
    ensures
        seq![b] == bool_wire(value),
{
    if value {
        1
    } else {
        0
    }
}

/// Reads one boolean from `buf`.
pub fn read_bool(buf: &mut Bytes) -> (r: Result<bool, ProtoRwError>)
    ensures
        unread(*final(buf)) == bool_parse(unread(*old(buf))).1,
        match bool_parse(unread(*old(buf))).0 {
            Ok(value) => r == Ok::<bool, ProtoRwError>(value),
            Err(e) => r matches Err(x) && x@ == e,
        },
{
    if remaining(buf) < 1 {
        return Err(ProtoRwError::TruncatedInput);
    }
    let value = get_u8(buf);
    if value == 0 {
        Ok(false)
    } else if value == 1 {
        Ok(true)
    } else {
        Err(ProtoRwError::InvalidBoolValue(value))
    }
}

impl ProtoRw for bool {
    fn read_proto(buf: &mut Bytes) -> (r: Result<Self, ProtoRwError>)
        ensures
            unread(*final(buf)) == bool_parse(unread(*old(buf))).1,
            match bool_parse(unread(*old(buf))).0 {
                Ok(value) => r == Ok::<bool, ProtoRwError>(value),
                Err(e) => r matches Err(x) && x@ == e,
            },
    {
        read_bool(buf)
    }

    fn write_proto(&self, buf: &mut BytesMut) -> (r: Result<(), ProtoRwError>)
        ensures
            r is Ok,
            written(*final(buf)) == written(*old(buf)) + bool_wire(*self),
    {
        let value = bool_to_byte(*self);
        put_u8(buf, value);
        assert(written(*buf) =~= written(*old(buf)) + seq![value]);
        Ok(())
    }
}

} // verus!
