//! The byte streams that values are read from and written to.
//!
//! Reading is done from a `bytes::Bytes`, writing into a `bytes::BytesMut`.
//! Verus does not look inside either type: what they hold is named by
//! [`unread`] and [`written`], and the few methods the codecs call are
//! wrapped here with contracts over those two names.

use crate::error::{ErrorView, ProtoRwError};
use bytes::{Buf, BufMut, Bytes, BytesMut};
use vstd::prelude::*;

verus! {

/// `bytes::Bytes`, a buffer that is read from its front. Nothing is
/// claimed of what is inside it: see [`unread`].
#[verifier::external_type_specification]
#[verifier::external_body]
pub struct ExBytes(bytes::Bytes);

/// `bytes::BytesMut`, a buffer that grows at its end. Nothing is claimed
/// of what is inside it: see [`written`].
#[verifier::external_type_specification]
#[verifier::external_body]
pub struct ExBytesMut(bytes::BytesMut);

/// The bytes of `buf` that have not been consumed yet, next byte first.
pub uninterp spec fn unread(buf: Bytes) -> Seq<u8>;

/// The bytes that `buf` holds, in the order they were appended.
pub uninterp spec fn written(buf: BytesMut) -> Seq<u8>;

/// `Buf::remaining` on a `Bytes`: the number of bytes not yet consumed.
#[verifier::external_body]
pub(crate) fn remaining(buf: &Bytes) -> (n: usize)
    ensures
        n == unread(*buf).len(),
{
    buf.remaining()
}

/// `Buf::get_u8` on a `Bytes`: hands out the next byte and moves past it.
/// The call panics on an empty buffer, which the precondition rules out.
#[verifier::external_body]
pub(crate) fn get_u8(buf: &mut Bytes) -> (b: u8)
    requires
        unread(*old(buf)).len() >= 1,
    ensures
        b == unread(*old(buf))[0],
        unread(*final(buf)) == unread(*old(buf)).skip(1),
{
    buf.get_u8()
}

/// `Buf::copy_to_slice` on a `Bytes`, into a fresh vector of `count` bytes:
/// hands out the next `count` bytes in order and moves past them. The call
/// panics when fewer bytes remain, which the precondition rules out.
#[verifier::external_body]
pub(crate) fn copy_to_vec(buf: &mut Bytes, count: usize) -> (data: Vec<u8>)
    requires
        count <= unread(*old(buf)).len(),
    ensures
        data@ == unread(*old(buf)).subrange(0, count as int),
        unread(*final(buf)) == unread(*old(buf)).skip(count as int),
{
    let mut data = vec![0; count];
    buf.copy_to_slice(&mut data);
    data
}

/// `BufMut::put_u8` on a `BytesMut`: appends one byte. The buffer grows as
/// needed, so there is always room.
#[verifier::external_body]
pub(crate) fn put_u8(buf: &mut BytesMut, b: u8)
    ensures
        written(*final(buf)) == written(*old(buf)).push(b),
{
    buf.put_u8(b)
}

/// `BytesMut::extend_from_slice`: appends the bytes of `data` in order,
/// growing the buffer as needed.
#[verifier::external_body]
pub(crate) fn extend_from_slice(buf: &mut BytesMut, data: &[u8])
    ensures
        written(*final(buf)) == written(*old(buf)) + data@,
{
    buf.extend_from_slice(data)
}

/// What taking `count` bytes makes of a stream: the bytes and the stream
/// after them, or `TruncatedInput` and the stream as it was when fewer are
/// left.
pub open spec fn taken(stream: Seq<u8>, count: nat) -> (Result<Seq<u8>, ErrorView>, Seq<u8>) {
    if stream.len() < count {
        (Err(ErrorView::TruncatedInput), stream)
    } else {
        (Ok(stream.subrange(0, count as int)), stream.skip(count as int))
    }
}

/// Takes exactly `count` bytes from `buf`. A stream that is too short is
/// left as it was.
pub fn read_exact(buf: &mut Bytes, count: usize) -> (r: Result<Vec<u8>, ProtoRwError>)
    ensures
        unread(*final(buf)) == taken(unread(*old(buf)), count as nat).1,
        match taken(unread(*old(buf)), count as nat).0 {
            Ok(bytes) => r matches Ok(data) && data@ == bytes,
            Err(e) => r matches Err(x) && x@ == e,
        },
{
    if remaining(buf) < count {
        return Err(ProtoRwError::TruncatedInput);
    }
    Ok(copy_to_vec(buf, count))
}

/// Appends all of `data` to `buf`.
pub fn write_all(buf: &mut BytesMut, data: &Vec<u8>)
    ensures
        written(*final(buf)) == written(*old(buf)) + data@,
{
    extend_from_slice(buf, data.as_slice());
}

} // verus!
