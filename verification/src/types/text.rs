//! Strings: the number of bytes as an unsigned 32-bit variable-length
//! integer, then the bytes of the text in UTF-8.

use crate::error::{ErrorView, ProtoRwError};
use crate::stream::{read_exact, unread, write_all, written};
use crate::types::endian::Width;
use crate::types::integer::{Integer, WireIntKind};
use crate::ProtoRw;
use bytes::{Bytes, BytesMut};
use std::string::FromUtf8Error;
use vstd::prelude::*;
use vstd::utf8::{decode_utf8, encode_utf8, valid_utf8};

verus! {

/// `std::string::FromUtf8Error`, the error of [`String::from_utf8`].
/// Nothing is claimed of what is inside it.
#[verifier::external_type_specification]
#[verifier::external_body]
pub struct ExFromUtf8Error(std::string::FromUtf8Error);

/// `String::from_utf8`: turns bytes into the text they spell. It succeeds
/// exactly on well-formed UTF-8, and the text is then what the bytes
/// decode to.
#[verifier::external_body]
fn string_from_utf8(data: Vec<u8>) -> (r: Result<String, FromUtf8Error>)
    ensures
        r is Ok <==> valid_utf8(data@),
        r matches Ok(text) ==> text@ == decode_utf8(data@),
{
    String::from_utf8(data)
}

/// The integer kind of the length that precedes a string.
pub open spec fn text_length_kind() -> WireIntKind {
    WireIntKind::VarInt { width: Width::W32, signed: false }
}

/// The bytes that carry a text, or `LengthOverflow` when its UTF-8 form is
/// longer than an unsigned 32-bit integer can say.
pub open spec fn text_wire(text: Seq<char>) -> Result<Seq<u8>, ErrorView> {
    let body = encode_utf8(text);
    if body.len() >= Width::W32.modulus() {
        Err(ErrorView::LengthOverflow)
    } else {
        Ok(text_length_kind().wire(body.len() as int) + body)
    }
}

/// What reading a string makes of a stream: the text; the error of the
/// length; `TruncatedInput` when fewer bytes are left than the length says;
/// or `InvalidUtf8` when those bytes are not UTF-8; and the stream after
/// what was taken, which is the length alone where the bytes of the text
/// are not all there.
pub open spec fn text_parse(stream: Seq<u8>) -> (Result<Seq<char>, ErrorView>, Seq<u8>) {
    let (length, rest) = text_length_kind().parse(stream);
    match length {
        Err(e) => (Err(e), rest),
        Ok(length) => if rest.len() < length {
            (Err(ErrorView::TruncatedInput), rest)
        } else if !valid_utf8(rest.subrange(0, length)) {
            (Err(ErrorView::InvalidUtf8), rest.skip(length))
        } else {
            (Ok(decode_utf8(rest.subrange(0, length))), rest.skip(length))
        },
    }
}

/// Reading back what was written gives the text again, with whatever
/// followed its bytes left over.
pub proof fn lemma_text_round_trip(text: Seq<char>, tail: Seq<u8>)
    requires
        text_wire(text) is Ok,
    ensures
        text_parse(text_wire(text)->Ok_0 + tail) == (Ok::<Seq<char>, ErrorView>(text), tail),
{
    let body = encode_utf8(text);
    let kind = text_length_kind();
    let head = kind.wire(body.len() as int);
    kind.lemma_round_trip(body.len() as int, body + tail);
    assert(head + body + tail =~= head + (body + tail));
    assert((body + tail).subrange(0, body.len() as int) =~= body);
    assert((body + tail).skip(body.len() as int) =~= tail);
    vstd::utf8::encode_utf8_valid_utf8(text);
    vstd::utf8::encode_utf8_decode_utf8(text);
}

/// A stream that ends within the bytes of a string is reported as
/// truncated.
pub proof fn lemma_text_truncated(text: Seq<char>, cut: int)
    requires
        text_wire(text) is Ok,
        0 <= cut < text_wire(text)->Ok_0.len(),
    ensures
        text_parse(text_wire(text)->Ok_0.subrange(0, cut)).0 == Err::<Seq<char>, ErrorView>(
            ErrorView::TruncatedInput,
        ),
{
    let body = encode_utf8(text);
    let kind = text_length_kind();
    let head = kind.wire(body.len() as int);
    let all = head + body;
    if cut < head.len() {
        kind.lemma_truncated(body.len() as int, cut);
        assert(all.subrange(0, cut) =~= head.subrange(0, cut));
    } else {
        let part = body.subrange(0, cut - head.len());
        kind.lemma_round_trip(body.len() as int, part);
        assert(all.subrange(0, cut) =~= head + part);
    }
}

/// Appends the bytes of `data` to `out`.
pub fn append_slice(out: &mut Vec<u8>, data: &[u8])
    ensures
        final(out)@ == old(out)@ + data@,
{
    let mut i: usize = 0;
    while i < data.len()
        invariant
            i <= data.len(),
            out@ == old(out)@ + data@.subrange(0, i as int),
        decreases data.len() - i,
    {
        out.push(data[i]);
        assert(data@.subrange(0, i + 1) =~= data@.subrange(0, i as int).push(data@[i as int]));
        i += 1;
    }
    assert(data@.subrange(0, i as int) =~= data@);
}

/// The bytes that carry `text`.
pub fn text_to_vec(text: &str) -> (r: Result<Vec<u8>, ProtoRwError>)
    ensures
        match text_wire(text@) {
            Ok(bytes) => r matches Ok(out) && out@ == bytes,
            Err(e) => r matches Err(x) && x@ == e,
        },
{
    let body = text.as_bytes();
    if body.len() > 0xFFFF_FFFF {
        return Err(ProtoRwError::LengthOverflow);
    }
    let kind = WireIntKind::VarInt { width: Width::W32, signed: false };
    let mut out = kind.to_vec(Integer::Unsigned(body.len() as u128));
    append_slice(&mut out, body);
    Ok(out)
}

/// Reads one string from `buf`.
pub fn read_text(buf: &mut Bytes) -> (r: Result<String, ProtoRwError>)
    ensures
        unread(*final(buf)) == text_parse(unread(*old(buf))).1,
        match text_parse(unread(*old(buf))).0 {
            Ok(text) => r matches Ok(s) && s@ == text,
            Err(e) => r matches Err(x) && x@ == e,
        },
{
    let kind = WireIntKind::VarInt { width: Width::W32, signed: false };
    let length = match kind.read(buf) {
        Ok(Integer::Unsigned(n)) => n,
        Ok(Integer::Signed(_)) => {
            return Err(ProtoRwError::LengthOverflow);
        },
        Err(e) => {
            return Err(e);
        },
    };
    proof {
        kind.lemma_parse_fits(unread(*old(buf)));
    }
    let data = match read_exact(buf, length as usize) {
        Ok(data) => data,
        Err(e) => {
            return Err(e);
        },
    };
    match string_from_utf8(data) {
        Ok(text) => Ok(text),
        Err(e) => Err(ProtoRwError::from(e)),
    }
}

impl ProtoRw for String {
    fn read_proto(buf: &mut Bytes) -> (r: Result<Self, ProtoRwError>)
        ensures
            unread(*final(buf)) == text_parse(unread(*old(buf))).1,
            match text_parse(unread(*old(buf))).0 {
                Ok(text) => r matches Ok(s) && s@ == text,
                Err(e) => r matches Err(x) && x@ == e,
            },
    {
        read_text(buf)
    }

    /// On an error `buf` is left as it was.
    fn write_proto(&self, buf: &mut BytesMut) -> (r: Result<(), ProtoRwError>)
        ensures
            match text_wire(self@) {
                Ok(bytes) => r is Ok && written(*final(buf)) == written(*old(buf)) + bytes,
                Err(e) => r matches Err(x) && x@ == e && written(*final(buf)) == written(
                    *old(buf),
                ),
            },
    {
        match text_to_vec(self.as_str()) {
            Ok(bytes) => {
                write_all(buf, &bytes);
                Ok(())
            },
            Err(e) => Err(e),
        }
    }
}

} // verus!
