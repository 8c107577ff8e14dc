//! Integer values as they travel on the wire, and the kinds of integer
//! encoding: a single byte, a fixed width in either byte order, or the
//! variable-length form.

use crate::error::{ErrorView, ProtoRwError};
use crate::stream::{get_u8, remaining, unread, write_all, written};
use crate::types::endian::{
    fixed_bytes, fixed_parse, fixed_to_vec, lemma_fixed_round_trip, lemma_le_value_bound,
    lemma_radix_pow_widths, lemma_twos_round_trip, read_fixed, twos_raw, twos_value, Endianness,
    Width,
};
use crate::types::var::{
    lemma_varint_bound_widths, lemma_varint_parse_bound, lemma_varint_round_trip,
    lemma_varint_truncated, lemma_zigzag_bijection, lemma_zigzag_range, read_varint, unzigzag,
    varint_bytes, varint_parse, varint_to_vec, zigzag,
};
use bytes::{Bytes, BytesMut};
use vstd::prelude::*;

verus! {

/// An integer of up to 128 bits, unsigned or signed.
#[derive(Clone, Copy, Debug, PartialEq, Eq, Structural)]
pub enum Integer {
    Unsigned(u128),
    Signed(i128),
}

impl View for Integer {
    type V = int;

    /// The number, whatever the variant that carries it.
    open spec fn view(&self) -> int {
        match self {
            Integer::Unsigned(n) => *n as int,
            Integer::Signed(n) => *n as int,
        }
    }
}

/// The way an integer is laid out on the wire.
#[derive(Clone, Copy, Debug, PartialEq, Eq, Structural)]
pub enum WireIntKind {
    /// One unsigned byte, as it is.
    Byte,
    /// A fixed number of bytes in a given order; signed numbers in two's
    /// complement.
    FixedWidth { endianness: Endianness, width: Width, signed: bool },
    /// The variable-length form; signed numbers by their zig-zag code.
    VarInt { width: Width, signed: bool },
}

impl Width {
    /// Half of [`Width::modulus`]: one more than the largest signed integer
    /// of this width.
    pub fn half(self) -> (h: u128)
        ensures
            h == self.modulus() / 2,
    {
        match self {
            Width::W16 => 0x8000,
            Width::W32 => 0x8000_0000,
            Width::W64 => 0x8000_0000_0000_0000,
            Width::W128 => 0x8000_0000_0000_0000_0000_0000_0000_0000,
        }
    }

    /// The largest unsigned integer of this width.
    pub fn max_unsigned(self) -> (m: u128)
        ensures
            m == self.modulus() - 1,
    {
        match self {
            Width::W16 => 0xFFFF,
            Width::W32 => 0xFFFF_FFFF,
            Width::W64 => 0xFFFF_FFFF_FFFF_FFFF,
            Width::W128 => 0xFFFF_FFFF_FFFF_FFFF_FFFF_FFFF_FFFF_FFFF,
        }
    }
}

impl WireIntKind {
    /// Whether the kind carries signed numbers.
    pub open spec fn signed(self) -> bool {
        match self {
            WireIntKind::Byte => false,
            WireIntKind::FixedWidth { signed, .. } => signed,
            WireIntKind::VarInt { signed, .. } => signed,
        }
    }

    /// Two to the power of the number of bits of the kind.
    pub open spec fn modulus(self) -> int {
        match self {
            WireIntKind::Byte => 0x100,
            WireIntKind::FixedWidth { width, .. } => width.modulus(),
            WireIntKind::VarInt { width, .. } => width.modulus(),
        }
    }

    /// Whether `value` is within the range of the kind.
    pub open spec fn fits(self, value: int) -> bool {
        if self.signed() {
            -(self.modulus() / 2) <= value < self.modulus() / 2
        } else {
            0 <= value < self.modulus()
        }
    }

    /// The bytes that carry `value`, which is meant to fit the kind.
    pub open spec fn wire(self, value: int) -> Seq<u8> {
        match self {
            WireIntKind::Byte => seq![value as u8],
            WireIntKind::FixedWidth { endianness, width, signed } => fixed_bytes(
                endianness,
                width.bytes(),
                if signed {
                    twos_raw(value, width.modulus())
                } else {
                    value as nat
                },
            ),
            WireIntKind::VarInt { width, signed } => varint_bytes(
                if signed {
                    zigzag(value)
                } else {
                    value as nat
                },
            ),
        }
    }

    /// What reading an integer of this kind makes of a stream: the number
    /// or the error, and the stream after the bytes that were looked at.
    pub open spec fn parse(self, stream: Seq<u8>) -> (Result<int, ErrorView>, Seq<u8>) {
        match self {
            WireIntKind::Byte => if stream.len() == 0 {
                (Err(ErrorView::TruncatedInput), stream)
            } else {
                (Ok(stream[0] as int), stream.skip(1))
            },
            WireIntKind::FixedWidth { endianness, width, signed } => {
                let (raw, left) = fixed_parse(endianness, width.bytes(), stream);
                match raw {
                    Ok(raw) => (
                        Ok(
                            if signed {
                                twos_value(raw, width.modulus())
                            } else {
                                raw as int
                            },
                        ),
                        left,
                    ),
                    Err(e) => (Err(e), left),
                }
            },
            WireIntKind::VarInt { width, signed } => {
                let (code, left) = varint_parse(
                    stream,
                    width.varint_budget(),
                    width.varint_top(),
                );
                match code {
                    Ok(code) => (
                        Ok(
                            if signed {
                                unzigzag(code)
                            } else {
                                code as int
                            },
                        ),
                        left,
                    ),
                    Err(e) => (Err(e), left),
                }
            },
        }
    }

    /// Reading back what was written: a number that fits the kind is found
    /// again, with whatever followed its bytes left over.
    pub proof fn lemma_round_trip(self, value: int, tail: Seq<u8>)
        requires
            self.fits(value),
        ensures
            self.parse(self.wire(value) + tail) == (Ok::<int, ErrorView>(value), tail),
    {
        let stream = self.wire(value) + tail;
        match self {
            WireIntKind::Byte => {
                assert(stream.skip(1) =~= tail);
            },
            WireIntKind::FixedWidth { endianness, width, signed } => {
                let raw = if signed {
                    twos_raw(value, width.modulus())
                } else {
                    value as nat
                };
                lemma_radix_pow_widths();
                if signed {
                    lemma_twos_round_trip(value, width.modulus());
                }
                lemma_fixed_round_trip(endianness, width.bytes(), raw);
                assert(stream.subrange(0, width.bytes() as int) =~= self.wire(value));
                assert(stream.skip(width.bytes() as int) =~= tail);
            },
            WireIntKind::VarInt { width, signed } => {
                let code = if signed {
                    zigzag(value)
                } else {
                    value as nat
                };
                lemma_zigzag_range(value, width);
                lemma_zigzag_bijection(value, 0);
                lemma_varint_bound_widths(width);
                lemma_varint_round_trip(code, tail, width.varint_budget(), width.varint_top());
            },
        }
    }

    /// A stream that ends within the bytes of a number is reported as
    /// truncated.
    pub proof fn lemma_truncated(self, value: int, cut: int)
        requires
            self.fits(value),
            0 <= cut < self.wire(value).len(),
        ensures
            self.parse(self.wire(value).subrange(0, cut)).0 == Err::<int, ErrorView>(
                ErrorView::TruncatedInput,
            ),
    {
        match self {
            WireIntKind::Byte => {},
            WireIntKind::FixedWidth { endianness, width, signed } => {
                let raw = if signed {
                    twos_raw(value, width.modulus())
                } else {
                    value as nat
                };
                lemma_radix_pow_widths();
                if signed {
                    lemma_twos_round_trip(value, width.modulus());
                }
                lemma_fixed_round_trip(endianness, width.bytes(), raw);
            },
            WireIntKind::VarInt { width, signed } => {
                let code = if signed {
                    zigzag(value)
                } else {
                    value as nat
                };
                lemma_zigzag_range(value, width);
                lemma_varint_bound_widths(width);
                lemma_varint_truncated(code, cut, width.varint_budget(), width.varint_top());
            },
        }
    }

    /// Whatever is read fits the kind, and reading takes at least one byte.
    pub proof fn lemma_parse_fits(self, stream: Seq<u8>)
        ensures
            self.parse(stream).0 matches Ok(value) ==> self.fits(value) && self.parse(
                stream,
            ).1.len() < stream.len(),
    {
        match self {
            WireIntKind::Byte => {},
            WireIntKind::FixedWidth { endianness, width, signed } => {
                if stream.len() >= width.bytes() {
                    let taken = stream.subrange(0, width.bytes() as int);
                    lemma_radix_pow_widths();
                    lemma_le_value_bound(taken);
                    lemma_le_value_bound(taken.reverse());
                }
            },
            WireIntKind::VarInt { width, signed } => {
                lemma_varint_bound_widths(width);
                lemma_varint_parse_bound(stream, width.varint_budget(), width.varint_top());
                if let Ok(code) = varint_parse(
                    stream,
                    width.varint_budget(),
                    width.varint_top(),
                ).0 {
                    lemma_zigzag_range(unzigzag(code), width);
                    lemma_zigzag_bijection(0, code);
                }
            },
        }
    }

    /// Whether `value` is within the range of the kind.
    pub fn can_hold(self, value: Integer) -> (b: bool)
        ensures
            b == self.fits(value@),
    {
        match self {
            WireIntKind::Byte => match value {
                Integer::Unsigned(n) => n < 0x100,
                Integer::Signed(n) => 0 <= n && n < 0x100,
            },
            WireIntKind::FixedWidth { width, signed, .. } => width_can_hold(width, signed, value),
            WireIntKind::VarInt { width, signed } => width_can_hold(width, signed, value),
        }
    }

    /// The bytes that carry `value`.
    pub fn to_vec(self, value: Integer) -> (out: Vec<u8>)
        requires
            self.fits(value@),
        ensures
            out@ == self.wire(value@),
    {
        match self {
            WireIntKind::Byte => {
                let b: u8 = match value {
                    Integer::Unsigned(n) => n as u8,
                    Integer::Signed(n) => n as u8,
                };
                let mut out: Vec<u8> = Vec::new();
                out.push(b);
                assert(out@ =~= seq![value@ as u8]);
                out
            },
            WireIntKind::FixedWidth { endianness, width, signed } => {
                let raw = if signed {
                    signed_to_raw(as_signed(value), width)
                } else {
                    as_unsigned(value)
                };
                fixed_to_vec(endianness, width.byte_count(), raw)
            },
            WireIntKind::VarInt { width, signed } => {
                let code = if signed {
                    zigzag_code(as_signed(value))
                } else {
                    as_unsigned(value)
                };
                varint_to_vec(code)
            },
        }
    }

    /// Reads one integer of this kind from `buf`. The result is `Signed`
    /// for a signed kind and `Unsigned` for an unsigned one.
    pub fn read(self, buf: &mut Bytes) -> (r: Result<Integer, ProtoRwError>)
        ensures
            unread(*final(buf)) == self.parse(unread(*old(buf))).1,
            match self.parse(unread(*old(buf))).0 {
                Ok(value) => r matches Ok(x) && x@ == value && (x is Signed <==> self.signed()),
                Err(e) => r matches Err(x) && x@ == e,
            },
    {
        proof {
            self.lemma_parse_fits(unread(*buf));
        }
        match self {
            WireIntKind::Byte => {
                if remaining(buf) < 1 {
                    return Err(ProtoRwError::TruncatedInput);
                }
                let b = get_u8(buf);
                Ok(Integer::Unsigned(b as u128))
            },
            WireIntKind::FixedWidth { endianness, width, signed } => {
                match read_fixed(buf, endianness, width.byte_count()) {
                    Ok(raw) => if signed {
                        proof {
                            let taken = unread(*old(buf)).subrange(0, width.bytes() as int);
                            lemma_radix_pow_widths();
                            lemma_le_value_bound(taken);
                            lemma_le_value_bound(taken.reverse());
                        }
                        Ok(Integer::Signed(raw_to_signed(raw, width)))
                    } else {
                        Ok(Integer::Unsigned(raw))
                    },
                    Err(e) => Err(e),
                }
            },
            WireIntKind::VarInt { width, signed } => {
                proof {
                    lemma_varint_bound_widths(width);
                }
                match read_varint(buf, width.varint_max_bytes(), width.varint_last_bound()) {
                    Ok(code) => if signed {
                        Ok(Integer::Signed(unzigzag_code(code)))
                    } else {
                        Ok(Integer::Unsigned(code))
                    },
                    Err(e) => Err(e),
                }
            },
        }
    }
}

fn width_can_hold(width: Width, signed: bool, value: Integer) -> (b: bool)
    ensures
        b == if signed {
            -(width.modulus() / 2) <= value@ < width.modulus() / 2
        } else {
            0 <= value@ < width.modulus()
        },
{
    let half = width.half();
    let top = width.max_unsigned();
    match value {
        Integer::Unsigned(n) => if signed {
            n < half
        } else {
            n <= top
        },
        Integer::Signed(n) => if n >= 0 {
            if signed {
                (n as u128) < half
            } else {
                (n as u128) <= top
            }
        } else {
            // -n - 1 is the distance of n below -1
            signed && ((-(n + 1)) as u128) < half
        },
    }
}

/// The number as an unsigned machine integer.
fn as_unsigned(value: Integer) -> (n: u128)
    requires
        0 <= value@,
    ensures
        n == value@,
{
    match value {
        Integer::Unsigned(n) => n,
        Integer::Signed(n) => n as u128,
    }
}

/// The number as a signed machine integer.
fn as_signed(value: Integer) -> (n: i128)
    requires
        value@ <= i128::MAX,
    ensures
        n == value@,
{
    match value {
        Integer::Unsigned(n) => n as i128,
        Integer::Signed(n) => n,
    }
}

/// The two's complement of `value` at the given width.
fn signed_to_raw(value: i128, width: Width) -> (raw: u128)
    requires
        -(width.modulus() / 2) <= value < width.modulus() / 2,
    ensures
        raw == twos_raw(value as int, width.modulus()),
{
    if value >= 0 {
        value as u128
    } else {
        // value + modulus, written as (value + half) + half
        let half = width.half();
        match width {
            Width::W128 => ((value - i128::MIN) as u128) + half,
            _ => ((value + half as i128) as u128) + half,
        }
    }
}

/// The signed number that `raw` stands for at the given width.
fn raw_to_signed(raw: u128, width: Width) -> (value: i128)
    requires
        raw < width.modulus(),
    ensures
        value == twos_value(raw as nat, width.modulus()),
{
    let half = width.half();
    if raw >= half {
        // raw - modulus, written as (raw - half) - half
        match width {
            Width::W128 => ((raw - half) as i128) + i128::MIN,
            _ => ((raw - half) as i128) - (half as i128),
        }
    } else {
        raw as i128
    }
}

/// The zig-zag code of `value`.
fn zigzag_code(value: i128) -> (code: u128)
    ensures
        code == zigzag(value as int),
{
    if value >= 0 {
        (value as u128) * 2
    } else {
        ((-(value + 1)) as u128) * 2 + 1
    }
}

/// The signed number with the zig-zag code `code`.
fn unzigzag_code(code: u128) -> (value: i128)
    ensures
        value == unzigzag(code as nat),
{
    if code % 2 == 0 {
        (code / 2) as i128
    } else {
        -((code / 2) as i128) - 1
    }
}

impl WireIntKind {
    /// Reads one integer of this unsigned kind from `buf`.
    pub fn read_unsigned(self, buf: &mut Bytes) -> (r: Result<u128, ProtoRwError>)
        requires
            !self.signed(),
        ensures
            unread(*final(buf)) == self.parse(unread(*old(buf))).1,
            match self.parse(unread(*old(buf))).0 {
                Ok(value) => r == Ok::<u128, ProtoRwError>(value as u128) && 0 <= value
                    < self.modulus(),
                Err(e) => r matches Err(x) && x@ == e,
            },
    {
        proof {
            self.lemma_parse_fits(unread(*buf));
        }
        match self.read(buf) {
            Ok(value) => Ok(as_unsigned(value)),
            Err(e) => Err(e),
        }
    }

    /// Reads one integer of this signed kind from `buf`.
    pub fn read_signed(self, buf: &mut Bytes) -> (r: Result<i128, ProtoRwError>)
        requires
            self.signed(),
        ensures
            unread(*final(buf)) == self.parse(unread(*old(buf))).1,
            match self.parse(unread(*old(buf))).0 {
                Ok(value) => r == Ok::<i128, ProtoRwError>(value as i128) && -(self.modulus() / 2)
                    <= value < self.modulus() / 2,
                Err(e) => r matches Err(x) && x@ == e,
            },
    {
        proof {
            self.lemma_parse_fits(unread(*buf));
        }
        match self.read(buf) {
            Ok(value) => Ok(as_signed(value)),
            Err(e) => Err(e),
        }
    }
}

/// Appends to `buf` the bytes that carry `value` in the given kind.
pub fn write_integer(kind: WireIntKind, value: Integer, buf: &mut BytesMut)
    requires
        kind.fits(value@),
    ensures
        written(*final(buf)) == written(*old(buf)) + kind.wire(value@),
{
    let bytes = kind.to_vec(value);
    write_all(buf, &bytes);
}

} // verus!
