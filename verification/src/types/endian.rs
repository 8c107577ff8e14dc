//! Fixed-width integers in big-endian and little-endian byte order.

use crate::error::{ErrorView, ProtoRwError};
use crate::stream::{get_u8, put_u8, read_exact, remaining, unread, written};
use crate::types::integer::{write_integer, Integer, WireIntKind};
use crate::ProtoRw;
use bytes::{Bytes, BytesMut};
use vstd::prelude::*;

verus! {

/// An integer carried with its least significant byte first.
#[derive(Debug, Clone, Copy, PartialEq, Eq, PartialOrd, Ord, Hash)]
pub struct LE<T>(pub T);

/// An integer carried with its most significant byte first.
#[derive(Debug, Clone, Copy, PartialEq, Eq, PartialOrd, Ord, Hash)]
pub struct BE<T>(pub T);

/// The order in which the bytes of a fixed-width integer are laid out.
#[derive(Clone, Copy, Debug, PartialEq, Eq, Structural)]
pub enum Endianness {
    Big,
    Little,
}

/// The width of a multi-byte integer.
#[derive(Clone, Copy, Debug, PartialEq, Eq, Structural)]
pub enum Width {
    W16,
    W32,
    W64,
    W128,
}

impl Width {
    /// The number of bytes of an integer of this width.
    pub open spec fn bytes(self) -> nat {
        match self {
            Width::W16 => 2,
            Width::W32 => 4,
            Width::W64 => 8,
            Width::W128 => 16,
        }
    }

    /// Two to the power of the number of bits: one more than the largest
    /// unsigned integer of this width.
    pub open spec fn modulus(self) -> int {
        match self {
            Width::W16 => 0x1_0000,
            Width::W32 => 0x1_0000_0000,
            Width::W64 => 0x1_0000_0000_0000_0000,
            Width::W128 => 0x1_0000_0000_0000_0000_0000_0000_0000_0000int,
        }
    }

    /// The number of bytes of an integer of this width.
    pub fn byte_count(self) -> (n: usize)
        ensures
            n == self.bytes(),
    {
        match self {
            Width::W16 => 2,
            Width::W32 => 4,
            Width::W64 => 8,
            Width::W128 => 16,
        }
    }
}

/// 256 to the power of `n`.
pub open spec fn radix_pow(n: nat) -> nat
    decreases n,
{
    if n == 0 {
        1
    } else {
        256 * radix_pow((n - 1) as nat)
    }
}

/// The `count` low bytes of `value`, least significant first.
pub open spec fn le_bytes(value: nat, count: nat) -> Seq<u8>
    decreases count,
{
    if count == 0 {
        Seq::empty()
    } else {
        seq![(value % 256) as u8] + le_bytes(value / 256, (count - 1) as nat)
    }
}

/// The number whose bytes, least significant first, are `bytes`.
pub open spec fn le_value(bytes: Seq<u8>) -> nat
    decreases bytes.len(),
{
    if bytes.len() == 0 {
        0
    } else {
        bytes[0] as nat + 256 * le_value(bytes.skip(1))
    }
}

/// The `count` low bytes of `value` in the given byte order.
pub open spec fn fixed_bytes(order: Endianness, count: nat, value: nat) -> Seq<u8> {
    match order {
        Endianness::Little => le_bytes(value, count),
        Endianness::Big => le_bytes(value, count).reverse(),
    }
}

/// The number that `bytes` spell in the given byte order.
pub open spec fn fixed_value(order: Endianness, bytes: Seq<u8>) -> nat {
    match order {
        Endianness::Little => le_value(bytes),
        Endianness::Big => le_value(bytes.reverse()),
    }
}

/// The unsigned number that stands for `value` in two's complement.
pub open spec fn twos_raw(value: int, modulus: int) -> nat {
    if value < 0 {
        (value + modulus) as nat
    } else {
        value as nat
    }
}

/// The signed number that `raw` stands for in two's complement.
pub open spec fn twos_value(raw: nat, modulus: int) -> int {
    if 2 * raw >= modulus {
        raw - modulus
    } else {
        raw as int
    }
}

pub proof fn lemma_le_bytes_len(value: nat, count: nat)
    ensures
        le_bytes(value, count).len() == count,
    decreases count,
{
    if count > 0 {
        lemma_le_bytes_len(value / 256, (count - 1) as nat);
    }
}

/// Laying a number out in `count` bytes and reading it back gives the
/// number again, provided it is below 256 to the power of `count`.
pub proof fn lemma_le_round_trip(value: nat, count: nat)
    requires
        value < radix_pow(count),
    ensures
        le_value(le_bytes(value, count)) == value,
    decreases count,
{
    if count > 0 {
        let rest = le_bytes(value / 256, (count - 1) as nat);
        lemma_le_round_trip(value / 256, (count - 1) as nat);
        lemma_le_bytes_len(value / 256, (count - 1) as nat);
        assert(le_bytes(value, count).skip(1) =~= rest);
    }
}

/// What `count` bytes spell is below 256 to the power of `count`.
pub proof fn lemma_le_value_bound(bytes: Seq<u8>)
    ensures
        le_value(bytes) < radix_pow(bytes.len()),
    decreases bytes.len(),
{
    if bytes.len() > 0 {
        lemma_le_value_bound(bytes.skip(1));
    }
}

/// The powers of 256 at the four widths.
pub proof fn lemma_radix_pow_widths()
    ensures
        radix_pow(1) == 0x100,
        radix_pow(2) == Width::W16.modulus(),
        radix_pow(4) == Width::W32.modulus(),
        radix_pow(8) == Width::W64.modulus(),
        radix_pow(16) == Width::W128.modulus(),
{
    reveal_with_fuel(radix_pow, 17);
}

pub proof fn lemma_radix_pow_monotonic(a: nat, b: nat)
    requires
        a <= b,
    ensures
        radix_pow(a) <= radix_pow(b),
        radix_pow(a) >= 1,
    decreases b,
{
    if a < b {
        lemma_radix_pow_monotonic(a, (b - 1) as nat);
    } else if a > 0 {
        lemma_radix_pow_monotonic((a - 1) as nat, (a - 1) as nat);
    }
}

/// In either byte order, `count` bytes are laid out, and reading them back
/// gives the number again.
pub proof fn lemma_fixed_round_trip(order: Endianness, count: nat, value: nat)
    requires
        value < radix_pow(count),
    ensures
        fixed_bytes(order, count, value).len() == count,
        fixed_value(order, fixed_bytes(order, count, value)) == value,
{
    lemma_le_bytes_len(value, count);
    lemma_le_round_trip(value, count);
    assert(le_bytes(value, count).reverse().reverse() =~= le_bytes(value, count));
}

/// Two's complement loses nothing of a number within the signed range.
pub proof fn lemma_twos_round_trip(value: int, modulus: int)
    requires
        modulus > 0,
        modulus % 2 == 0,
        -(modulus / 2) <= value < modulus / 2,
    ensures
        0 <= twos_raw(value, modulus) < modulus,
        twos_value(twos_raw(value, modulus), modulus) == value,
{
}

/// The bytes of `data` in the opposite order.
pub fn reversed(data: &Vec<u8>) -> (out: Vec<u8>)
    ensures
        out@ == data@.reverse(),
{
    let mut out: Vec<u8> = Vec::new();
    let mut i: usize = data.len();
    while i > 0
        invariant
            i <= data.len(),
            out.len() == data.len() - i,
            forall|k: int| 0 <= k < out.len() ==> out[k] == data[data.len() - 1 - k],
        decreases i,
    {
        i -= 1;
        out.push(data[i]);
    }
    assert(out@ =~= data@.reverse());
    out
}

/// Lays the `count` low bytes of `value` out in the given byte order.
pub fn fixed_to_vec(order: Endianness, count: usize, value: u128) -> (out: Vec<u8>)
    ensures
        out@ == fixed_bytes(order, count as nat, value as nat),
{
    let mut out: Vec<u8> = Vec::new();
    let mut rest: u128 = value;
    let mut i: usize = 0;
    while i < count
        invariant
            i <= count,
            out@ + le_bytes(rest as nat, (count - i) as nat) == le_bytes(value as nat, count as nat),
        decreases count - i,
    {
        let ghost before = out@;
        let low: u8 = (rest % 256) as u8;
        out.push(low);
        assert(out@ + le_bytes((rest / 256) as nat, (count - i - 1) as nat)
            =~= before + le_bytes(rest as nat, (count - i) as nat));
        rest = rest / 256;
        i += 1;
    }
    assert(out@ + le_bytes(rest as nat, 0) =~= out@);
    match order {
        Endianness::Little => out,
        Endianness::Big => reversed(&out),
    }
}

/// Reads the number that `data` spells in the given byte order.
pub fn fixed_from_vec(order: Endianness, data: &Vec<u8>) -> (value: u128)
    requires
        data.len() <= 16,
    ensures
        value == fixed_value(order, data@),
{
    match order {
        Endianness::Little => le_from_vec(data),
        Endianness::Big => {
            let turned = reversed(data);
            le_from_vec(&turned)
        },
    }
}

fn le_from_vec(data: &Vec<u8>) -> (value: u128)
    requires
        data.len() <= 16,
    ensures
        value == le_value(data@),
{
    let mut acc: u128 = 0;
    let mut i: usize = data.len();
    assert(data@.skip(i as int) =~= Seq::<u8>::empty());
    while i > 0
        invariant
            i <= data.len() <= 16,
            acc == le_value(data@.skip(i as int)),
        decreases i,
    {
        proof {
            lemma_le_value_bound(data@.skip(i as int));
            lemma_radix_pow_monotonic((data.len() - i) as nat, 15);
            lemma_radix_pow_widths();
            reveal_with_fuel(radix_pow, 2);
            assert(radix_pow(16) == 256 * radix_pow(15));
            assert(data@.skip(i - 1).skip(1) =~= data@.skip(i as int));
        }
        i -= 1;
        acc = data[i] as u128 + 256 * acc;
    }
    assert(data@.skip(0) =~= data@);
    acc
}

/// What reading a fixed-width integer makes of a stream: the number that
/// the first `count` bytes spell and the stream after them, or
/// `TruncatedInput` and the stream as it was when fewer than `count` bytes
/// are left.
pub open spec fn fixed_parse(order: Endianness, count: nat, stream: Seq<u8>) -> (
    Result<nat, ErrorView>,
    Seq<u8>,
) {
    if stream.len() < count {
        (Err(ErrorView::TruncatedInput), stream)
    } else {
        (Ok(fixed_value(order, stream.subrange(0, count as int))), stream.skip(count as int))
    }
}

/// Reads `count` bytes from `buf` as one unsigned integer in the given byte
/// order.
pub fn read_fixed(buf: &mut Bytes, order: Endianness, count: usize) -> (r: Result<
    u128,
    ProtoRwError,
>)
    requires
        count <= 16,
    ensures
        unread(*final(buf)) == fixed_parse(order, count as nat, unread(*old(buf))).1,
        match fixed_parse(order, count as nat, unread(*old(buf))).0 {
            Ok(value) => r == Ok::<u128, ProtoRwError>(value as u128) && value <= u128::MAX,
            Err(e) => r matches Err(x) && x@ == e,
        },
{
    match read_exact(buf, count) {
        Ok(data) => Ok(fixed_from_vec(order, &data)),
        Err(e) => Err(e),
    }
}

/// The kind of a fixed-width integer.
pub open spec fn fixed(endianness: Endianness, width: Width, signed: bool) -> WireIntKind {
    WireIntKind::FixedWidth { endianness, width, signed }
}

/// The kind of a fixed-width integer.
pub fn fixed_kind(endianness: Endianness, width: Width, signed: bool) -> (kind: WireIntKind)
    ensures
        kind == fixed(endianness, width, signed),
{
    WireIntKind::FixedWidth { endianness, width, signed }
}

impl ProtoRw for u8 {
    fn read_proto(buf: &mut Bytes) -> (r: Result<Self, ProtoRwError>)
        ensures
            unread(*final(buf)) == WireIntKind::Byte.parse(unread(*old(buf))).1,
            match WireIntKind::Byte.parse(unread(*old(buf))).0 {
                Ok(value) => r matches Ok(v) && v == value,
                Err(e) => r matches Err(x) && x@ == e,
            },
    {
        if remaining(buf) < 1 {
            return Err(ProtoRwError::TruncatedInput);
        }
        Ok(get_u8(buf))
    }

    fn write_proto(&self, buf: &mut BytesMut) -> (r: Result<(), ProtoRwError>)
        ensures
            r is Ok,
            written(*final(buf)) == written(*old(buf)) + seq![*self],
    {
        put_u8(buf, *self);
        assert(written(*buf) =~= written(*old(buf)) + seq![*self]);
        Ok(())
    }
}

impl ProtoRw for i8 {
    /// The byte is read in two's complement.
    fn read_proto(buf: &mut Bytes) -> (r: Result<Self, ProtoRwError>)
        ensures
            unread(*final(buf)) == WireIntKind::Byte.parse(unread(*old(buf))).1,
            match WireIntKind::Byte.parse(unread(*old(buf))).0 {
                Ok(raw) => r matches Ok(v) && v == twos_value(raw as nat, 0x100),
                Err(e) => r matches Err(x) && x@ == e,
            },
    {
        if remaining(buf) < 1 {
            return Err(ProtoRwError::TruncatedInput);
        }
        let raw = get_u8(buf);
        if raw >= 128 {
            Ok(((raw - 128) as i8) + i8::MIN)
        } else {
            Ok(raw as i8)
        }
    }

    /// The byte is written in two's complement.
    fn write_proto(&self, buf: &mut BytesMut) -> (r: Result<(), ProtoRwError>)
        ensures
            r is Ok,
            written(*final(buf)) == written(*old(buf)) + seq![
                twos_raw(*self as int, 0x100) as u8,
            ],
    {
        let raw: u8 = if *self < 0 {
            ((*self - i8::MIN) as u8) + 128
        } else {
            *self as u8
        };
        put_u8(buf, raw);
        assert(written(*buf) =~= written(*old(buf)) + seq![raw]);
        Ok(())
    }
}

impl ProtoRw for LE<u16> {
    fn read_proto(buf: &mut Bytes) -> (r: Result<Self, ProtoRwError>)
        ensures
            unread(*final(buf)) == fixed(Endianness::Little, Width::W16, false).parse(
                unread(*old(buf)),
            ).1,
            match fixed(Endianness::Little, Width::W16, false).parse(unread(*old(buf))).0 {
                Ok(value) => r matches Ok(v) && v.0 == value,
                Err(e) => r matches Err(x) && x@ == e,
            },
    {
        match fixed_kind(Endianness::Little, Width::W16, false).read_unsigned(buf) {
            Ok(value) => Ok(LE(value as u16)),
            Err(e) => Err(e),
        }
    }

    fn write_proto(&self, buf: &mut BytesMut) -> (r: Result<(), ProtoRwError>)
        ensures
            r is Ok,
            written(*final(buf)) == written(*old(buf)) + fixed(
                Endianness::Little,
                Width::W16,
                false,
            ).wire(self.0 as int),
    {
        let kind = fixed_kind(Endianness::Little, Width::W16, false);
        write_integer(kind, Integer::Unsigned(self.0 as u128), buf);
        Ok(())
    }
}

impl ProtoRw for BE<u16> {
    fn read_proto(buf: &mut Bytes) -> (r: Result<Self, ProtoRwError>)
        ensures
            unread(*final(buf)) == fixed(Endianness::Big, Width::W16, false).parse(
                unread(*old(buf)),
            ).1,
            match fixed(Endianness::Big, Width::W16, false).parse(unread(*old(buf))).0 {
                Ok(value) => r matches Ok(v) && v.0 == value,
                Err(e) => r matches Err(x) && x@ == e,
            },
    {
        match fixed_kind(Endianness::Big, Width::W16, false).read_unsigned(buf) {
            Ok(value) => Ok(BE(value as u16)),
            Err(e) => Err(e),
        }
    }

    fn write_proto(&self, buf: &mut BytesMut) -> (r: Result<(), ProtoRwError>)
        ensures
            r is Ok,
            written(*final(buf)) == written(*old(buf)) + fixed(
                Endianness::Big,
                Width::W16,
                false,
            ).wire(self.0 as int),
    {
        let kind = fixed_kind(Endianness::Big, Width::W16, false);
        write_integer(kind, Integer::Unsigned(self.0 as u128), buf);
        Ok(())
    }
}

impl ProtoRw for LE<u32> {
    fn read_proto(buf: &mut Bytes) -> (r: Result<Self, ProtoRwError>)
        ensures
            unread(*final(buf)) == fixed(Endianness::Little, Width::W32, false).parse(
                unread(*old(buf)),
            ).1,
            match fixed(Endianness::Little, Width::W32, false).parse(unread(*old(buf))).0 {
                Ok(value) => r matches Ok(v) && v.0 == value,
                Err(e) => r matches Err(x) && x@ == e,
            },
    {
        match fixed_kind(Endianness::Little, Width::W32, false).read_unsigned(buf) {
            Ok(value) => Ok(LE(value as u32)),
            Err(e) => Err(e),
        }
    }

    fn write_proto(&self, buf: &mut BytesMut) -> (r: Result<(), ProtoRwError>)
        ensures
            r is Ok,
            written(*final(buf)) == written(*old(buf)) + fixed(
                Endianness::Little,
                Width::W32,
                false,
            ).wire(self.0 as int),
    {
        let kind = fixed_kind(Endianness::Little, Width::W32, false);
        write_integer(kind, Integer::Unsigned(self.0 as u128), buf);
        Ok(())
    }
}

impl ProtoRw for BE<u32> {
    fn read_proto(buf: &mut Bytes) -> (r: Result<Self, ProtoRwError>)
        ensures
            unread(*final(buf)) == fixed(Endianness::Big, Width::W32, false).parse(
                unread(*old(buf)),
            ).1,
            match fixed(Endianness::Big, Width::W32, false).parse(unread(*old(buf))).0 {
                Ok(value) => r matches Ok(v) && v.0 == value,
                Err(e) => r matches Err(x) && x@ == e,
            },
    {
        match fixed_kind(Endianness::Big, Width::W32, false).read_unsigned(buf) {
            Ok(value) => Ok(BE(value as u32)),
            Err(e) => Err(e),
        }
    }

    fn write_proto(&self, buf: &mut BytesMut) -> (r: Result<(), ProtoRwError>)
        ensures
            r is Ok,
            written(*final(buf)) == written(*old(buf)) + fixed(
                Endianness::Big,
                Width::W32,
                false,
            ).wire(self.0 as int),
    {
        let kind = fixed_kind(Endianness::Big, Width::W32, false);
        write_integer(kind, Integer::Unsigned(self.0 as u128), buf);
        Ok(())
    }
}

impl ProtoRw for LE<u64> {
    fn read_proto(buf: &mut Bytes) -> (r: Result<Self, ProtoRwError>)
        ensures
            unread(*final(buf)) == fixed(Endianness::Little, Width::W64, false).parse(
                unread(*old(buf)),
            ).1,
            match fixed(Endianness::Little, Width::W64, false).parse(unread(*old(buf))).0 {
                Ok(value) => r matches Ok(v) && v.0 == value,
                Err(e) => r matches Err(x) && x@ == e,
            },
    {
        match fixed_kind(Endianness::Little, Width::W64, false).read_unsigned(buf) {
            Ok(value) => Ok(LE(value as u64)),
            Err(e) => Err(e),
        }
    }

    fn write_proto(&self, buf: &mut BytesMut) -> (r: Result<(), ProtoRwError>)
        ensures
            r is Ok,
            written(*final(buf)) == written(*old(buf)) + fixed(
                Endianness::Little,
                Width::W64,
                false,
            ).wire(self.0 as int),
    {
        let kind = fixed_kind(Endianness::Little, Width::W64, false);
        write_integer(kind, Integer::Unsigned(self.0 as u128), buf);
        Ok(())
    }
}

impl ProtoRw for BE<u64> {
    fn read_proto(buf: &mut Bytes) -> (r: Result<Self, ProtoRwError>)
        ensures
            unread(*final(buf)) == fixed(Endianness::Big, Width::W64, false).parse(
                unread(*old(buf)),
            ).1,
            match fixed(Endianness::Big, Width::W64, false).parse(unread(*old(buf))).0 {
                Ok(value) => r matches Ok(v) && v.0 == value,
                Err(e) => r matches Err(x) && x@ == e,
            },
    {
        match fixed_kind(Endianness::Big, Width::W64, false).read_unsigned(buf) {
            Ok(value) => Ok(BE(value as u64)),
            Err(e) => Err(e),
        }
    }

    fn write_proto(&self, buf: &mut BytesMut) -> (r: Result<(), ProtoRwError>)
        ensures
            r is Ok,
            written(*final(buf)) == written(*old(buf)) + fixed(
                Endianness::Big,
                Width::W64,
                false,
            ).wire(self.0 as int),
    {
        let kind = fixed_kind(Endianness::Big, Width::W64, false);
        write_integer(kind, Integer::Unsigned(self.0 as u128), buf);
        Ok(())
    }
}

impl ProtoRw for LE<u128> {
    fn read_proto(buf: &mut Bytes) -> (r: Result<Self, ProtoRwError>)
        ensures
            unread(*final(buf)) == fixed(Endianness::Little, Width::W128, false).parse(
                unread(*old(buf)),
            ).1,
            match fixed(Endianness::Little, Width::W128, false).parse(unread(*old(buf))).0 {
                Ok(value) => r matches Ok(v) && v.0 == value,
                Err(e) => r matches Err(x) && x@ == e,
            },
    {
        match fixed_kind(Endianness::Little, Width::W128, false).read_unsigned(buf) {
            Ok(value) => Ok(LE(value as u128)),
            Err(e) => Err(e),
        }
    }

    fn write_proto(&self, buf: &mut BytesMut) -> (r: Result<(), ProtoRwError>)
        ensures
            r is Ok,
            written(*final(buf)) == written(*old(buf)) + fixed(
                Endianness::Little,
                Width::W128,
                false,
            ).wire(self.0 as int),
    {
        let kind = fixed_kind(Endianness::Little, Width::W128, false);
        write_integer(kind, Integer::Unsigned(self.0 as u128), buf);
        Ok(())
    }
}

impl ProtoRw for BE<u128> {
    fn read_proto(buf: &mut Bytes) -> (r: Result<Self, ProtoRwError>)
        ensures
            unread(*final(buf)) == fixed(Endianness::Big, Width::W128, false).parse(
                unread(*old(buf)),
            ).1,
            match fixed(Endianness::Big, Width::W128, false).parse(unread(*old(buf))).0 {
                Ok(value) => r matches Ok(v) && v.0 == value,
                Err(e) => r matches Err(x) && x@ == e,
            },
    {
        match fixed_kind(Endianness::Big, Width::W128, false).read_unsigned(buf) {
            Ok(value) => Ok(BE(value as u128)),
            Err(e) => Err(e),
        }
    }

    fn write_proto(&self, buf: &mut BytesMut) -> (r: Result<(), ProtoRwError>)
        ensures
            r is Ok,
            written(*final(buf)) == written(*old(buf)) + fixed(
                Endianness::Big,
                Width::W128,
                false,
            ).wire(self.0 as int),
    {
        let kind = fixed_kind(Endianness::Big, Width::W128, false);
        write_integer(kind, Integer::Unsigned(self.0 as u128), buf);
        Ok(())
    }
}

impl ProtoRw for LE<i16> {
    fn read_proto(buf: &mut Bytes) -> (r: Result<Self, ProtoRwError>)
        ensures
            unread(*final(buf)) == fixed(Endianness::Little, Width::W16, true).parse(
                unread(*old(buf)),
            ).1,
            match fixed(Endianness::Little, Width::W16, true).parse(unread(*old(buf))).0 {
                Ok(value) => r matches Ok(v) && v.0 == value,
                Err(e) => r matches Err(x) && x@ == e,
            },
    {
        match fixed_kind(Endianness::Little, Width::W16, true).read_signed(buf) {
            Ok(value) => Ok(LE(value as i16)),
            Err(e) => Err(e),
        }
    }

    fn write_proto(&self, buf: &mut BytesMut) -> (r: Result<(), ProtoRwError>)
        ensures
            r is Ok,
            written(*final(buf)) == written(*old(buf)) + fixed(
                Endianness::Little,
                Width::W16,
                true,
            ).wire(self.0 as int),
    {
        let kind = fixed_kind(Endianness::Little, Width::W16, true);
        write_integer(kind, Integer::Signed(self.0 as i128), buf);
        Ok(())
    }
}

impl ProtoRw for BE<i16> {
    fn read_proto(buf: &mut Bytes) -> (r: Result<Self, ProtoRwError>)
        ensures
            unread(*final(buf)) == fixed(Endianness::Big, Width::W16, true).parse(
                unread(*old(buf)),
            ).1,
            match fixed(Endianness::Big, Width::W16, true).parse(unread(*old(buf))).0 {
                Ok(value) => r matches Ok(v) && v.0 == value,
                Err(e) => r matches Err(x) && x@ == e,
            },
    {
        match fixed_kind(Endianness::Big, Width::W16, true).read_signed(buf) {
            Ok(value) => Ok(BE(value as i16)),
            Err(e) => Err(e),
        }
    }

    fn write_proto(&self, buf: &mut BytesMut) -> (r: Result<(), ProtoRwError>)
        ensures
            r is Ok,
            written(*final(buf)) == written(*old(buf)) + fixed(
                Endianness::Big,
                Width::W16,
                true,
            ).wire(self.0 as int),
    {
        let kind = fixed_kind(Endianness::Big, Width::W16, true);
        write_integer(kind, Integer::Signed(self.0 as i128), buf);
        Ok(())
    }
}

impl ProtoRw for LE<i32> {
    fn read_proto(buf: &mut Bytes) -> (r: Result<Self, ProtoRwError>)
        ensures
            unread(*final(buf)) == fixed(Endianness::Little, Width::W32, true).parse(
                unread(*old(buf)),
            ).1,
            match fixed(Endianness::Little, Width::W32, true).parse(unread(*old(buf))).0 {
                Ok(value) => r matches Ok(v) && v.0 == value,
                Err(e) => r matches Err(x) && x@ == e,
            },
    {
        match fixed_kind(Endianness::Little, Width::W32, true).read_signed(buf) {
            Ok(value) => Ok(LE(value as i32)),
            Err(e) => Err(e),
        }
    }

    fn write_proto(&self, buf: &mut BytesMut) -> (r: Result<(), ProtoRwError>)
        ensures
            r is Ok,
            written(*final(buf)) == written(*old(buf)) + fixed(
                Endianness::Little,
                Width::W32,
                true,
            ).wire(self.0 as int),
    {
        let kind = fixed_kind(Endianness::Little, Width::W32, true);
        write_integer(kind, Integer::Signed(self.0 as i128), buf);
        Ok(())
    }
}

impl ProtoRw for BE<i32> {
    fn read_proto(buf: &mut Bytes) -> (r: Result<Self, ProtoRwError>)
        ensures
            unread(*final(buf)) == fixed(Endianness::Big, Width::W32, true).parse(
                unread(*old(buf)),
            ).1,
            match fixed(Endianness::Big, Width::W32, true).parse(unread(*old(buf))).0 {
                Ok(value) => r matches Ok(v) && v.0 == value,
                Err(e) => r matches Err(x) && x@ == e,
            },
    {
        match fixed_kind(Endianness::Big, Width::W32, true).read_signed(buf) {
            Ok(value) => Ok(BE(value as i32)),
            Err(e) => Err(e),
        }
    }

    fn write_proto(&self, buf: &mut BytesMut) -> (r: Result<(), ProtoRwError>)
        ensures
            r is Ok,
            written(*final(buf)) == written(*old(buf)) + fixed(
                Endianness::Big,
                Width::W32,
                true,
            ).wire(self.0 as int),
    {
        let kind = fixed_kind(Endianness::Big, Width::W32, true);
        write_integer(kind, Integer::Signed(self.0 as i128), buf);
        Ok(())
    }
}

impl ProtoRw for LE<i64> {
    fn read_proto(buf: &mut Bytes) -> (r: Result<Self, ProtoRwError>)
        ensures
            unread(*final(buf)) == fixed(Endianness::Little, Width::W64, true).parse(
                unread(*old(buf)),
            ).1,
            match fixed(Endianness::Little, Width::W64, true).parse(unread(*old(buf))).0 {
                Ok(value) => r matches Ok(v) && v.0 == value,
                Err(e) => r matches Err(x) && x@ == e,
            },
    {
        match fixed_kind(Endianness::Little, Width::W64, true).read_signed(buf) {
            Ok(value) => Ok(LE(value as i64)),
            Err(e) => Err(e),
        }
    }

    fn write_proto(&self, buf: &mut BytesMut) -> (r: Result<(), ProtoRwError>)
        ensures
            r is Ok,
            written(*final(buf)) == written(*old(buf)) + fixed(
                Endianness::Little,
                Width::W64,
                true,
            ).wire(self.0 as int),
    {
        let kind = fixed_kind(Endianness::Little, Width::W64, true);
        write_integer(kind, Integer::Signed(self.0 as i128), buf);
        Ok(())
    }
}

impl ProtoRw for BE<i64> {
    fn read_proto(buf: &mut Bytes) -> (r: Result<Self, ProtoRwError>)
        ensures
            unread(*final(buf)) == fixed(Endianness::Big, Width::W64, true).parse(
                unread(*old(buf)),
            ).1,
            match fixed(Endianness::Big, Width::W64, true).parse(unread(*old(buf))).0 {
                Ok(value) => r matches Ok(v) && v.0 == value,
                Err(e) => r matches Err(x) && x@ == e,
            },
    {
        match fixed_kind(Endianness::Big, Width::W64, true).read_signed(buf) {
            Ok(value) => Ok(BE(value as i64)),
            Err(e) => Err(e),
        }
    }

    fn write_proto(&self, buf: &mut BytesMut) -> (r: Result<(), ProtoRwError>)
        ensures
            r is Ok,
            written(*final(buf)) == written(*old(buf)) + fixed(
                Endianness::Big,
                Width::W64,
                true,
            ).wire(self.0 as int),
    {
        let kind = fixed_kind(Endianness::Big, Width::W64, true);
        write_integer(kind, Integer::Signed(self.0 as i128), buf);
        Ok(())
    }
}

impl ProtoRw for LE<i128> {
    fn read_proto(buf: &mut Bytes) -> (r: Result<Self, ProtoRwError>)
        ensures
            unread(*final(buf)) == fixed(Endianness::Little, Width::W128, true).parse(
                unread(*old(buf)),
            ).1,
            match fixed(Endianness::Little, Width::W128, true).parse(unread(*old(buf))).0 {
                Ok(value) => r matches Ok(v) && v.0 == value,
                Err(e) => r matches Err(x) && x@ == e,
            },
    {
        match fixed_kind(Endianness::Little, Width::W128, true).read_signed(buf) {
            Ok(value) => Ok(LE(value as i128)),
            Err(e) => Err(e),
        }
    }

    fn write_proto(&self, buf: &mut BytesMut) -> (r: Result<(), ProtoRwError>)
        ensures
            r is Ok,
            written(*final(buf)) == written(*old(buf)) + fixed(
                Endianness::Little,
                Width::W128,
                true,
            ).wire(self.0 as int),
    {
        let kind = fixed_kind(Endianness::Little, Width::W128, true);
        write_integer(kind, Integer::Signed(self.0 as i128), buf);
        Ok(())
    }
}

impl ProtoRw for BE<i128> {
    fn read_proto(buf: &mut Bytes) -> (r: Result<Self, ProtoRwError>)
        ensures
            unread(*final(buf)) == fixed(Endianness::Big, Width::W128, true).parse(
                unread(*old(buf)),
            ).1,
            match fixed(Endianness::Big, Width::W128, true).parse(unread(*old(buf))).0 {
                Ok(value) => r matches Ok(v) && v.0 == value,
                Err(e) => r matches Err(x) && x@ == e,
            },
    {
        match fixed_kind(Endianness::Big, Width::W128, true).read_signed(buf) {
            Ok(value) => Ok(BE(value as i128)),
            Err(e) => Err(e),
        }
    }

    fn write_proto(&self, buf: &mut BytesMut) -> (r: Result<(), ProtoRwError>)
        ensures
            r is Ok,
            written(*final(buf)) == written(*old(buf)) + fixed(
                Endianness::Big,
                Width::W128,
                true,
            ).wire(self.0 as int),
    {
        let kind = fixed_kind(Endianness::Big, Width::W128, true);
        write_integer(kind, Integer::Signed(self.0 as i128), buf);
        Ok(())
    }
}

} // verus!
