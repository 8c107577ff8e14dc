//! Variable-length integers: seven bits to a byte, low group first, the
//! high bit of a byte saying that another byte follows. Signed numbers are
//! folded onto the unsigned ones by the zig-zag mapping first.

use crate::error::{ErrorView, ProtoRwError};
use crate::stream::{get_u8, remaining, unread, written};
use crate::types::endian::Width;
use crate::types::integer::{write_integer, Integer, WireIntKind};
use crate::ProtoRw;
use bytes::{Bytes, BytesMut};
use vstd::prelude::*;

verus! {

/// An integer carried in the variable-length encoding.
pub struct Var<T>(pub T);

/// The variable-length encoding of `n`: the shortest one there is.
pub open spec fn varint_bytes(n: nat) -> Seq<u8>
    decreases n,
{
    if n < 128 {
        seq![n as u8]
    } else {
        seq![(n % 128 + 128) as u8] + varint_bytes(n / 128)
    }
}

/// The strict upper bound of what `budget` bytes can spell when the last
/// of them must stay below `top`.
pub open spec fn varint_bound(budget: nat, top: nat) -> nat
    decreases budget,
{
    if budget <= 1 {
        top
    } else {
        128 * varint_bound((budget - 1) as nat, top)
    }
}

/// What reading a variable-length integer makes of a stream, when at most
/// `budget` bytes may be taken and the last of these must be below `top`:
/// the number, `TruncatedInput` when the stream ends within the number, or
/// `VarIntOverflow` when the number does not end within the budget or its
/// last byte reaches `top`; and the stream after the bytes that were looked
/// at.
pub open spec fn varint_parse(stream: Seq<u8>, budget: nat, top: nat) -> (
    Result<nat, ErrorView>,
    Seq<u8>,
)
    decreases budget,
{
    if budget == 0 {
        (Err(ErrorView::VarIntOverflow), stream)
    } else if stream.len() == 0 {
        (Err(ErrorView::TruncatedInput), stream)
    } else if budget == 1 {
        if stream[0] < top {
            (Ok(stream[0] as nat), stream.skip(1))
        } else {
            (Err(ErrorView::VarIntOverflow), stream.skip(1))
        }
    } else if stream[0] < 128 {
        (Ok(stream[0] as nat), stream.skip(1))
    } else {
        let (high, left) = varint_parse(stream.skip(1), (budget - 1) as nat, top);
        match high {
            Ok(high) => (Ok((stream[0] - 128 + 128 * high) as nat), left),
            Err(e) => (Err(e), left),
        }
    }
}

impl Width {
    /// The largest number of bytes that a variable-length integer of this
    /// width may take.
    pub open spec fn varint_budget(self) -> nat {
        match self {
            Width::W16 => 3,
            Width::W32 => 5,
            Width::W64 => 10,
            Width::W128 => 19,
        }
    }

    /// The strict upper bound of the last of those bytes: what is left of
    /// the width after seven bits for each byte before it.
    pub open spec fn varint_top(self) -> nat {
        match self {
            Width::W16 => 4,
            Width::W32 => 16,
            Width::W64 => 2,
            Width::W128 => 4,
        }
    }

    /// The largest number of bytes that a variable-length integer of this
    /// width may take.
    pub fn varint_max_bytes(self) -> (n: usize)
        ensures
            n == self.varint_budget(),
    {
        match self {
            Width::W16 => 3,
            Width::W32 => 5,
            Width::W64 => 10,
            Width::W128 => 19,
        }
    }

    /// The strict upper bound of the last of those bytes.
    pub fn varint_last_bound(self) -> (n: u8)
        ensures
            n == self.varint_top(),
    {
        match self {
            Width::W16 => 4,
            Width::W32 => 16,
            Width::W64 => 2,
            Width::W128 => 4,
        }
    }
}

/// The zig-zag code of a signed number: 0, -1, 1, -2, 2, ... are mapped to
/// 0, 1, 2, 3, 4, ...
pub open spec fn zigzag(value: int) -> nat {
    if value >= 0 {
        (2 * value) as nat
    } else {
        (-2 * value - 1) as nat
    }
}

/// The signed number that has the zig-zag code `code`.
pub open spec fn unzigzag(code: nat) -> int {
    if code % 2 == 0 {
        code as int / 2
    } else {
        -(code as int / 2) - 1
    }
}

/// The zig-zag mapping is a bijection: undoing it gives the number back,
/// and redoing it gives the code back.
pub proof fn lemma_zigzag_bijection(value: int, code: nat)
    ensures
        unzigzag(zigzag(value)) == value,
        zigzag(unzigzag(code)) == code,
{
}

/// The zig-zag codes of the signed numbers of a width are exactly the
/// unsigned numbers of that width.
pub proof fn lemma_zigzag_range(value: int, width: Width)
    ensures
        -(width.modulus() / 2) <= value < width.modulus() / 2 <==> zigzag(value)
            < width.modulus(),
{
}

/// The zig-zag mapping starts 0, -1, 1, -2, 2 -> 0, 1, 2, 3, 4.
pub proof fn lemma_zigzag_small()
    ensures
        zigzag(0) == 0,
        zigzag(-1) == 1,
        zigzag(1) == 2,
        zigzag(-2) == 3,
        zigzag(2) == 4,
{
}

/// For the 64-bit width, the zig-zag code is what shifting and xor-ing
/// the two's complement bits gives: `(v << 1) ^ (v >> 63)`; and the number
/// is found again as `(u >> 1) ^ -(u & 1)`.
pub proof fn lemma_zigzag_by_bits(value: i64, code: u64)
    ensures
        zigzag(value as int) == ((value << 1) ^ (value >> 63)) as u64,
        unzigzag(code as nat) == ((code >> 1) as i64) ^ ((0 - (code & 1)) as i64),
{
    let shifted = ((value << 1) ^ (value >> 63)) as u64;
    assert(value >= 0 ==> shifted == 2 * value) by (bit_vector)
        requires
            shifted == ((value << 1) ^ (value >> 63)) as u64,
    ;
    assert(value < 0 ==> shifted == -2 * value - 1) by (bit_vector)
        requires
            shifted == ((value << 1) ^ (value >> 63)) as u64,
    ;
    let back = ((code >> 1) as i64) ^ ((0 - (code & 1)) as i64);
    assert(code % 2 == 0 ==> back == code / 2) by (bit_vector)
        requires
            back == ((code >> 1) as i64) ^ ((0 - (code & 1)) as i64),
    ;
    assert(code % 2 == 1 ==> back == -(code / 2) - 1) by (bit_vector)
        requires
            back == ((code >> 1) as i64) ^ ((0 - (code & 1)) as i64),
    ;
}

/// The shape of an encoding: every byte but the last has its high bit set,
/// the last has it clear; a last byte of zero occurs only as the single
/// byte of the number zero; and the numbers below 128 take one byte, which
/// is the number itself.
pub proof fn lemma_varint_minimal(n: nat)
    ensures
        varint_bytes(n).len() >= 1,
        forall|i: int| 0 <= i < varint_bytes(n).len() - 1 ==> varint_bytes(n)[i] >= 128,
        varint_bytes(n).last() < 128,
        varint_bytes(n).last() == 0 ==> n == 0 && varint_bytes(n).len() == 1,
        n < 128 ==> varint_bytes(n) == seq![n as u8],
    decreases n,
{
    if n >= 128 {
        lemma_varint_minimal(n / 128);
        let tail = varint_bytes(n / 128);
        let all = varint_bytes(n);
        assert(all == seq![(n % 128 + 128) as u8] + tail);
        assert(all.last() == tail.last());
        assert forall|i: int| 0 <= i < all.len() - 1 implies all[i] >= 128 by {
            if i > 0 {
                assert(all[i] == tail[i - 1]);
            }
        }
    }
}

/// The bounds at the four widths: a variable-length integer of a width
/// spells exactly the unsigned numbers of that width.
pub proof fn lemma_varint_bound_widths(width: Width)
    ensures
        varint_bound(width.varint_budget(), width.varint_top()) == width.modulus(),
        1 <= width.varint_top() <= 128,
        width.varint_budget() >= 1,
{
    reveal_with_fuel(varint_bound, 20);
}

/// What was read is below the bound of the budget.
pub proof fn lemma_varint_parse_bound(stream: Seq<u8>, budget: nat, top: nat)
    requires
        1 <= top <= 128,
    ensures
        varint_parse(stream, budget, top).0 matches Ok(value) ==> value < varint_bound(
            budget,
            top,
        ) && varint_parse(stream, budget, top).1.len() < stream.len(),
    decreases budget,
{
    if budget > 1 && stream.len() > 0 && stream[0] >= 128 {
        lemma_varint_parse_bound(stream.skip(1), (budget - 1) as nat, top);
    }
    if budget > 1 {
        lemma_varint_bound_positive((budget - 1) as nat, top);
    }
}

proof fn lemma_varint_bound_positive(budget: nat, top: nat)
    ensures
        budget >= 2 ==> varint_bound(budget, top) >= 128 * top,
        budget >= 1 ==> varint_bound(budget, top) >= top,
    decreases budget,
{
    if budget >= 2 {
        lemma_varint_bound_positive((budget - 1) as nat, top);
    }
}

/// Reading back what was written: a number below the bound of the budget
/// is found again, with whatever followed its encoding left over.
pub proof fn lemma_varint_round_trip(n: nat, tail: Seq<u8>, budget: nat, top: nat)
    requires
        n < varint_bound(budget, top),
        budget >= 1,
        top <= 128,
    ensures
        varint_parse(varint_bytes(n) + tail, budget, top) == (Ok::<nat, ErrorView>(n), tail),
    decreases budget,
{
    let stream = varint_bytes(n) + tail;
    if budget == 1 || n < 128 {
        if budget > 1 {
            lemma_varint_bound_positive(budget, top);
        }
        assert(varint_bytes(n) == seq![n as u8]);
        assert(stream.skip(1) =~= tail);
    } else {
        lemma_varint_round_trip(n / 128, tail, (budget - 1) as nat, top);
        assert(stream.skip(1) =~= varint_bytes(n / 128) + tail);
    }
}

/// A stream that ends within an encoding is reported as truncated.
pub proof fn lemma_varint_truncated(n: nat, cut: int, budget: nat, top: nat)
    requires
        n < varint_bound(budget, top),
        budget >= 1,
        top <= 128,
        0 <= cut < varint_bytes(n).len(),
    ensures
        varint_parse(varint_bytes(n).subrange(0, cut), budget, top).0 == Err::<nat, ErrorView>(
            ErrorView::TruncatedInput,
        ),
    decreases budget,
{
    let all = varint_bytes(n);
    let stream = all.subrange(0, cut);
    if cut > 0 {
        assert(n >= 128);
        if budget == 1 {
            lemma_varint_bound_positive(budget, top);
        } else {
            lemma_varint_truncated(n / 128, cut - 1, (budget - 1) as nat, top);
            assert(stream.skip(1) =~= varint_bytes(n / 128).subrange(0, cut - 1));
        }
    }
}

/// The variable-length encoding of `n`.
pub fn varint_to_vec(n: u128) -> (out: Vec<u8>)
    ensures
        out@ == varint_bytes(n as nat),
{
    let mut out: Vec<u8> = Vec::new();
    let mut rest: u128 = n;
    while rest >= 128
        invariant
            out@ + varint_bytes(rest as nat) == varint_bytes(n as nat),
        decreases rest,
    {
        let ghost before = out@;
        let group: u8 = (rest % 128) as u8;
        out.push(group + 128);
        assert(out@ + varint_bytes((rest / 128) as nat) =~= before + varint_bytes(rest as nat));
        rest = rest / 128;
    }
    let ghost before = out@;
    out.push(rest as u8);
    assert(out@ =~= before + varint_bytes(rest as nat));
    out
}

/// Reads a variable-length integer from `buf`, taking at most `budget`
/// bytes, the last of which must be below `top`.
pub fn read_varint(buf: &mut Bytes, budget: usize, top: u8) -> (r: Result<u128, ProtoRwError>)
    requires
        budget >= 1,
        1 <= top <= 128,
        varint_bound(budget as nat, top as nat) <= Width::W128.modulus(),
    ensures
        unread(*final(buf)) == varint_parse(unread(*old(buf)), budget as nat, top as nat).1,
        match varint_parse(unread(*old(buf)), budget as nat, top as nat).0 {
            Ok(value) => r == Ok::<u128, ProtoRwError>(value as u128) && value <= u128::MAX,
            Err(e) => r matches Err(x) && x@ == e,
        },
    decreases budget,
{
    if remaining(buf) < 1 {
        return Err(ProtoRwError::TruncatedInput);
    }
    let first = get_u8(buf);
    proof {
        lemma_varint_parse_bound(unread(*old(buf)), budget as nat, top as nat);
    }
    if budget == 1 {
        if first < top {
            Ok(first as u128)
        } else {
            Err(ProtoRwError::VarIntOverflow)
        }
    } else if first < 128 {
        Ok(first as u128)
    } else {
        proof {
            lemma_varint_parse_bound(unread(*buf), (budget - 1) as nat, top as nat);
        }
        match read_varint(buf, budget - 1, top) {
            Ok(high) => Ok((first - 128) as u128 + 128 * high),
            Err(e) => Err(e),
        }
    }
}

/// The kind of a variable-length integer.
pub open spec fn variable(width: Width, signed: bool) -> WireIntKind {
    WireIntKind::VarInt { width, signed }
}

/// The kind of a variable-length integer.
pub fn variable_kind(width: Width, signed: bool) -> (kind: WireIntKind)
    ensures
        kind == variable(width, signed),
{
    WireIntKind::VarInt { width, signed }
}

impl ProtoRw for Var<u16> {
    fn read_proto(buf: &mut Bytes) -> (r: Result<Self, ProtoRwError>)
        ensures
            unread(*final(buf)) == variable(Width::W16, false).parse(
                unread(*old(buf)),
            ).1,
            match variable(Width::W16, false).parse(unread(*old(buf))).0 {
                Ok(value) => r matches Ok(v) && v.0 == value,
                Err(e) => r matches Err(x) && x@ == e,
            },
    {
        match variable_kind(Width::W16, false).read_unsigned(buf) {
            Ok(value) => Ok(Var(value as u16)),
            Err(e) => Err(e),
        }
    }

    fn write_proto(&self, buf: &mut BytesMut) -> (r: Result<(), ProtoRwError>)
        ensures
            r is Ok,
            written(*final(buf)) == written(*old(buf)) + variable(
                Width::W16,
                false,
            ).wire(self.0 as int),
    {
        let kind = variable_kind(Width::W16, false);
        write_integer(kind, Integer::Unsigned(self.0 as u128), buf);
        Ok(())
    }
}

impl ProtoRw for Var<u32> {
    fn read_proto(buf: &mut Bytes) -> (r: Result<Self, ProtoRwError>)
        ensures
            unread(*final(buf)) == variable(Width::W32, false).parse(
                unread(*old(buf)),
            ).1,
            match variable(Width::W32, false).parse(unread(*old(buf))).0 {
                Ok(value) => r matches Ok(v) && v.0 == value,
                Err(e) => r matches Err(x) && x@ == e,
            },
    {
        match variable_kind(Width::W32, false).read_unsigned(buf) {
            Ok(value) => Ok(Var(value as u32)),
            Err(e) => Err(e),
        }
    }

    fn write_proto(&self, buf: &mut BytesMut) -> (r: Result<(), ProtoRwError>)
        ensures
            r is Ok,
            written(*final(buf)) == written(*old(buf)) + variable(
                Width::W32,
                false,
            ).wire(self.0 as int),
    {
        let kind = variable_kind(Width::W32, false);
        write_integer(kind, Integer::Unsigned(self.0 as u128), buf);
        Ok(())
    }
}

impl ProtoRw for Var<u64> {
    fn read_proto(buf: &mut Bytes) -> (r: Result<Self, ProtoRwError>)
        ensures
            unread(*final(buf)) == variable(Width::W64, false).parse(
                unread(*old(buf)),
            ).1,
            match variable(Width::W64, false).parse(unread(*old(buf))).0 {
                Ok(value) => r matches Ok(v) && v.0 == value,
                Err(e) => r matches Err(x) && x@ == e,
            },
    {
        match variable_kind(Width::W64, false).read_unsigned(buf) {
            Ok(value) => Ok(Var(value as u64)),
            Err(e) => Err(e),
        }
    }

    fn write_proto(&self, buf: &mut BytesMut) -> (r: Result<(), ProtoRwError>)
        ensures
            r is Ok,
            written(*final(buf)) == written(*old(buf)) + variable(
                Width::W64,
                false,
            ).wire(self.0 as int),
    {
        let kind = variable_kind(Width::W64, false);
        write_integer(kind, Integer::Unsigned(self.0 as u128), buf);
        Ok(())
    }
}

impl ProtoRw for Var<u128> {
    fn read_proto(buf: &mut Bytes) -> (r: Result<Self, ProtoRwError>)
        ensures
            unread(*final(buf)) == variable(Width::W128, false).parse(
                unread(*old(buf)),
            ).1,
            match variable(Width::W128, false).parse(unread(*old(buf))).0 {
                Ok(value) => r matches Ok(v) && v.0 == value,
                Err(e) => r matches Err(x) && x@ == e,
            },
    {
        match variable_kind(Width::W128, false).read_unsigned(buf) {
            Ok(value) => Ok(Var(value as u128)),
            Err(e) => Err(e),
        }
    }

    fn write_proto(&self, buf: &mut BytesMut) -> (r: Result<(), ProtoRwError>)
        ensures
            r is Ok,
            written(*final(buf)) == written(*old(buf)) + variable(
                Width::W128,
                false,
            ).wire(self.0 as int),
    {
        let kind = variable_kind(Width::W128, false);
        write_integer(kind, Integer::Unsigned(self.0 as u128), buf);
        Ok(())
    }
}

impl ProtoRw for Var<i16> {
    fn read_proto(buf: &mut Bytes) -> (r: Result<Self, ProtoRwError>)
        ensures
            unread(*final(buf)) == variable(Width::W16, true).parse(
                unread(*old(buf)),
            ).1,
            match variable(Width::W16, true).parse(unread(*old(buf))).0 {
                Ok(value) => r matches Ok(v) && v.0 == value,
                Err(e) => r matches Err(x) && x@ == e,
            },
    {
        match variable_kind(Width::W16, true).read_signed(buf) {
            Ok(value) => Ok(Var(value as i16)),
            Err(e) => Err(e),
        }
    }

    fn write_proto(&self, buf: &mut BytesMut) -> (r: Result<(), ProtoRwError>)
        ensures
            r is Ok,
            written(*final(buf)) == written(*old(buf)) + variable(
                Width::W16,
                true,
            ).wire(self.0 as int),
    {
        let kind = variable_kind(Width::W16, true);
        write_integer(kind, Integer::Signed(self.0 as i128), buf);
        Ok(())
    }
}

impl ProtoRw for Var<i32> {
    fn read_proto(buf: &mut Bytes) -> (r: Result<Self, ProtoRwError>)
        ensures
            unread(*final(buf)) == variable(Width::W32, true).parse(
                unread(*old(buf)),
            ).1,
            match variable(Width::W32, true).parse(unread(*old(buf))).0 {
                Ok(value) => r matches Ok(v) && v.0 == value,
                Err(e) => r matches Err(x) && x@ == e,
            },
    {
        match variable_kind(Width::W32, true).read_signed(buf) {
            Ok(value) => Ok(Var(value as i32)),
            Err(e) => Err(e),
        }
    }

    fn write_proto(&self, buf: &mut BytesMut) -> (r: Result<(), ProtoRwError>)
        ensures
            r is Ok,
            written(*final(buf)) == written(*old(buf)) + variable(
                Width::W32,
                true,
            ).wire(self.0 as int),
    {
        let kind = variable_kind(Width::W32, true);
        write_integer(kind, Integer::Signed(self.0 as i128), buf);
        Ok(())
    }
}

impl ProtoRw for Var<i64> {
    fn read_proto(buf: &mut Bytes) -> (r: Result<Self, ProtoRwError>)
        ensures
            unread(*final(buf)) == variable(Width::W64, true).parse(
                unread(*old(buf)),
            ).1,
            match variable(Width::W64, true).parse(unread(*old(buf))).0 {
                Ok(value) => r matches Ok(v) && v.0 == value,
                Err(e) => r matches Err(x) && x@ == e,
            },
    {
        match variable_kind(Width::W64, true).read_signed(buf) {
            Ok(value) => Ok(Var(value as i64)),
            Err(e) => Err(e),
        }
    }

    fn write_proto(&self, buf: &mut BytesMut) -> (r: Result<(), ProtoRwError>)
        ensures
            r is Ok,
            written(*final(buf)) == written(*old(buf)) + variable(
                Width::W64,
                true,
            ).wire(self.0 as int),
    {
        let kind = variable_kind(Width::W64, true);
        write_integer(kind, Integer::Signed(self.0 as i128), buf);
        Ok(())
    }
}

impl ProtoRw for Var<i128> {
    fn read_proto(buf: &mut Bytes) -> (r: Result<Self, ProtoRwError>)
        ensures
            unread(*final(buf)) == variable(Width::W128, true).parse(
                unread(*old(buf)),
            ).1,
            match variable(Width::W128, true).parse(unread(*old(buf))).0 {
                Ok(value) => r matches Ok(v) && v.0 == value,
                Err(e) => r matches Err(x) && x@ == e,
            },
    {
        match variable_kind(Width::W128, true).read_signed(buf) {
            Ok(value) => Ok(Var(value as i128)),
            Err(e) => Err(e),
        }
    }

    fn write_proto(&self, buf: &mut BytesMut) -> (r: Result<(), ProtoRwError>)
        ensures
            r is Ok,
            written(*final(buf)) == written(*old(buf)) + variable(
                Width::W128,
                true,
            ).wire(self.0 as int),
    {
        let kind = variable_kind(Width::W128, true);
        write_integer(kind, Integer::Signed(self.0 as i128), buf);
        Ok(())
    }
}

} // verus!
