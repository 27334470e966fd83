//! Fixed-width values: integers in big-endian order, booleans as one byte,
//! and floating-point numbers as their IEEE 754 bit patterns.

use vstd::prelude::*;
use crate::error::ProtocolError;
use crate::net::proto::{ProtoSerializable, Reader, RoundTrip};
use crate::net::proto::varint::{from_bits, lemma_i32_bits, lemma_u32_bits, to_bits};

verus! {

/// The `width` low base-256 digits of `n`, most significant first.
pub open spec fn be_bytes(n: nat, width: nat) -> Seq<u8>
    decreases width,
{
    if width == 0 {
        Seq::empty()
    } else {
        be_bytes(n / 256, (width - 1) as nat).push((n % 256) as u8)
    }
}

/// The number whose base-256 digits, most significant first, are `bytes`.
pub open spec fn be_value(bytes: Seq<u8>) -> nat
    decreases bytes.len(),
{
    if bytes.len() == 0 {
        0
    } else {
        be_value(bytes.drop_last()) * 256 + bytes.last() as nat
    }
}

/// 256 to the power `width`, for the widths in use.
pub open spec fn span(width: nat) -> nat {
    if width == 0 {
        1
    } else if width == 1 {
        0x100
    } else if width == 2 {
        0x1_0000
    } else if width == 3 {
        0x100_0000
    } else if width == 4 {
        0x1_0000_0000
    } else if width == 5 {
        0x100_0000_0000
    } else if width == 6 {
        0x1_0000_0000_0000
    } else if width == 7 {
        0x100_0000_0000_0000
    } else {
        0x1_0000_0000_0000_0000
    }
}

/// The two's-complement bit pattern of a 64-bit `v`, read as an unsigned number.
pub open spec fn to_bits64(v: i64) -> nat {
    if v >= 0 {
        v as nat
    } else {
        (v + 0x1_0000_0000_0000_0000) as nat
    }
}

/// The signed 64-bit value whose bit pattern is the low 64 bits of `n`.
pub open spec fn from_bits64(n: nat) -> i64 {
    let low = n % 0x1_0000_0000_0000_0000;
    if low < 0x8000_0000_0000_0000 {
        low as i64
    } else {
        (low - 0x1_0000_0000_0000_0000) as i64
    }
}

/// The number that the first `width` bytes of `input` spell, if there are that many.
pub open spec fn fixed(input: Seq<u8>, width: nat) -> Result<(nat, nat), ProtocolError> {
    if input.len() < width {
        Err(ProtocolError::UnexpectedEof)
    } else {
        Ok((be_value(input.take(width as int)), width))
    }
}

/// `be_bytes` has the width asked for.
pub proof fn lemma_be_bytes_len(n: nat, width: nat)
    ensures
        be_bytes(n, width).len() == width,
    decreases width,
{
    if width > 0 {
        lemma_be_bytes_len(n / 256, (width - 1) as nat);
    }
}

/// A number below the span of a width reads back from its digits, whatever follows them.
pub proof fn lemma_be_round_trip(n: nat, width: nat, rest: Seq<u8>)
    requires
        width <= 8,
        n < span(width),
    ensures
        fixed(be_bytes(n, width) + rest, width) == Ok::<(nat, nat), ProtocolError>((n, width)),
{
    lemma_be_bytes_len(n, width);
    assert((be_bytes(n, width) + rest).take(width as int) =~= be_bytes(n, width));
    lemma_be_value_of_bytes(n, width);
}

proof fn lemma_be_value_of_bytes(n: nat, width: nat)
    requires
        width <= 8,
        n < span(width),
    ensures
        be_value(be_bytes(n, width)) == n,
    decreases width,
{
    if width > 0 {
        let head = be_bytes(n / 256, (width - 1) as nat);
        lemma_be_bytes_len(n / 256, (width - 1) as nat);
        assert(be_bytes(n, width).drop_last() =~= head);
        lemma_be_value_of_bytes(n / 256, (width - 1) as nat);
    }
}

proof fn lemma_shift_digit(acc: u64, b: u8)
    requires
        acc < 0x100_0000_0000_0000,
    ensures
        ((acc << 8) | (b as u64)) == acc * 256 + b,
{
    assert(((acc << 8) | (b as u64)) == acc * 256 + b) by (bit_vector)
        requires
            acc < 0x100_0000_0000_0000,
    ;
}

proof fn lemma_low_digit(value: u64)
    ensures
        (value >> 8) == value / 256,
        ((value & 0xff) as u8) == value % 256,
{
    assert((value >> 8) == value / 256) by (bit_vector);
    assert(((value & 0xff) as u8) == value % 256) by (bit_vector);
}

proof fn lemma_u64_bits(v: i64)
    ensures
        (v as u64) as nat == to_bits64(v),
{
    assert(v >= 0 ==> (v as u64) == v) by (bit_vector);
    assert(v < 0 ==> (v as u64) == v + 0x1_0000_0000_0000_0000) by (bit_vector);
}

proof fn lemma_i64_bits(x: u64)
    ensures
        (x as i64) == from_bits64(x as nat),
{
    assert(x < 0x8000_0000_0000_0000 ==> (x as i64) == x) by (bit_vector);
    assert(x >= 0x8000_0000_0000_0000 ==> (x as i64) == x - 0x1_0000_0000_0000_0000)
        by (bit_vector);
}

/// Reads `width` bytes as one big-endian number. On failure nothing is consumed.
pub fn read_be(r: &mut Reader<'_>, width: usize) -> (res: Result<u64, ProtocolError>)
    requires
        width <= 8,
    ensures
        match fixed(old(r)@, width as nat) {
            Ok((n, k)) => res == Ok::<u64, ProtocolError>(n as u64) && n < span(width as nat)
                && final(r)@ == old(r)@.skip(k as int),
            Err(e) => res == Err::<u64, ProtocolError>(e) && final(r)@ == old(r)@,
        },
{
    let bytes = match r.take(width) {
        Ok(bytes) => bytes,
        Err(e) => {
            return Err(e);
        },
    };
    let mut acc: u64 = 0;
    let mut i: usize = 0;
    while i < width
        invariant
            i <= width <= 8,
            bytes@.len() == width,
            acc == be_value(bytes@.take(i as int)),
            acc < span(i as nat),
        decreases width - i,
    {
        let b = bytes[i];
        proof {
            let next = bytes@.take(i + 1);
            assert(next.drop_last() =~= bytes@.take(i as int));
            assert(next.last() == b);
            lemma_shift_digit(acc, b);
        }
        acc = (acc << 8) | (b as u64);
        i = i + 1;
    }
    proof {
        assert(bytes@.take(width as int) =~= bytes@);
    }
    Ok(acc)
}

/// Appends the `width` low base-256 digits of `value`, most significant first.
pub fn write_be(w: &mut Vec<u8>, value: u64, width: usize)
    ensures
        final(w)@ == old(w)@ + be_bytes(value as nat, width as nat),
    decreases width,
{
    if width > 0 {
        proof {
            lemma_low_digit(value);
        }
        write_be(w, value >> 8, width - 1);
        w.push((value & 0xff) as u8);
        proof {
            assert(w@ =~= old(w)@ + be_bytes(value as nat, width as nat));
        }
    } else {
        proof {
            assert(w@ =~= old(w)@ + be_bytes(value as nat, width as nat));
        }
    }
}

impl ProtoSerializable for u8 {
    open spec fn wire(v: u8) -> Result<Seq<u8>, ProtocolError> {
        Ok(seq![v])
    }

    open spec fn parse(input: Seq<u8>) -> Result<(u8, nat), ProtocolError> {
        if input.len() == 0 {
            Err(ProtocolError::UnexpectedEof)
        } else {
            Ok((input[0], 1))
        }
    }

    proof fn lemma_parse_within(input: Seq<u8>) {
    }

    fn read(r: &mut Reader<'_>) -> (res: Result<Self, ProtocolError>) {
        r.read_byte()
    }

    fn write(&self, w: &mut Vec<u8>) -> (res: Result<(), ProtocolError>) {
        w.push(*self);
        proof {
            assert(w@ =~= old(w)@ + seq![*self]);
        }
        Ok(())
    }
}

impl ProtoSerializable for bool {
    /// `true` is written as 1, `false` as 0.
    open spec fn wire(v: bool) -> Result<Seq<u8>, ProtocolError> {
        Ok(seq![if v { 1u8 } else { 0u8 }])
    }

    /// Zero reads as `false`, every other byte as `true`.
    open spec fn parse(input: Seq<u8>) -> Result<(bool, nat), ProtocolError> {
        if input.len() == 0 {
            Err(ProtocolError::UnexpectedEof)
        } else {
            Ok((input[0] != 0, 1))
        }
    }

    proof fn lemma_parse_within(input: Seq<u8>) {
    }

    fn read(r: &mut Reader<'_>) -> (res: Result<Self, ProtocolError>) {
        match r.read_byte() {
            Ok(b) => Ok(b != 0),
            Err(e) => Err(e),
        }
    }

    fn write(&self, w: &mut Vec<u8>) -> (res: Result<(), ProtocolError>) {
        let b: u8 = if *self { 1 } else { 0 };
        w.push(b);
        proof {
            assert(w@ =~= old(w)@ + seq![b]);
        }
        Ok(())
    }
}

impl ProtoSerializable for u16 {
    open spec fn wire(v: u16) -> Result<Seq<u8>, ProtocolError> {
        Ok(be_bytes(v as nat, 2))
    }

    open spec fn parse(input: Seq<u8>) -> Result<(u16, nat), ProtocolError> {
        match fixed(input, 2) {
            Ok((n, k)) => Ok((n as u16, k)),
            Err(e) => Err(e),
        }
    }

    proof fn lemma_parse_within(input: Seq<u8>) {
    }

    fn read(r: &mut Reader<'_>) -> (res: Result<Self, ProtocolError>) {
        match read_be(r, 2) {
            Ok(n) => Ok(n as u16),
            Err(e) => Err(e),
        }
    }

    fn write(&self, w: &mut Vec<u8>) -> (res: Result<(), ProtocolError>) {
        write_be(w, *self as u64, 2);
        Ok(())
    }
}

impl ProtoSerializable for i32 {
    open spec fn wire(v: i32) -> Result<Seq<u8>, ProtocolError> {
        Ok(be_bytes(to_bits(v), 4))
    }

    open spec fn parse(input: Seq<u8>) -> Result<(i32, nat), ProtocolError> {
        match fixed(input, 4) {
            Ok((n, k)) => Ok((from_bits(n), k)),
            Err(e) => Err(e),
        }
    }

    proof fn lemma_parse_within(input: Seq<u8>) {
    }

    fn read(r: &mut Reader<'_>) -> (res: Result<Self, ProtocolError>) {
        match read_be(r, 4) {
            Ok(n) => {
                let bits: u32 = n as u32;
                proof {
                    lemma_i32_bits(bits);
                }
                Ok(bits as i32)
            },
            Err(e) => Err(e),
        }
    }

    fn write(&self, w: &mut Vec<u8>) -> (res: Result<(), ProtocolError>) {
        proof {
            lemma_u32_bits(*self);
        }
        write_be(w, (*self as u32) as u64, 4);
        Ok(())
    }
}

impl ProtoSerializable for i64 {
    open spec fn wire(v: i64) -> Result<Seq<u8>, ProtocolError> {
        Ok(be_bytes(to_bits64(v), 8))
    }

    open spec fn parse(input: Seq<u8>) -> Result<(i64, nat), ProtocolError> {
        match fixed(input, 8) {
            Ok((n, k)) => Ok((from_bits64(n), k)),
            Err(e) => Err(e),
        }
    }

    proof fn lemma_parse_within(input: Seq<u8>) {
    }

    fn read(r: &mut Reader<'_>) -> (res: Result<Self, ProtocolError>) {
        match read_be(r, 8) {
            Ok(n) => {
                proof {
                    lemma_i64_bits(n);
                }
                Ok(n as i64)
            },
            Err(e) => Err(e),
        }
    }

    fn write(&self, w: &mut Vec<u8>) -> (res: Result<(), ProtocolError>) {
        proof {
            lemma_u64_bits(*self);
        }
        write_be(w, *self as u64, 8);
        Ok(())
    }
}

/// A single-precision floating-point number, held as its IEEE 754 bit pattern.
#[derive(Debug, Clone, Copy, PartialEq, Eq, Structural)]
pub struct Float(pub u32);

impl View for Float {
    type V = u32;

    open spec fn view(&self) -> u32 {
        self.0
    }
}

impl ProtoSerializable for Float {
    open spec fn wire(v: u32) -> Result<Seq<u8>, ProtocolError> {
        Ok(be_bytes(v as nat, 4))
    }

    open spec fn parse(input: Seq<u8>) -> Result<(u32, nat), ProtocolError> {
        match fixed(input, 4) {
            Ok((n, k)) => Ok((n as u32, k)),
            Err(e) => Err(e),
        }
    }

    proof fn lemma_parse_within(input: Seq<u8>) {
    }

    fn read(r: &mut Reader<'_>) -> (res: Result<Self, ProtocolError>) {
        match read_be(r, 4) {
            Ok(n) => Ok(Float(n as u32)),
            Err(e) => Err(e),
        }
    }

    fn write(&self, w: &mut Vec<u8>) -> (res: Result<(), ProtocolError>) {
        write_be(w, self.0 as u64, 4);
        Ok(())
    }
}

/// A double-precision floating-point number, held as its IEEE 754 bit pattern.
#[derive(Debug, Clone, Copy, PartialEq, Eq, Structural)]
pub struct Double(pub u64);

impl View for Double {
    type V = u64;

    open spec fn view(&self) -> u64 {
        self.0
    }
}

impl ProtoSerializable for Double {
    open spec fn wire(v: u64) -> Result<Seq<u8>, ProtocolError> {
        Ok(be_bytes(v as nat, 8))
    }

    open spec fn parse(input: Seq<u8>) -> Result<(u64, nat), ProtocolError> {
        match fixed(input, 8) {
            Ok((n, k)) => Ok((n as u64, k)),
            Err(e) => Err(e),
        }
    }

    proof fn lemma_parse_within(input: Seq<u8>) {
    }

    fn read(r: &mut Reader<'_>) -> (res: Result<Self, ProtocolError>) {
        match read_be(r, 8) {
            Ok(n) => Ok(Double(n)),
            Err(e) => Err(e),
        }
    }

    fn write(&self, w: &mut Vec<u8>) -> (res: Result<(), ProtocolError>) {
        write_be(w, self.0, 8);
        Ok(())
    }
}

impl RoundTrip for u8 {
    proof fn lemma_round_trip(v: u8, rest: Seq<u8>) {
        assert((seq![v] + rest)[0] == v);
    }
}

impl RoundTrip for bool {
    proof fn lemma_round_trip(v: bool, rest: Seq<u8>) {
        let b = if v { 1u8 } else { 0u8 };
        assert((seq![b] + rest)[0] == b);
    }
}

impl RoundTrip for u16 {
    proof fn lemma_round_trip(v: u16, rest: Seq<u8>) {
        lemma_be_round_trip(v as nat, 2, rest);
        lemma_be_bytes_len(v as nat, 2);
    }
}

impl RoundTrip for i32 {
    proof fn lemma_round_trip(v: i32, rest: Seq<u8>) {
        lemma_be_round_trip(to_bits(v), 4, rest);
        lemma_be_bytes_len(to_bits(v), 4);
    }
}

impl RoundTrip for i64 {
    proof fn lemma_round_trip(v: i64, rest: Seq<u8>) {
        lemma_be_round_trip(to_bits64(v), 8, rest);
        lemma_be_bytes_len(to_bits64(v), 8);
    }
}

impl RoundTrip for Float {
    proof fn lemma_round_trip(v: u32, rest: Seq<u8>) {
        lemma_be_round_trip(v as nat, 4, rest);
        lemma_be_bytes_len(v as nat, 4);
    }
}

impl RoundTrip for Double {
    proof fn lemma_round_trip(v: u64, rest: Seq<u8>) {
        lemma_be_round_trip(v as nat, 8, rest);
        lemma_be_bytes_len(v as nat, 8);
    }
}

} // verus!
