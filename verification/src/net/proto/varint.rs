//! The variable-length integer: a signed 32-bit value sent as one to five
//! bytes, seven bits to a byte, low group first, the high bit of a byte
//! saying that another byte follows.

use vstd::prelude::*;
use crate::error::ProtocolError;
use crate::net::proto::{ProtoSerializable, Reader, RoundTrip};

verus! {

/// A signed 32-bit integer that travels in the variable-length form.
#[derive(Debug, Clone, Copy, PartialEq, Eq, Structural)]
pub struct Varint(pub i32);

impl View for Varint {
    type V = i32;

    open spec fn view(&self) -> i32 {
        self.0
    }
}

/// The two's-complement bit pattern of `v`, read as an unsigned number.
pub open spec fn to_bits(v: i32) -> nat {
    if v >= 0 {
        v as nat
    } else {
        (v + 0x1_0000_0000) as nat
    }
}

/// The signed value whose bit pattern is the low 32 bits of `n`.
pub open spec fn from_bits(n: nat) -> i32 {
    let low = n % 0x1_0000_0000;
    if low < 0x8000_0000 {
        low as i32
    } else {
        (low - 0x1_0000_0000) as i32
    }
}

/// The groups of seven bits of `n`, low group first, each but the last with
/// the continuation bit set.
pub open spec fn groups(n: nat) -> Seq<u8>
    decreases n,
{
    if n < 128 {
        seq![n as u8]
    } else {
        seq![(n % 128 + 128) as u8] + groups(n / 128)
    }
}

/// The number that the groups at the head of `input` spell, and how many
/// bytes they take, reading at most `budget` bytes.
///
/// A byte below 128 ends the number. Input that ends first is short; a
/// number that has not ended within the budget is too long.
pub open spec fn ungroup(input: Seq<u8>, budget: nat) -> Result<(nat, nat), ProtocolError>
    decreases budget,
{
    if budget == 0 {
        Err(ProtocolError::LengthOutOfRange)
    } else if input.len() == 0 {
        Err(ProtocolError::UnexpectedEof)
    } else if input[0] < 128 {
        Ok((input[0] as nat, 1))
    } else {
        match ungroup(input.drop_first(), (budget - 1) as nat) {
            Ok((n, k)) => Ok(((input[0] - 128 + 128 * n) as nat, k + 1)),
            Err(e) => Err(e),
        }
    }
}

/// The bytes of `v` on the wire.
pub open spec fn encoding(v: i32) -> Seq<u8> {
    groups(to_bits(v))
}

/// The integer that `input` starts with and the bytes it takes. Bits of the
/// fifth byte beyond the thirty-second are dropped.
pub open spec fn decoding(input: Seq<u8>) -> Result<(i32, nat), ProtocolError> {
    match ungroup(input, 5) {
        Ok((n, k)) => Ok((from_bits(n), k)),
        Err(e) => Err(e),
    }
}

proof fn lemma_ungroup_within(input: Seq<u8>, budget: nat)
    ensures
        ungroup(input, budget) is Ok ==> 1 <= ungroup(input, budget)->Ok_0.1 <= input.len()
            && ungroup(input, budget)->Ok_0.1 <= budget,
    decreases budget,
{
    if budget > 0 && input.len() > 0 && input[0] >= 128 {
        lemma_ungroup_within(input.drop_first(), (budget - 1) as nat);
    }
}

/// Casting to the unsigned type keeps the bit pattern.
pub proof fn lemma_u32_bits(v: i32)
    ensures
        (v as u32) as nat == to_bits(v),
{
    assert(v >= 0 ==> (v as u32) == v) by (bit_vector);
    assert(v < 0 ==> (v as u32) == v + 0x1_0000_0000) by (bit_vector);
}

/// Casting to the signed type keeps the bit pattern.
pub proof fn lemma_i32_bits(x: u32)
    ensures
        (x as i32) == from_bits(x as nat),
{
    assert(x < 0x8000_0000 ==> (x as i32) == x) by (bit_vector);
    assert(x >= 0x8000_0000 ==> (x as i32) == x - 0x1_0000_0000) by (bit_vector);
}

proof fn lemma_split_group(val: u32)
    ensures
        (val & 0x7f) == val % 128,
        (val >> 7) == val / 128,
        ((val & 0x7f) as u8) == val % 128,
        (((val & 0x7f) as u8) | 0x80u8) == val % 128 + 128,
{
    assert((val & 0x7f) == val % 128) by (bit_vector);
    assert((val >> 7) == val / 128) by (bit_vector);
    assert(((val & 0x7f) as u8) == val % 128) by (bit_vector);
    assert((((val & 0x7f) as u8) | 0x80u8) == val % 128 + 128) by (bit_vector);
}

proof fn lemma_byte_group(b: u8)
    ensures
        (b & 0x7f) == (if b < 128 { b as int } else { b - 128 }),
        (b & 0x80 != 0) == (b >= 128),
{
    assert((b & 0x7f) == (if b < 128 { b as int } else { b - 128 })) by (bit_vector);
    assert((b & 0x80 != 0) == (b >= 128)) by (bit_vector);
}

/// Placing a group above the groups read so far adds its weight; what runs
/// past the thirty-second bit is lost.
proof fn lemma_place_group(acc: u32, val: u32, i: u32)
    requires
        i <= 4,
        val < 128,
        acc < (1u32 << (7 * i)),
    ensures
        (acc | (val << (7 * i))) == (acc + val * (1u32 << (7 * i))) % 0x1_0000_0000,
{
    assert((acc | (val << (7 * i))) == (acc + val * (1u32 << (7 * i))) % 0x1_0000_0000)
        by (bit_vector)
        requires
            i <= 4,
            val < 128,
            acc < (1u32 << (7 * i)),
    ;
}

/// The weight of the group at position `i`.
spec fn weight(i: nat) -> nat {
    if i == 0 {
        1
    } else if i == 1 {
        128
    } else if i == 2 {
        16384
    } else if i == 3 {
        2097152
    } else {
        268435456
    }
}

proof fn lemma_weight_shift(i: u32)
    requires
        i <= 4,
    ensures
        (1u32 << (7 * i)) == weight(i as nat),
{
    assert((1u32 << 0u32) == 1) by (bit_vector);
    assert((1u32 << 7u32) == 128) by (bit_vector);
    assert((1u32 << 14u32) == 16384) by (bit_vector);
    assert((1u32 << 21u32) == 2097152) by (bit_vector);
    assert((1u32 << 28u32) == 268435456) by (bit_vector);
}

/// 128 to the power `k`.
spec fn pow128(k: nat) -> nat
    decreases k,
{
    if k == 0 {
        1
    } else {
        128 * pow128((k - 1) as nat)
    }
}

proof fn lemma_groups_read_back(n: nat, k: nat, budget: nat, rest: Seq<u8>)
    requires
        n < pow128(k),
        1 <= k <= budget,
    ensures
        1 <= groups(n).len() <= k,
        ungroup(groups(n) + rest, budget) == Ok::<(nat, nat), ProtocolError>((n, groups(n).len())),
    decreases k,
{
    let input = groups(n) + rest;
    if n < 128 {
        assert(input[0] == n);
    } else {
        assert(k >= 2) by {
            if k == 1 {
                assert(pow128(1) == 128 * pow128(0));
            }
        }
        let tail = groups(n / 128);
        assert(input[0] == n % 128 + 128);
        assert(input.drop_first() =~= tail + rest);
        lemma_groups_read_back(n / 128, (k - 1) as nat, (budget - 1) as nat, rest);
    }
}

/// Every integer reads back from its own encoding, whatever follows it, and
/// an encoding has from one to five bytes.
pub proof fn lemma_varint_round_trip(v: i32, rest: Seq<u8>)
    ensures
        1 <= encoding(v).len() <= 5,
        decoding(encoding(v) + rest) == Ok::<(i32, nat), ProtocolError>((v, encoding(v).len())),
{
    assert(pow128(5) == 34359738368) by {
        reveal_with_fuel(pow128, 6);
    }
    lemma_groups_read_back(to_bits(v), 5, 5, rest);
}

proof fn lemma_groups_cut_short(n: nat, k: nat, budget: nat, cut: int)
    requires
        n < pow128(k),
        1 <= k <= budget,
        0 <= cut < groups(n).len(),
    ensures
        ungroup(groups(n).take(cut), budget) == Err::<(nat, nat), ProtocolError>(
            ProtocolError::UnexpectedEof,
        ),
    decreases k,
{
    let input = groups(n).take(cut);
    if n >= 128 && cut > 0 {
        assert(k >= 2) by {
            if k == 1 {
                assert(pow128(1) == 128 * pow128(0));
            }
        }
        let tail = groups(n / 128);
        assert(input[0] == n % 128 + 128);
        assert(input.drop_first() =~= tail.take(cut - 1));
        lemma_groups_cut_short(n / 128, (k - 1) as nat, (budget - 1) as nat, cut - 1);
    }
}

/// An encoding cut short anywhere is short input, never a number.
pub proof fn lemma_varint_truncated(v: i32, cut: int)
    requires
        0 <= cut < encoding(v).len(),
    ensures
        decoding(encoding(v).take(cut)) == Err::<(i32, nat), ProtocolError>(
            ProtocolError::UnexpectedEof,
        ),
{
    assert(pow128(5) == 34359738368) by {
        reveal_with_fuel(pow128, 6);
    }
    lemma_groups_cut_short(to_bits(v), 5, 5, cut);
}

proof fn lemma_ungroup_unended(input: Seq<u8>, budget: nat)
    requires
        input.len() >= budget,
        forall|i: int| 0 <= i < budget ==> input[i] >= 128,
    ensures
        ungroup(input, budget) == Err::<(nat, nat), ProtocolError>(
            ProtocolError::LengthOutOfRange,
        ),
    decreases budget,
{
    if budget > 0 {
        let tail = input.drop_first();
        assert forall|i: int| 0 <= i < budget - 1 implies tail[i] >= 128 by {
            assert(tail[i] == input[i + 1]);
        }
        lemma_ungroup_unended(tail, (budget - 1) as nat);
    }
}

/// Five bytes that all announce another byte are refused, whatever follows.
pub proof fn lemma_varint_overlong(input: Seq<u8>)
    requires
        input.len() >= 5,
        forall|i: int| 0 <= i < 5 ==> input[i] >= 128,
    ensures
        decoding(input) == Err::<(i32, nat), ProtocolError>(ProtocolError::LengthOutOfRange),
{
    lemma_ungroup_unended(input, 5);
}

impl From<i32> for Varint {
    fn from(v: i32) -> (r: Self) {
        Varint(v)
    }
}

impl vstd::std_specs::convert::FromSpecImpl<i32> for Varint {
    open spec fn obeys_from_spec() -> bool {
        true
    }

    open spec fn from_spec(v: i32) -> Self {
        Varint(v)
    }
}

impl ProtoSerializable for Varint {
    open spec fn wire(v: i32) -> Result<Seq<u8>, ProtocolError> {
        Ok(encoding(v))
    }

    open spec fn parse(input: Seq<u8>) -> Result<(i32, nat), ProtocolError> {
        decoding(input)
    }

    proof fn lemma_parse_within(input: Seq<u8>) {
        lemma_ungroup_within(input, 5);
        assert(Self::parse(input) is Ok ==> Self::parse(input)->Ok_0.1 == ungroup(
            input,
            5,
        )->Ok_0.1);
    }

    fn read(r: &mut Reader<'_>) -> (res: Result<Self, ProtocolError>) {
        let mut c = *r;
        let mut acc: u32 = 0;
        let mut i: u32 = 0;
        let ghost start = r@;
        loop
            invariant
                i <= 4,
                acc < weight(i as nat),
                *r == *old(r),
                start == old(r)@,
                c@ == start.skip(i as int),
                i <= start.len(),
                ungroup(start, 5) == (match ungroup(c@, (5 - i) as nat) {
                    Ok((n, k)) => Ok::<(nat, nat), ProtocolError>(
                        ((acc + weight(i as nat) * n) as nat, k + i as nat),
                    ),
                    Err(e) => Err(e),
                }),
            decreases 5 - i,
        {
            let ghost before = c@;
            let b = match c.read_byte() {
                Ok(b) => b,
                Err(e) => {
                    return Err(e);
                },
            };
            let val: u32 = (b & 0x7f) as u32;
            let more = b & 0x80 != 0;
            proof {
                lemma_byte_group(b);
                lemma_weight_shift(i);
                lemma_place_group(acc, val, i);
                assert(c@ == before.drop_first());
                assert(c@ == start.skip(i + 1));
            }
            if i == 4 && more {
                return Err(ProtocolError::LengthOutOfRange);
            }
            if !more {
                let total: u32 = acc | (val << (7 * i));
                proof {
                    lemma_i32_bits(total);
                    assert(weight(i as nat) * (b as nat) == (b as nat) * weight(i as nat))
                        by (nonlinear_arith);
                }
                *r = c;
                return Ok(Varint(total as i32));
            }
            proof {
                let w = weight(i as nat);
                let x = (b - 128) as nat;
                assert(weight((i + 1) as nat) == 128 * w);
                assert(acc + w * x < 128 * w) by (nonlinear_arith)
                    requires
                        acc < w,
                        x < 128,
                ;
                assert(acc + w * x == (acc + val * (1u32 << (7 * i)))) by (nonlinear_arith)
                    requires
                        val == x,
                        (1u32 << (7 * i)) == w,
                ;
                if let Ok((n, _)) = ungroup(c@, (4 - i) as nat) {
                    assert(acc + w * (x + 128 * n) == (acc + w * x) + (128 * w) * n)
                        by (nonlinear_arith);
                }
            }
            acc = acc | (val << (7 * i));
            i = i + 1;
        }
    }

    fn write(&self, w: &mut Vec<u8>) -> (res: Result<(), ProtocolError>) {
        let mut val: u32 = self.0 as u32;
        let ghost start = w@;
        proof {
            lemma_u32_bits(self.0);
        }
        loop
            invariant_except_break
                start + groups(to_bits(self.0)) == w@ + groups(val as nat),
            ensures
                w@ == start + groups(to_bits(self.0)),
            decreases val,
        {
            let low: u8 = (val & 0x7f) as u8;
            let next: u32 = val >> 7;
            proof {
                lemma_split_group(val);
            }
            if next == 0 {
                w.push(low);
                proof {
                    assert(groups(val as nat) == seq![low]);
                    assert(w@ == start + groups(to_bits(self.0)));
                }
                break;
            }
            let ghost before = w@;
            w.push(low | 0x80);
            proof {
                assert(groups(val as nat) == seq![(low | 0x80u8)] + groups(next as nat));
                assert(before + (seq![(low | 0x80u8)] + groups(next as nat)) == w@ + groups(
                    next as nat,
                ));
            }
            val = next;
        }
        Ok(())
    }
}

impl RoundTrip for Varint {
    proof fn lemma_round_trip(v: i32, rest: Seq<u8>) {
        lemma_varint_round_trip(v, rest);
    }
}

} // verus!
