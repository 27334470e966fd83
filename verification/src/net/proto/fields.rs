//! Values in a row: the wire form of a pair is the wire form of its first
//! part followed by that of its second, so a packet's payload is its fields
//! nested to the right, and the empty payload is the unit.

use vstd::prelude::*;
use crate::error::ProtocolError;
use crate::net::proto::{ProtoSerializable, Reader, RoundTrip};

verus! {

/// Two wire forms one after the other; the first refusal wins.
pub open spec fn wire_then(
    first: Result<Seq<u8>, ProtocolError>,
    second: Result<Seq<u8>, ProtocolError>,
) -> Result<Seq<u8>, ProtocolError> {
    match first {
        Err(e) => Err(e),
        Ok(a) => match second {
            Err(e) => Err(e),
            Ok(b) => Ok(a + b),
        },
    }
}

/// Appends the wire form of `value` to `w`. On failure `w` is cut back to
/// its first `mark` bytes.
pub fn write_field<T: ProtoSerializable>(value: &T, w: &mut Vec<u8>, mark: usize) -> (res: Result<
    (),
    ProtocolError,
>)
    requires
        mark <= old(w)@.len(),
    ensures
        match T::wire(value@) {
            Ok(bytes) => res is Ok && final(w)@ == old(w)@ + bytes,
            Err(e) => res is Err && res->Err_0 == e && final(w)@ == old(w)@.take(mark as int),
        },
{
    match value.write(w) {
        Ok(()) => Ok(()),
        Err(e) => {
            w.truncate(mark);
            Err(e)
        },
    }
}

impl ProtoSerializable for () {
    open spec fn wire(v: ()) -> Result<Seq<u8>, ProtocolError> {
        Ok(Seq::empty())
    }

    open spec fn parse(input: Seq<u8>) -> Result<((), nat), ProtocolError> {
        Ok(((), 0))
    }

    proof fn lemma_parse_within(input: Seq<u8>) {
    }

    fn read(r: &mut Reader<'_>) -> (res: Result<Self, ProtocolError>) {
        proof {
            assert(r@.skip(0) =~= r@);
        }
        Ok(())
    }

    fn write(&self, w: &mut Vec<u8>) -> (res: Result<(), ProtocolError>) {
        proof {
            assert(w@ + Seq::<u8>::empty() =~= w@);
        }
        Ok(())
    }
}

impl RoundTrip for () {
    proof fn lemma_round_trip(v: (), rest: Seq<u8>) {
    }
}

impl<A: ProtoSerializable, B: ProtoSerializable> ProtoSerializable for (A, B) {
    open spec fn wire(v: (A::V, B::V)) -> Result<Seq<u8>, ProtocolError> {
        wire_then(A::wire(v.0), B::wire(v.1))
    }

    open spec fn parse(input: Seq<u8>) -> Result<((A::V, B::V), nat), ProtocolError> {
        match A::parse(input) {
            Err(e) => Err(e),
            Ok((a, n)) => match B::parse(input.skip(n as int)) {
                Err(e) => Err(e),
                Ok((b, m)) => Ok(((a, b), n + m)),
            },
        }
    }

    proof fn lemma_parse_within(input: Seq<u8>) {
        A::lemma_parse_within(input);
        if let Ok((_, n)) = A::parse(input) {
            B::lemma_parse_within(input.skip(n as int));
        }
    }

    fn read(r: &mut Reader<'_>) -> (res: Result<Self, ProtocolError>) {
        let mut c = *r;
        let a = match A::read(&mut c) {
            Ok(a) => a,
            Err(e) => {
                return Err(e);
            },
        };
        let ghost mid = c@;
        let b = match B::read(&mut c) {
            Ok(b) => b,
            Err(e) => {
                return Err(e);
            },
        };
        proof {
            let n = A::parse(r@)->Ok_0.1;
            let m = B::parse(mid)->Ok_0.1;
            A::lemma_parse_within(r@);
            B::lemma_parse_within(mid);
            assert(r@.skip(n as int).skip(m as int) =~= r@.skip((n + m) as int));
        }
        *r = c;
        Ok((a, b))
    }

    fn write(&self, w: &mut Vec<u8>) -> (res: Result<(), ProtocolError>) {
        let mark = w.len();
        match write_field(&self.0, w, mark) {
            Ok(()) => {},
            Err(e) => {
                proof {
                    assert(old(w)@.take(mark as int) =~= old(w)@);
                }
                return Err(e);
            },
        }
        match write_field(&self.1, w, mark) {
            Ok(()) => {},
            Err(e) => {
                proof {
                    assert(w@ =~= old(w)@);
                }
                return Err(e);
            },
        }
        proof {
            let a = A::wire(self.0@)->Ok_0;
            let b = B::wire(self.1@)->Ok_0;
            assert((old(w)@ + a) + b =~= old(w)@ + (a + b));
        }
        Ok(())
    }
}

impl<A: RoundTrip, B: RoundTrip> RoundTrip for (A, B) {
    proof fn lemma_round_trip(v: (A::V, B::V), rest: Seq<u8>) {
        if Self::wire(v) is Ok {
            let a = A::wire(v.0)->Ok_0;
            let b = B::wire(v.1)->Ok_0;
            A::lemma_round_trip(v.0, b + rest);
            B::lemma_round_trip(v.1, rest);
            assert((a + b) + rest =~= a + (b + rest));
            assert((a + (b + rest)).skip(a.len() as int) =~= b + rest);
        }
    }
}

} // verus!
