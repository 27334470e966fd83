//! The wire codec: a byte source, and the trait of everything that can be
//! read from and written to the wire.

pub mod fields;
pub mod scalars;
pub mod string;
pub mod varint;

use vstd::prelude::*;
use vstd::slice::slice_subrange;
use crate::error::ProtocolError;
use crate::net::proto::varint::Varint;

verus! {

/// Name of the supported game version.
pub const PROTO_NAME: &'static str = "1.15.2";

/// Number of the supported protocol version.
pub const PROTO_VERSION: i32 = 578;

/// A sequential byte source over a borrowed buffer: what has not been read yet.
#[derive(Clone, Copy, Debug)]
pub struct Reader<'a> {
    rest: &'a [u8],
}

impl<'a> View for Reader<'a> {
    type V = Seq<u8>;

    /// The bytes still to be read, in order.
    closed spec fn view(&self) -> Seq<u8> {
        self.rest@
    }
}

impl<'a> Reader<'a> {
    /// A reader at the start of `data`.
    pub fn new(data: &'a [u8]) -> (r: Self)
        ensures
            r@ == data@,
    {
        Reader { rest: data }
    }

    /// How many bytes are left.
    pub fn remaining(&self) -> (n: usize)
        ensures
            n == self@.len(),
    {
        self.rest.len()
    }

    /// The bytes that are left, without reading them.
    pub fn rest(&self) -> (s: &'a [u8])
        ensures
            s@ == self@,
    {
        self.rest
    }

    /// Reads exactly `n` bytes, or nothing if fewer are left.
    pub fn take(&mut self, n: usize) -> (res: Result<&'a [u8], ProtocolError>)
        ensures
            match res {
                Ok(s) => n <= old(self)@.len() && s@ == old(self)@.take(n as int) && final(self)@
                    == old(self)@.skip(n as int),
                Err(e) => n > old(self)@.len() && e == ProtocolError::UnexpectedEof && final(self)@
                    == old(self)@,
            },
    {
        let len = self.rest.len();
        if n > len {
            return Err(ProtocolError::UnexpectedEof);
        }
        let head = slice_subrange(self.rest, 0, n);
        let tail = slice_subrange(self.rest, n, len);
        self.rest = tail;
        Ok(head)
    }

    /// Reads one byte.
    pub fn read_byte(&mut self) -> (res: Result<u8, ProtocolError>)
        ensures
            old(self)@.len() > 0 ==> res == Ok::<u8, ProtocolError>(old(self)@[0]) && final(self)@
                == old(self)@.skip(1),
            old(self)@.len() == 0 ==> res == Err::<u8, ProtocolError>(ProtocolError::UnexpectedEof)
                && final(self)@ == old(self)@,
    {
        let len = self.rest.len();
        if len == 0 {
            return Err(ProtocolError::UnexpectedEof);
        }
        let b = self.rest[0];
        self.rest = slice_subrange(self.rest, 1, len);
        Ok(b)
    }
}

/// A value with a wire form.
///
/// `wire` and `parse` say, over views, what the bytes of a value are and which
/// value a byte sequence starts with; `write` and `read` do exactly that.
pub trait ProtoSerializable: Sized + View {
    /// The bytes that stand for a value on the wire, or why it cannot be written.
    spec fn wire(v: Self::V) -> Result<Seq<u8>, ProtocolError>;

    /// The value that `input` starts with and the number of bytes it takes,
    /// or why there is none.
    spec fn parse(input: Seq<u8>) -> Result<(Self::V, nat), ProtocolError>;

    /// A parse never takes more bytes than there are.
    proof fn lemma_parse_within(input: Seq<u8>)
        ensures
            Self::parse(input) matches Ok((_, n)) ==> n <= input.len(),
    ;

    /// Reads one value from the head of `r`. On failure nothing is consumed.
    fn read(r: &mut Reader<'_>) -> (res: Result<Self, ProtocolError>)
        ensures
            match Self::parse(old(r)@) {
                Ok((v, n)) => res is Ok && res->Ok_0@ == v && final(r)@ == old(r)@.skip(n as int),
                Err(e) => res is Err && res->Err_0 == e && final(r)@ == old(r)@,
            },
    ;

    /// Appends the wire form of `self` to `w`. On failure nothing is appended.
    fn write(&self, w: &mut Vec<u8>) -> (res: Result<(), ProtocolError>)
        ensures
            match Self::wire(self@) {
                Ok(bytes) => res is Ok && final(w)@ == old(w)@ + bytes,
                Err(e) => res is Err && res->Err_0 == e && final(w)@ == old(w)@,
            },
    ;
}

/// A wire form that reads back: what was written for a value parses as that
/// value and takes exactly the bytes written, whatever follows them.
pub trait RoundTrip: ProtoSerializable {
    proof fn lemma_round_trip(v: Self::V, rest: Seq<u8>)
        ensures
            Self::wire(v) is Ok ==> Self::parse(Self::wire(v)->Ok_0 + rest) == Ok::<
                (Self::V, nat),
                ProtocolError,
            >((v, Self::wire(v)->Ok_0.len())),
    ;
}

/// What `read` promises: the parse of the bytes before, and the bytes after.
pub open spec fn read_as<T: ProtoSerializable>(
    before: Seq<u8>,
    after: Seq<u8>,
    res: Result<T, ProtocolError>,
) -> bool {
    match T::parse(before) {
        Ok((v, n)) => res is Ok && res->Ok_0@ == v && after == before.skip(n as int),
        Err(e) => res is Err && res->Err_0 == e && after == before,
    }
}

/// Reads one value of type `T` from the head of `r`.
pub fn read<T: ProtoSerializable>(r: &mut Reader<'_>) -> (res: Result<T, ProtocolError>)
    ensures
        read_as(old(r)@, final(r)@, res),
{
    T::read(r)
}

/// Reads a variable-length integer without going through the wrapper type.
pub fn read_varint(r: &mut Reader<'_>) -> (res: Result<i32, ProtocolError>)
    ensures
        match Varint::parse(old(r)@) {
            Ok((v, n)) => res == Ok::<i32, ProtocolError>(v) && final(r)@ == old(r)@.skip(n as int),
            Err(e) => res == Err::<i32, ProtocolError>(e) && final(r)@ == old(r)@,
        },
{
    match read::<Varint>(r) {
        Ok(v) => Ok(v.0),
        Err(e) => Err(e),
    }
}

/// Writes a variable-length integer without going through the wrapper type.
pub fn write_varint(w: &mut Vec<u8>, v: i32) -> (res: Result<(), ProtocolError>)
    ensures
        res is Ok,
        final(w)@ == old(w)@ + varint::encoding(v),
{
    let v = Varint(v);
    v.write(w)
}

} // verus!
