//! Frames: a length, a discriminator and a payload; and what every typed
//! packet declares of itself.

use vstd::prelude::*;
use vstd::slice::slice_to_vec;
use crate::error::ProtocolError;
use crate::net::connection::State;
use crate::net::proto::{ProtoSerializable, Reader, read_varint, write_varint};
use crate::net::proto::varint;

verus! {

/// The largest length that a frame may declare: 2 MiB.
pub const MAX_PACKET_BYTES: usize = 2097152;

/// A packet that a client sends: its discriminator and the phase it belongs to.
pub trait ServerboundPacket: ProtoSerializable {
    /// The discriminator of the packet within its phase.
    const ID: i32;

    /// The discriminator of the packet within its phase, as contracts name it.
    spec fn packet_id() -> i32;

    /// `ID` is the discriminator that the contracts name.
    proof fn lemma_id()
        ensures
            Self::ID == Self::packet_id(),
    ;

    /// The phase in which the packet is received.
    spec fn phase() -> State;

    /// The phase in which the packet is received.
    fn state() -> (s: State)
        ensures
            s == Self::phase(),
    ;
}

/// A packet that the server sends: its discriminator and the phase it belongs to.
pub trait ClientboundPacket: ProtoSerializable {
    /// The discriminator of the packet within its phase.
    const ID: i32;

    /// The discriminator of the packet within its phase, as contracts name it.
    spec fn packet_id() -> i32;

    /// `ID` is the discriminator that the contracts name.
    proof fn lemma_id()
        ensures
            Self::ID == Self::packet_id(),
    ;

    /// The phase in which the packet is sent.
    spec fn phase() -> State;

    /// The phase in which the packet is sent.
    fn state() -> (s: State)
        ensures
            s == Self::phase(),
    ;
}

/// One frame's content: the discriminator, and the payload still undecoded.
#[derive(Debug, Clone, PartialEq, Eq)]
pub struct RawPacket {
    pub packet_id: i32,
    pub data: Vec<u8>,
}

/// A frame's content as plain values.
pub struct RawPacketView {
    pub packet_id: i32,
    pub data: Seq<u8>,
}

impl View for RawPacket {
    type V = RawPacketView;

    open spec fn view(&self) -> RawPacketView {
        RawPacketView { packet_id: self.packet_id, data: self.data@ }
    }
}

/// The number of bytes that a frame declaring `declared` has, unless the
/// declaration is negative or above the ceiling.
pub open spec fn declared_length(declared: i32) -> Result<nat, ProtocolError> {
    if declared < 0 || declared > MAX_PACKET_BYTES {
        Err(ProtocolError::FrameTooLarge)
    } else {
        Ok(declared as nat)
    }
}

/// A frame's body taken apart: the discriminator at its head, the payload behind it.
pub open spec fn body_decoding(body: Seq<u8>) -> Result<RawPacketView, ProtocolError> {
    match varint::decoding(body) {
        Err(e) => Err(e),
        Ok((id, k)) => Ok(RawPacketView { packet_id: id, data: body.skip(k as int) }),
    }
}

/// The frame that `input` starts with and the bytes it takes.
///
/// The declared length is judged before the body is looked at, and the body
/// must be there in full before it is taken apart.
pub open spec fn frame_decoding(input: Seq<u8>) -> Result<(RawPacketView, nat), ProtocolError> {
    match varint::decoding(input) {
        Err(e) => Err(e),
        Ok((declared, k)) => match declared_length(declared) {
            Err(e) => Err(e),
            Ok(len) => if input.len() - k < len {
                Err(ProtocolError::UnexpectedEof)
            } else {
                match body_decoding(input.subrange(k as int, (k + len) as int)) {
                    Err(e) => Err(e),
                    Ok(packet) => Ok((packet, k + len)),
                }
            },
        },
    }
}

/// The frame of a discriminator and a payload: the length of the two, then
/// the two. A body whose length does not fit the length field is refused.
pub open spec fn frame_encoding(packet_id: i32, payload: Seq<u8>) -> Result<
    Seq<u8>,
    ProtocolError,
> {
    let body = varint::encoding(packet_id) + payload;
    if body.len() > i32::MAX {
        Err(ProtocolError::FrameTooLarge)
    } else {
        Ok(varint::encoding(body.len() as i32) + body)
    }
}

/// The frame of a typed payload under a discriminator.
pub open spec fn packet_encoding<P: ProtoSerializable>(packet_id: i32, payload: P::V) -> Result<
    Seq<u8>,
    ProtocolError,
> {
    match P::wire(payload) {
        Err(e) => Err(e),
        Ok(bytes) => frame_encoding(packet_id, bytes),
    }
}

/// A payload read as a `P`: the value, and how many bytes are left behind it.
pub open spec fn payload_decoding<P: ProtoSerializable>(data: Seq<u8>) -> Result<
    (P::V, nat),
    ProtocolError,
> {
    match P::parse(data) {
        Err(e) => Err(e),
        Ok((v, n)) => Ok((v, (data.len() - n) as nat)),
    }
}

/// A payload read as a `P` where nothing may be left behind it.
pub open spec fn payload_decoding_exact<P: ProtoSerializable>(data: Seq<u8>) -> Result<
    P::V,
    ProtocolError,
> {
    match payload_decoding::<P>(data) {
        Err(e) => Err(e),
        Ok((v, left)) => if left == 0 {
            Ok(v)
        } else {
            Err(ProtocolError::InvalidEncoding)
        },
    }
}

/// Judges a declared frame length before any byte of the frame is read.
pub fn frame_length(declared: i32) -> (res: Result<usize, ProtocolError>)
    ensures
        match declared_length(declared) {
            Ok(len) => res == Ok::<usize, ProtocolError>(len as usize) && len <= MAX_PACKET_BYTES,
            Err(e) => res == Err::<usize, ProtocolError>(e),
        },
{
    if declared < 0 || declared as usize > MAX_PACKET_BYTES {
        Err(ProtocolError::FrameTooLarge)
    } else {
        Ok(declared as usize)
    }
}

/// Decodes a payload as a `P` and counts the bytes left behind it.
pub fn read_payload<P: ProtoSerializable>(data: &[u8]) -> (res: Result<(P, usize), ProtocolError>)
    ensures
        match payload_decoding::<P>(data@) {
            Ok((v, left)) => res is Ok && res->Ok_0.0@ == v && res->Ok_0.1 == left,
            Err(e) => res is Err && res->Err_0 == e,
        },
{
    let mut r = Reader::new(data);
    proof {
        P::lemma_parse_within(data@);
    }
    match P::read(&mut r) {
        Ok(value) => Ok((value, r.remaining())),
        Err(e) => Err(e),
    }
}

/// Decodes a payload as a `P`, refusing bytes left behind it.
pub fn read_payload_exact<P: ProtoSerializable>(data: &[u8]) -> (res: Result<P, ProtocolError>)
    ensures
        match payload_decoding_exact::<P>(data@) {
            Ok(v) => res is Ok && res->Ok_0@ == v,
            Err(e) => res is Err && res->Err_0 == e,
        },
{
    match read_payload::<P>(data) {
        Ok((value, left)) => if left == 0 {
            Ok(value)
        } else {
            Err(ProtocolError::InvalidEncoding)
        },
        Err(e) => Err(e),
    }
}

/// Writes one frame: the payload goes into a scratch buffer behind the
/// discriminator, so that the length is known before anything is written.
/// On failure nothing is written.
pub fn write_packet<P: ProtoSerializable>(packet_id: i32, payload: &P, w: &mut Vec<u8>) -> (res:
    Result<(), ProtocolError>)
    ensures
        match packet_encoding::<P>(packet_id, payload@) {
            Ok(bytes) => res is Ok && final(w)@ == old(w)@ + bytes,
            Err(e) => res is Err && res->Err_0 == e && final(w)@ == old(w)@,
        },
{
    let mut body: Vec<u8> = Vec::new();
    let _ = write_varint(&mut body, packet_id);
    match payload.write(&mut body) {
        Ok(()) => {},
        Err(e) => {
            return Err(e);
        },
    }
    proof {
        assert(body@ =~= varint::encoding(packet_id) + P::wire(payload@)->Ok_0);
    }
    write_body(&body, w)
}

/// Writes a finished body behind its length.
fn write_body(body: &Vec<u8>, w: &mut Vec<u8>) -> (res: Result<(), ProtocolError>)
    ensures
        body@.len() > i32::MAX ==> res == Err::<(), ProtocolError>(ProtocolError::FrameTooLarge)
            && final(w)@ == old(w)@,
        body@.len() <= i32::MAX ==> res is Ok && final(w)@ == old(w)@ + (varint::encoding(
            body@.len() as i32,
        ) + body@),
{
    if body.len() > 0x7fff_ffff {
        return Err(ProtocolError::FrameTooLarge);
    }
    let _ = write_varint(w, body.len() as i32);
    let ghost mid = w@;
    w.extend_from_slice(body.as_slice());
    proof {
        assert(w@ =~= mid + body@);
        assert(w@ =~= old(w)@ + (varint::encoding(body@.len() as i32) + body@));
    }
    Ok(())
}

impl RawPacket {
    /// Takes a frame's body apart. The body is everything behind the length.
    pub fn from_body(body: &[u8]) -> (res: Result<RawPacket, ProtocolError>)
        ensures
            match body_decoding(body@) {
                Ok(v) => res is Ok && res->Ok_0@ == v,
                Err(e) => res is Err && res->Err_0 == e,
            },
    {
        let mut r = Reader::new(body);
        let packet_id = match read_varint(&mut r) {
            Ok(id) => id,
            Err(e) => {
                return Err(e);
            },
        };
        let data = slice_to_vec(r.rest());
        Ok(RawPacket { packet_id, data })
    }
}

impl ProtoSerializable for RawPacket {
    open spec fn wire(v: RawPacketView) -> Result<Seq<u8>, ProtocolError> {
        frame_encoding(v.packet_id, v.data)
    }

    open spec fn parse(input: Seq<u8>) -> Result<(RawPacketView, nat), ProtocolError> {
        frame_decoding(input)
    }

    proof fn lemma_parse_within(input: Seq<u8>) {
        varint::Varint::lemma_parse_within(input);
    }

    /// Reads one frame.
    fn read(r: &mut Reader<'_>) -> (res: Result<Self, ProtocolError>) {
        let mut c = *r;
        proof {
            varint::Varint::lemma_parse_within(r@);
        }
        let declared = match read_varint(&mut c) {
            Ok(declared) => declared,
            Err(e) => {
                return Err(e);
            },
        };
        let len = match frame_length(declared) {
            Ok(len) => len,
            Err(e) => {
                return Err(e);
            },
        };
        let body = match c.take(len) {
            Ok(body) => body,
            Err(e) => {
                return Err(e);
            },
        };
        let ghost k = varint::decoding(old(r)@)->Ok_0.1;
        proof {
            assert(body@ =~= old(r)@.subrange(k as int, (k + len) as int));
            assert(c@ =~= old(r)@.skip((k + len) as int));
        }
        match RawPacket::from_body(body) {
            Ok(packet) => {
                *r = c;
                Ok(packet)
            },
            Err(e) => Err(e),
        }
    }

    /// Writes one frame.
    fn write(&self, w: &mut Vec<u8>) -> (res: Result<(), ProtocolError>) {
        let mut body: Vec<u8> = Vec::new();
        let _ = write_varint(&mut body, self.packet_id);
        let ghost mid = body@;
        body.extend_from_slice(self.data.as_slice());
        proof {
            assert(body@ =~= mid + self.data@);
            assert(body@ =~= varint::encoding(self.packet_id) + self.data@);
        }
        write_body(&body, w)
    }
}

/// A declared length below zero or above the ceiling is refused on sight:
/// whatever follows the length, and however little of it there is.
pub proof fn lemma_frame_length_checked(input: Seq<u8>)
    requires
        varint::decoding(input) is Ok,
        varint::decoding(input)->Ok_0.0 < 0 || varint::decoding(input)->Ok_0.0
            > MAX_PACKET_BYTES,
    ensures
        frame_decoding(input) == Err::<(RawPacketView, nat), ProtocolError>(
            ProtocolError::FrameTooLarge,
        ),
{
}

/// A frame whose body is within the ceiling reads back from its own bytes,
/// whatever follows it.
pub proof fn lemma_frame_round_trip(packet_id: i32, payload: Seq<u8>, rest: Seq<u8>)
    requires
        varint::encoding(packet_id).len() + payload.len() <= MAX_PACKET_BYTES,
    ensures
        frame_encoding(packet_id, payload) is Ok,
        frame_decoding(frame_encoding(packet_id, payload)->Ok_0 + rest) == Ok::<
            (RawPacketView, nat),
            ProtocolError,
        >(
            (
                RawPacketView { packet_id, data: payload },
                frame_encoding(packet_id, payload)->Ok_0.len(),
            ),
        ),
{
    let head = varint::encoding(packet_id);
    let body = head + payload;
    let prefix = varint::encoding(body.len() as i32);
    let input = (prefix + body) + rest;
    varint::lemma_varint_round_trip(body.len() as i32, body + rest);
    assert(input =~= prefix + (body + rest));
    assert(input.subrange(prefix.len() as int, (prefix.len() + body.len()) as int) =~= body);
    varint::lemma_varint_round_trip(packet_id, payload);
    assert(body.skip(head.len() as int) =~= payload);
}

/// The payload of a frame that was read has the declared length less the
/// bytes of the discriminator.
pub proof fn lemma_payload_length(input: Seq<u8>)
    requires
        frame_decoding(input) is Ok,
    ensures
        ({
            let declared = varint::decoding(input)->Ok_0;
            let body = input.subrange(declared.1 as int, declared.1 + declared.0);
            frame_decoding(input)->Ok_0.0.data.len() == declared.0 - varint::decoding(body)->Ok_0.1
        }),
{
    let declared = varint::decoding(input)->Ok_0;
    let body = input.subrange(declared.1 as int, declared.1 + declared.0);
    varint::Varint::lemma_parse_within(body);
}

/// A frame cut short anywhere is never read as a frame: the reader finds
/// short input, or refuses the declared length.
pub proof fn lemma_frame_truncated(packet_id: i32, payload: Seq<u8>, cut: int)
    requires
        frame_encoding(packet_id, payload) is Ok,
        0 <= cut < frame_encoding(packet_id, payload)->Ok_0.len(),
    ensures
        frame_decoding(frame_encoding(packet_id, payload)->Ok_0.take(cut)) is Err,
        varint::encoding(packet_id).len() + payload.len() <= MAX_PACKET_BYTES ==> frame_decoding(
            frame_encoding(packet_id, payload)->Ok_0.take(cut),
        )->Err_0 == ProtocolError::UnexpectedEof,
{
    let body = varint::encoding(packet_id) + payload;
    let prefix = varint::encoding(body.len() as i32);
    let input = (prefix + body).take(cut);
    if cut < prefix.len() {
        assert(input =~= prefix.take(cut));
        varint::lemma_varint_truncated(body.len() as i32, cut);
    } else {
        let held = body.take(cut - prefix.len());
        assert(input =~= prefix + held);
        varint::lemma_varint_round_trip(body.len() as i32, held);
    }
}

} // verus!
