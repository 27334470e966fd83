//! What a client sends in the status phase.

use vstd::prelude::*;
use crate::error::ProtocolError;
use crate::net::connection::State;
use crate::net::packet::{
    RawPacket, RawPacketView, ServerboundPacket, frame_encoding, payload_decoding, read_payload,
    write_packet,
};
use crate::net::proto::{ProtoSerializable, Reader, RoundTrip};

verus! {

/// Asks for the server's status. It has no payload.
#[derive(Debug, Clone, Copy, PartialEq, Eq)]
pub struct Request;

impl View for Request {
    type V = Request;

    open spec fn view(&self) -> Request {
        *self
    }
}

impl ProtoSerializable for Request {
    open spec fn wire(v: Request) -> Result<Seq<u8>, ProtocolError> {
        Ok(Seq::empty())
    }

    open spec fn parse(input: Seq<u8>) -> Result<(Request, nat), ProtocolError> {
        Ok((Request, 0))
    }

    proof fn lemma_parse_within(input: Seq<u8>) {
    }

    fn read(r: &mut Reader<'_>) -> (res: Result<Self, ProtocolError>) {
        proof {
            assert(r@.skip(0) =~= r@);
        }
        Ok(Request)
    }

    fn write(&self, w: &mut Vec<u8>) -> (res: Result<(), ProtocolError>) {
        proof {
            assert(w@ + Seq::<u8>::empty() =~= w@);
        }
        Ok(())
    }
}

impl RoundTrip for Request {
    proof fn lemma_round_trip(v: Request, rest: Seq<u8>) {
    }
}

impl ServerboundPacket for Request {
    const ID: i32 = 0;

    open spec fn packet_id() -> i32 {
        0
    }

    proof fn lemma_id() {
    }

    open spec fn phase() -> State {
        State::Status
    }

    fn state() -> (s: State) {
        State::Status
    }
}

/// Asks for an echo of `val`.
#[derive(Debug, Clone, Copy, PartialEq, Eq)]
pub struct Ping {
    pub val: i64,
}

impl View for Ping {
    type V = Ping;

    open spec fn view(&self) -> Ping {
        *self
    }
}

impl ProtoSerializable for Ping {
    open spec fn wire(v: Ping) -> Result<Seq<u8>, ProtocolError> {
        i64::wire(v.val)
    }

    open spec fn parse(input: Seq<u8>) -> Result<(Ping, nat), ProtocolError> {
        match i64::parse(input) {
            Err(e) => Err(e),
            Ok((val, n)) => Ok((Ping { val }, n)),
        }
    }

    proof fn lemma_parse_within(input: Seq<u8>) {
        i64::lemma_parse_within(input);
    }

    fn read(r: &mut Reader<'_>) -> (res: Result<Self, ProtocolError>) {
        match i64::read(r) {
            Ok(val) => Ok(Ping { val }),
            Err(e) => Err(e),
        }
    }

    fn write(&self, w: &mut Vec<u8>) -> (res: Result<(), ProtocolError>) {
        self.val.write(w)
    }
}

impl RoundTrip for Ping {
    proof fn lemma_round_trip(v: Ping, rest: Seq<u8>) {
        i64::lemma_round_trip(v.val, rest);
    }
}

impl ServerboundPacket for Ping {
    const ID: i32 = 1;

    open spec fn packet_id() -> i32 {
        1
    }

    proof fn lemma_id() {
    }

    open spec fn phase() -> State {
        State::Status
    }

    fn state() -> (s: State) {
        State::Status
    }
}

/// The packets that a client sends in the status phase.
#[derive(Debug, Clone, PartialEq, Eq)]
pub enum Packet {
    Request(Request),
    Ping(Ping),
}

/// A packet as plain values.
pub enum PacketView {
    Request(Request),
    Ping(Ping),
}

impl View for Packet {
    type V = PacketView;

    open spec fn view(&self) -> PacketView {
        match self {
            Packet::Request(p) => PacketView::Request(p@),
            Packet::Ping(p) => PacketView::Ping(p@),
        }
    }
}

impl Packet {
    /// Whether `id` is the discriminator of a packet of this table.
    pub open spec fn knows(id: i32) -> bool {
        id == Request::packet_id() || id == Ping::packet_id()
    }

    /// The discriminator under which a packet travels.
    pub open spec fn packet_id(v: PacketView) -> i32 {
        match v {
            PacketView::Request(_) => Request::packet_id(),
            PacketView::Ping(_) => Ping::packet_id(),
        }
    }

    /// The payload of a packet, or why it cannot be written.
    pub open spec fn payload(v: PacketView) -> Result<Seq<u8>, ProtocolError> {
        match v {
            PacketView::Request(p) => Request::wire(p),
            PacketView::Ping(p) => Ping::wire(p),
        }
    }

    /// The frame of a packet: its discriminator and its payload behind their length.
    pub open spec fn encoding(v: PacketView) -> Result<Seq<u8>, ProtocolError> {
        match Self::payload(v) {
            Err(e) => Err(e),
            Ok(bytes) => frame_encoding(Self::packet_id(v), bytes),
        }
    }

    /// The packet that a frame's content stands for, and the number of payload
    /// bytes left behind it. The discriminator picks the kind of packet.
    pub open spec fn decoding(raw: RawPacketView) -> Result<(PacketView, nat), ProtocolError> {
        if raw.packet_id == Request::packet_id() {
            match payload_decoding::<Request>(raw.data) {
                Err(e) => Err(e),
                Ok((p, left)) => Ok((PacketView::Request(p), left)),
            }
        } else if raw.packet_id == Ping::packet_id() {
            match payload_decoding::<Ping>(raw.data) {
                Err(e) => Err(e),
                Ok((p, left)) => Ok((PacketView::Ping(p), left)),
            }
        } else {
            Err(ProtocolError::UnknownPacket(raw.packet_id))
        }
    }

    /// The discriminator of this packet.
    pub fn id(&self) -> (id: i32)
        ensures
            id == Self::packet_id(self@),
    {
        match self {
            Packet::Request(_) => Request::ID,
            Packet::Ping(_) => Ping::ID,
        }
    }

    /// Decodes a frame's content as a packet of this table, and counts the
    /// payload bytes left behind it, which the caller is to report.
    pub fn try_from(raw: RawPacket) -> (res: Result<(Packet, usize), ProtocolError>)
        ensures
            match Self::decoding(raw@) {
                Ok((v, left)) => res is Ok && res->Ok_0.0@ == v && res->Ok_0.1 == left,
                Err(e) => res is Err && res->Err_0 == e,
            },
    {
        let data = raw.data.as_slice();
        if raw.packet_id == Request::ID {
            match read_payload::<Request>(data) {
                Ok((p, left)) => Ok((Packet::Request(p), left)),
                Err(e) => Err(e),
            }
        } else if raw.packet_id == Ping::ID {
            match read_payload::<Ping>(data) {
                Ok((p, left)) => Ok((Packet::Ping(p), left)),
                Err(e) => Err(e),
            }
        } else {
            Err(ProtocolError::UnknownPacket(raw.packet_id))
        }
    }

    /// Writes this packet as one frame. On failure nothing is written.
    pub fn write(&self, w: &mut Vec<u8>) -> (res: Result<(), ProtocolError>)
        ensures
            match Self::encoding(self@) {
                Ok(bytes) => res is Ok && final(w)@ == old(w)@ + bytes,
                Err(e) => res is Err && res->Err_0 == e && final(w)@ == old(w)@,
            },
    {
        match self {
            Packet::Request(p) => write_packet(Request::ID, p, w),
            Packet::Ping(p) => write_packet(Ping::ID, p, w),
        }
    }
}

/// A packet that can be written is decoded, from its discriminator and its
/// payload, as itself, with no byte left over.
pub proof fn lemma_packet_round_trip(v: PacketView)
    requires
        Packet::payload(v) is Ok,
    ensures
        Packet::decoding(
            RawPacketView { packet_id: Packet::packet_id(v), data: Packet::payload(v)->Ok_0 },
        ) == Ok::<(PacketView, nat), ProtocolError>((v, 0)),
{
    let data = Packet::payload(v)->Ok_0;
    assert(data + Seq::<u8>::empty() =~= data);
    match v {
        PacketView::Request(p) => {
            Request::lemma_round_trip(p, Seq::empty());
        },
        PacketView::Ping(p) => {
            Ping::lemma_round_trip(p, Seq::empty());
        },
    }
}

} // verus!
