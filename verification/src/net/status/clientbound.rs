//! What the server sends in the status phase.

use vstd::prelude::*;
use crate::error::ProtocolError;
use crate::net::connection::State;
use crate::net::packet::{
    ClientboundPacket, RawPacket, RawPacketView, frame_encoding, payload_decoding, read_payload,
    write_packet,
};
use crate::net::proto::{ProtoSerializable, Reader, RoundTrip};

verus! {

/// The server's status.
#[derive(Debug, Clone, PartialEq, Eq)]
pub struct Response {
    /// The status payload as JSON text.
    pub status_json: String,
}

/// A `Response` as plain values.
pub struct ResponseView {
    pub status_json: Seq<char>,
}

impl View for Response {
    type V = ResponseView;

    open spec fn view(&self) -> ResponseView {
        ResponseView { status_json: self.status_json@ }
    }
}

impl ProtoSerializable for Response {
    open spec fn wire(v: ResponseView) -> Result<Seq<u8>, ProtocolError> {
        String::wire(v.status_json)
    }

    open spec fn parse(input: Seq<u8>) -> Result<(ResponseView, nat), ProtocolError> {
        match String::parse(input) {
            Err(e) => Err(e),
            Ok((status_json, n)) => Ok((ResponseView { status_json }, n)),
        }
    }

    proof fn lemma_parse_within(input: Seq<u8>) {
        String::lemma_parse_within(input);
    }

    fn read(r: &mut Reader<'_>) -> (res: Result<Self, ProtocolError>) {
        match String::read(r) {
            Ok(status_json) => Ok(Response { status_json }),
            Err(e) => Err(e),
        }
    }

    fn write(&self, w: &mut Vec<u8>) -> (res: Result<(), ProtocolError>) {
        self.status_json.write(w)
    }
}

impl RoundTrip for Response {
    proof fn lemma_round_trip(v: ResponseView, rest: Seq<u8>) {
        String::lemma_round_trip(v.status_json, rest);
    }
}

impl ClientboundPacket for Response {
    const ID: i32 = 0;

    open spec fn packet_id() -> i32 {
        0
    }

    proof fn lemma_id() {
    }

    open spec fn phase() -> State {
        State::Status
    }

    fn state() -> (s: State) {
        State::Status
    }
}

/// The echo of a ping: the value that the ping carried.
#[derive(Debug, Clone, Copy, PartialEq, Eq)]
pub struct Pong {
    pub val: i64,
}

impl View for Pong {
    type V = Pong;

    open spec fn view(&self) -> Pong {
        *self
    }
}

impl ProtoSerializable for Pong {
    open spec fn wire(v: Pong) -> Result<Seq<u8>, ProtocolError> {
        i64::wire(v.val)
    }

    open spec fn parse(input: Seq<u8>) -> Result<(Pong, nat), ProtocolError> {
        match i64::parse(input) {
            Err(e) => Err(e),
            Ok((val, n)) => Ok((Pong { val }, n)),
        }
    }

    proof fn lemma_parse_within(input: Seq<u8>) {
        i64::lemma_parse_within(input);
    }

    fn read(r: &mut Reader<'_>) -> (res: Result<Self, ProtocolError>) {
        match i64::read(r) {
            Ok(val) => Ok(Pong { val }),
            Err(e) => Err(e),
        }
    }

    fn write(&self, w: &mut Vec<u8>) -> (res: Result<(), ProtocolError>) {
        self.val.write(w)
    }
}

impl RoundTrip for Pong {
    proof fn lemma_round_trip(v: Pong, rest: Seq<u8>) {
        i64::lemma_round_trip(v.val, rest);
    }
}

impl ClientboundPacket for Pong {
    const ID: i32 = 1;

    open spec fn packet_id() -> i32 {
        1
    }

    proof fn lemma_id() {
    }

    open spec fn phase() -> State {
        State::Status
    }

    fn state() -> (s: State) {
        State::Status
    }
}

/// The packets that the server sends in the status phase.
#[derive(Debug, Clone, PartialEq, Eq)]
pub enum Packet {
    Response(Response),
    Pong(Pong),
}

/// A packet as plain values.
pub enum PacketView {
    Response(ResponseView),
    Pong(Pong),
}

impl View for Packet {
    type V = PacketView;

    open spec fn view(&self) -> PacketView {
        match self {
            Packet::Response(p) => PacketView::Response(p@),
            Packet::Pong(p) => PacketView::Pong(p@),
        }
    }
}

impl Packet {
    /// Whether `id` is the discriminator of a packet of this table.
    pub open spec fn knows(id: i32) -> bool {
        id == Response::packet_id() || id == Pong::packet_id()
    }

    /// The discriminator under which a packet travels.
    pub open spec fn packet_id(v: PacketView) -> i32 {
        match v {
            PacketView::Response(_) => Response::packet_id(),
            PacketView::Pong(_) => Pong::packet_id(),
        }
    }

    /// The payload of a packet, or why it cannot be written.
    pub open spec fn payload(v: PacketView) -> Result<Seq<u8>, ProtocolError> {
        match v {
            PacketView::Response(p) => Response::wire(p),
            PacketView::Pong(p) => Pong::wire(p),
        }
    }

    /// The frame of a packet: its discriminator and its payload behind their length.
    pub open spec fn encoding(v: PacketView) -> Result<Seq<u8>, ProtocolError> {
        match Self::payload(v) {
            Err(e) => Err(e),
            Ok(bytes) => frame_encoding(Self::packet_id(v), bytes),
        }
    }

    /// The packet that a frame's content stands for, and the number of payload
    /// bytes left behind it. The discriminator picks the kind of packet.
    pub open spec fn decoding(raw: RawPacketView) -> Result<(PacketView, nat), ProtocolError> {
        if raw.packet_id == Response::packet_id() {
            match payload_decoding::<Response>(raw.data) {
                Err(e) => Err(e),
                Ok((p, left)) => Ok((PacketView::Response(p), left)),
            }
        } else if raw.packet_id == Pong::packet_id() {
            match payload_decoding::<Pong>(raw.data) {
                Err(e) => Err(e),
                Ok((p, left)) => Ok((PacketView::Pong(p), left)),
            }
        } else {
            Err(ProtocolError::UnknownPacket(raw.packet_id))
        }
    }

    /// The discriminator of this packet.
    pub fn id(&self) -> (id: i32)
        ensures
            id == Self::packet_id(self@),
    {
        match self {
            Packet::Response(_) => Response::ID,
            Packet::Pong(_) => Pong::ID,
        }
    }

    /// Decodes a frame's content as a packet of this table, and counts the
    /// payload bytes left behind it, which the caller is to report.
    pub fn try_from(raw: RawPacket) -> (res: Result<(Packet, usize), ProtocolError>)
        ensures
            match Self::decoding(raw@) {
                Ok((v, left)) => res is Ok && res->Ok_0.0@ == v && res->Ok_0.1 == left,
                Err(e) => res is Err && res->Err_0 == e,
            },
    {
        let data = raw.data.as_slice();
        if raw.packet_id == Response::ID {
            match read_payload::<Response>(data) {
                Ok((p, left)) => Ok((Packet::Response(p), left)),
                Err(e) => Err(e),
            }
        } else if raw.packet_id == Pong::ID {
            match read_payload::<Pong>(data) {
                Ok((p, left)) => Ok((Packet::Pong(p), left)),
                Err(e) => Err(e),
            }
        } else {
            Err(ProtocolError::UnknownPacket(raw.packet_id))
        }
    }

    /// Writes this packet as one frame. On failure nothing is written.
    pub fn write(&self, w: &mut Vec<u8>) -> (res: Result<(), ProtocolError>)
        ensures
            match Self::encoding(self@) {
                Ok(bytes) => res is Ok && final(w)@ == old(w)@ + bytes,
                Err(e) => res is Err && res->Err_0 == e && final(w)@ == old(w)@,
            },
    {
        match self {
            Packet::Response(p) => write_packet(Response::ID, p, w),
            Packet::Pong(p) => write_packet(Pong::ID, p, w),
        }
    }
}

/// A packet that can be written is decoded, from its discriminator and its
/// payload, as itself, with no byte left over.
pub proof fn lemma_packet_round_trip(v: PacketView)
    requires
        Packet::payload(v) is Ok,
    ensures
        Packet::decoding(
            RawPacketView { packet_id: Packet::packet_id(v), data: Packet::payload(v)->Ok_0 },
        ) == Ok::<(PacketView, nat), ProtocolError>((v, 0)),
{
    let data = Packet::payload(v)->Ok_0;
    assert(data + Seq::<u8>::empty() =~= data);
    match v {
        PacketView::Response(p) => {
            Response::lemma_round_trip(p, Seq::empty());
        },
        PacketView::Pong(p) => {
            Pong::lemma_round_trip(p, Seq::empty());
        },
    }
}

} // verus!
