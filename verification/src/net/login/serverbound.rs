//! What a client sends in the login phase.

use vstd::prelude::*;
use crate::error::ProtocolError;
use crate::net::connection::State;
use crate::net::packet::{
    RawPacket, RawPacketView, ServerboundPacket, frame_encoding, payload_decoding_exact,
    read_payload_exact, write_packet,
};
use crate::net::proto::{ProtoSerializable, Reader, RoundTrip};

verus! {

/// Opens the login under the player's name.
#[derive(Debug, Clone, PartialEq, Eq)]
pub struct LoginStart {
    pub name: String,
}

/// A `LoginStart` as plain values.
pub struct LoginStartView {
    pub name: Seq<char>,
}

impl View for LoginStart {
    type V = LoginStartView;

    open spec fn view(&self) -> LoginStartView {
        LoginStartView { name: self.name@ }
    }
}

impl ProtoSerializable for LoginStart {
    open spec fn wire(v: LoginStartView) -> Result<Seq<u8>, ProtocolError> {
        String::wire(v.name)
    }

    open spec fn parse(input: Seq<u8>) -> Result<(LoginStartView, nat), ProtocolError> {
        match String::parse(input) {
            Err(e) => Err(e),
            Ok((name, n)) => Ok((LoginStartView { name }, n)),
        }
    }

    proof fn lemma_parse_within(input: Seq<u8>) {
        String::lemma_parse_within(input);
    }

    fn read(r: &mut Reader<'_>) -> (res: Result<Self, ProtocolError>) {
        match String::read(r) {
            Ok(name) => Ok(LoginStart { name }),
            Err(e) => Err(e),
        }
    }

    fn write(&self, w: &mut Vec<u8>) -> (res: Result<(), ProtocolError>) {
        self.name.write(w)
    }
}

impl RoundTrip for LoginStart {
    proof fn lemma_round_trip(v: LoginStartView, rest: Seq<u8>) {
        String::lemma_round_trip(v.name, rest);
    }
}

impl ServerboundPacket for LoginStart {
    const ID: i32 = 0;

    open spec fn packet_id() -> i32 {
        0
    }

    proof fn lemma_id() {
    }

    open spec fn phase() -> State {
        State::Login
    }

    fn state() -> (s: State) {
        State::Login
    }
}

/// The packets that a client sends in the login phase.
#[derive(Debug, Clone, PartialEq, Eq)]
pub enum Packet {
    LoginStart(LoginStart),
}

/// A packet as plain values.
pub enum PacketView {
    LoginStart(LoginStartView),
}

impl View for Packet {
    type V = PacketView;

    open spec fn view(&self) -> PacketView {
        match self {
            Packet::LoginStart(p) => PacketView::LoginStart(p@),
        }
    }
}

impl Packet {
    /// Whether `id` is the discriminator of a packet of this table.
    pub open spec fn knows(id: i32) -> bool {
        id == LoginStart::packet_id()
    }

    /// The discriminator under which a packet travels.
    pub open spec fn packet_id(v: PacketView) -> i32 {
        match v {
            PacketView::LoginStart(_) => LoginStart::packet_id(),
        }
    }

    /// The payload of a packet, or why it cannot be written.
    pub open spec fn payload(v: PacketView) -> Result<Seq<u8>, ProtocolError> {
        match v {
            PacketView::LoginStart(p) => LoginStart::wire(p),
        }
    }

    /// The frame of a packet: its discriminator and its payload behind their length.
    pub open spec fn encoding(v: PacketView) -> Result<Seq<u8>, ProtocolError> {
        match Self::payload(v) {
            Err(e) => Err(e),
            Ok(bytes) => frame_encoding(Self::packet_id(v), bytes),
        }
    }

    /// The packet that a frame's content stands for. The discriminator picks
    /// the kind of packet; the payload must decode as that kind and leave no
    /// byte behind.
    pub open spec fn decoding(raw: RawPacketView) -> Result<PacketView, ProtocolError> {
        if raw.packet_id == LoginStart::packet_id() {
            match payload_decoding_exact::<LoginStart>(raw.data) {
                Err(e) => Err(e),
                Ok(p) => Ok(PacketView::LoginStart(p)),
            }
        } else {
            Err(ProtocolError::UnknownPacket(raw.packet_id))
        }
    }

    /// The discriminator of this packet.
    pub fn id(&self) -> (id: i32)
        ensures
            id == Self::packet_id(self@),
    {
        match self {
            Packet::LoginStart(_) => LoginStart::ID,
        }
    }

    /// Decodes a frame's content as a packet of this table. Bytes left behind
    /// the payload are an error.
    pub fn try_from(raw: RawPacket) -> (res: Result<Packet, ProtocolError>)
        ensures
            match Self::decoding(raw@) {
                Ok(v) => res is Ok && res->Ok_0@ == v,
                Err(e) => res is Err && res->Err_0 == e,
            },
    {
        let data = raw.data.as_slice();
        if raw.packet_id == LoginStart::ID {
            match read_payload_exact::<LoginStart>(data) {
                Ok(p) => Ok(Packet::LoginStart(p)),
                Err(e) => Err(e),
            }
        } else {
            Err(ProtocolError::UnknownPacket(raw.packet_id))
        }
    }

    /// Writes this packet as one frame. On failure nothing is written.
    pub fn write(&self, w: &mut Vec<u8>) -> (res: Result<(), ProtocolError>)
        ensures
            match Self::encoding(self@) {
                Ok(bytes) => res is Ok && final(w)@ == old(w)@ + bytes,
                Err(e) => res is Err && res->Err_0 == e && final(w)@ == old(w)@,
            },
    {
        match self {
            Packet::LoginStart(p) => write_packet(LoginStart::ID, p, w),
        }
    }
}

/// A packet that can be written is decoded, from its discriminator and its
/// payload, as itself, with no byte left over.
pub proof fn lemma_packet_round_trip(v: PacketView)
    requires
        Packet::payload(v) is Ok,
    ensures
        Packet::decoding(
            RawPacketView { packet_id: Packet::packet_id(v), data: Packet::payload(v)->Ok_0 },
        ) == Ok::<PacketView, ProtocolError>(v),
{
    let data = Packet::payload(v)->Ok_0;
    assert(data + Seq::<u8>::empty() =~= data);
    match v {
        PacketView::LoginStart(p) => {
            LoginStart::lemma_round_trip(p, Seq::empty());
        },
    }
}

} // verus!
