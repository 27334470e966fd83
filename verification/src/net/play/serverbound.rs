//! What a client sends in the play phase.

use vstd::prelude::*;
use crate::error::ProtocolError;
use crate::net::connection::State;
use crate::net::packet::{
    RawPacket, RawPacketView, ServerboundPacket, frame_encoding, payload_decoding, read_payload,
    write_packet,
};
use crate::net::proto::{ProtoSerializable, Reader, RoundTrip};
use crate::net::proto::fields::write_field;
use crate::net::proto::scalars::{Double, Float};

verus! {

/// A line of chat.
#[derive(Debug, Clone, PartialEq, Eq)]
pub struct Chat {
    pub message: String,
}

/// A `Chat` as plain values.
pub struct ChatView {
    pub message: Seq<char>,
}

impl View for Chat {
    type V = ChatView;

    open spec fn view(&self) -> ChatView {
        ChatView { message: self.message@ }
    }
}

impl ProtoSerializable for Chat {
    open spec fn wire(v: ChatView) -> Result<Seq<u8>, ProtocolError> {
        String::wire(v.message)
    }

    open spec fn parse(input: Seq<u8>) -> Result<(ChatView, nat), ProtocolError> {
        match String::parse(input) {
            Err(e) => Err(e),
            Ok((message, n)) => Ok((ChatView { message }, n)),
        }
    }

    proof fn lemma_parse_within(input: Seq<u8>) {
        String::lemma_parse_within(input);
    }

    fn read(r: &mut Reader<'_>) -> (res: Result<Self, ProtocolError>) {
        match String::read(r) {
            Ok(message) => Ok(Chat { message }),
            Err(e) => Err(e),
        }
    }

    fn write(&self, w: &mut Vec<u8>) -> (res: Result<(), ProtocolError>) {
        self.message.write(w)
    }
}

impl RoundTrip for Chat {
    proof fn lemma_round_trip(v: ChatView, rest: Seq<u8>) {
        String::lemma_round_trip(v.message, rest);
    }
}

impl ServerboundPacket for Chat {
    const ID: i32 = 0x03;

    open spec fn packet_id() -> i32 {
        0x03
    }

    proof fn lemma_id() {
    }

    open spec fn phase() -> State {
        State::Play
    }

    fn state() -> (s: State) {
        State::Play
    }
}

/// The answer to a keep-alive: the value that it carried.
#[derive(Debug, Clone, Copy, PartialEq, Eq)]
pub struct KeepAliveResponse {
    pub value: i64,
}

impl View for KeepAliveResponse {
    type V = KeepAliveResponse;

    open spec fn view(&self) -> KeepAliveResponse {
        *self
    }
}

impl ProtoSerializable for KeepAliveResponse {
    open spec fn wire(v: KeepAliveResponse) -> Result<Seq<u8>, ProtocolError> {
        i64::wire(v.value)
    }

    open spec fn parse(input: Seq<u8>) -> Result<(KeepAliveResponse, nat), ProtocolError> {
        match i64::parse(input) {
            Err(e) => Err(e),
            Ok((value, n)) => Ok((KeepAliveResponse { value }, n)),
        }
    }

    proof fn lemma_parse_within(input: Seq<u8>) {
        i64::lemma_parse_within(input);
    }

    fn read(r: &mut Reader<'_>) -> (res: Result<Self, ProtocolError>) {
        match i64::read(r) {
            Ok(value) => Ok(KeepAliveResponse { value }),
            Err(e) => Err(e),
        }
    }

    fn write(&self, w: &mut Vec<u8>) -> (res: Result<(), ProtocolError>) {
        self.value.write(w)
    }
}

impl RoundTrip for KeepAliveResponse {
    proof fn lemma_round_trip(v: KeepAliveResponse, rest: Seq<u8>) {
        i64::lemma_round_trip(v.value, rest);
    }
}

impl ServerboundPacket for KeepAliveResponse {
    const ID: i32 = 0x0F;

    open spec fn packet_id() -> i32 {
        0x0F
    }

    proof fn lemma_id() {
    }

    open spec fn phase() -> State {
        State::Play
    }

    fn state() -> (s: State) {
        State::Play
    }
}

/// Where the player stands.
#[derive(Debug, Clone, PartialEq, Eq)]
pub struct PlayerPosition {
    pub x: Double,
    pub y: Double,
    pub z: Double,
    pub on_ground: bool,
}

/// A `PlayerPosition` as plain values.
pub struct PlayerPositionView {
    pub x: u64,
    pub y: u64,
    pub z: u64,
    pub on_ground: bool,
}

impl View for PlayerPosition {
    type V = PlayerPositionView;

    open spec fn view(&self) -> PlayerPositionView {
        PlayerPositionView { x: self.x@, y: self.y@, z: self.z@, on_ground: self.on_ground }
    }
}

/// The fields of a `PlayerPosition` in wire order.
pub type PlayerPositionFields = (Double, (Double, (Double, bool)));

impl ProtoSerializable for PlayerPosition {
    open spec fn wire(v: PlayerPositionView) -> Result<Seq<u8>, ProtocolError> {
        PlayerPositionFields::wire((v.x, (v.y, (v.z, v.on_ground))))
    }

    open spec fn parse(input: Seq<u8>) -> Result<(PlayerPositionView, nat), ProtocolError> {
        match PlayerPositionFields::parse(input) {
            Err(e) => Err(e),
            Ok(((x, (y, (z, on_ground))), n)) => Ok((PlayerPositionView { x, y, z, on_ground }, n)),
        }
    }

    proof fn lemma_parse_within(input: Seq<u8>) {
        PlayerPositionFields::lemma_parse_within(input);
    }

    fn read(r: &mut Reader<'_>) -> (res: Result<Self, ProtocolError>) {
        match PlayerPositionFields::read(r) {
            Ok((x, (y, (z, on_ground)))) => Ok(PlayerPosition { x, y, z, on_ground }),
            Err(e) => Err(e),
        }
    }

    fn write(&self, w: &mut Vec<u8>) -> (res: Result<(), ProtocolError>) {
        let mark = w.len();
        write_field(&self.x, w, mark)?;
        write_field(&self.y, w, mark)?;
        write_field(&self.z, w, mark)?;
        write_field(&self.on_ground, w, mark)?;
        Ok(())
    }
}

impl RoundTrip for PlayerPosition {
    proof fn lemma_round_trip(v: PlayerPositionView, rest: Seq<u8>) {
        PlayerPositionFields::lemma_round_trip((v.x, (v.y, (v.z, v.on_ground))), rest);
    }
}

impl ServerboundPacket for PlayerPosition {
    const ID: i32 = 0x11;

    open spec fn packet_id() -> i32 {
        0x11
    }

    proof fn lemma_id() {
    }

    open spec fn phase() -> State {
        State::Play
    }

    fn state() -> (s: State) {
        State::Play
    }
}

/// Where the player stands and looks.
#[derive(Debug, Clone, PartialEq, Eq)]
pub struct PlayerPositionAndRotation {
    pub x: Double,
    pub y: Double,
    pub z: Double,
    pub yaw: Float,
    pub pitch: Float,
    pub on_ground: bool,
}

/// A `PlayerPositionAndRotation` as plain values.
pub struct PlayerPositionAndRotationView {
    pub x: u64,
    pub y: u64,
    pub z: u64,
    pub yaw: u32,
    pub pitch: u32,
    pub on_ground: bool,
}

impl View for PlayerPositionAndRotation {
    type V = PlayerPositionAndRotationView;

    open spec fn view(&self) -> PlayerPositionAndRotationView {
        PlayerPositionAndRotationView {
            x: self.x@,
            y: self.y@,
            z: self.z@,
            yaw: self.yaw@,
            pitch: self.pitch@,
            on_ground: self.on_ground,
        }
    }
}

/// The fields of a `PlayerPositionAndRotation` in wire order.
pub type PlayerPositionAndRotationFields = (Double, (Double, (Double, (Float, (Float, bool)))));

impl ProtoSerializable for PlayerPositionAndRotation {
    open spec fn wire(v: PlayerPositionAndRotationView) -> Result<Seq<u8>, ProtocolError> {
        PlayerPositionAndRotationFields::wire((v.x, (v.y, (v.z, (v.yaw, (v.pitch, v.on_ground))))))
    }

    open spec fn parse(input: Seq<u8>) -> Result<
        (PlayerPositionAndRotationView, nat),
        ProtocolError,
    > {
        match PlayerPositionAndRotationFields::parse(input) {
            Err(e) => Err(e),
            Ok(((x, (y, (z, (yaw, (pitch, on_ground))))), n)) => Ok(
                (PlayerPositionAndRotationView { x, y, z, yaw, pitch, on_ground }, n),
            ),
        }
    }

    proof fn lemma_parse_within(input: Seq<u8>) {
        PlayerPositionAndRotationFields::lemma_parse_within(input);
    }

    fn read(r: &mut Reader<'_>) -> (res: Result<Self, ProtocolError>) {
        match PlayerPositionAndRotationFields::read(r) {
            Ok((x, (y, (z, (yaw, (pitch, on_ground)))))) => Ok(
                PlayerPositionAndRotation { x, y, z, yaw, pitch, on_ground },
            ),
            Err(e) => Err(e),
        }
    }

    fn write(&self, w: &mut Vec<u8>) -> (res: Result<(), ProtocolError>) {
        let mark = w.len();
        write_field(&self.x, w, mark)?;
        write_field(&self.y, w, mark)?;
        write_field(&self.z, w, mark)?;
        write_field(&self.yaw, w, mark)?;
        write_field(&self.pitch, w, mark)?;
        write_field(&self.on_ground, w, mark)?;
        Ok(())
    }
}

impl RoundTrip for PlayerPositionAndRotation {
    proof fn lemma_round_trip(v: PlayerPositionAndRotationView, rest: Seq<u8>) {
        PlayerPositionAndRotationFields::lemma_round_trip(
            (v.x, (v.y, (v.z, (v.yaw, (v.pitch, v.on_ground))))),
            rest,
        );
    }
}

impl ServerboundPacket for PlayerPositionAndRotation {
    const ID: i32 = 0x12;

    open spec fn packet_id() -> i32 {
        0x12
    }

    proof fn lemma_id() {
    }

    open spec fn phase() -> State {
        State::Play
    }

    fn state() -> (s: State) {
        State::Play
    }
}

/// Where the player looks.
#[derive(Debug, Clone, PartialEq, Eq)]
pub struct PlayerRotation {
    pub yaw: Float,
    pub pitch: Float,
    pub on_ground: bool,
}

/// A `PlayerRotation` as plain values.
pub struct PlayerRotationView {
    pub yaw: u32,
    pub pitch: u32,
    pub on_ground: bool,
}

impl View for PlayerRotation {
    type V = PlayerRotationView;

    open spec fn view(&self) -> PlayerRotationView {
        PlayerRotationView { yaw: self.yaw@, pitch: self.pitch@, on_ground: self.on_ground }
    }
}

/// The fields of a `PlayerRotation` in wire order.
pub type PlayerRotationFields = (Float, (Float, bool));

impl ProtoSerializable for PlayerRotation {
    open spec fn wire(v: PlayerRotationView) -> Result<Seq<u8>, ProtocolError> {
        PlayerRotationFields::wire((v.yaw, (v.pitch, v.on_ground)))
    }

    open spec fn parse(input: Seq<u8>) -> Result<(PlayerRotationView, nat), ProtocolError> {
        match PlayerRotationFields::parse(input) {
            Err(e) => Err(e),
            Ok(((yaw, (pitch, on_ground)), n)) => Ok(
                (PlayerRotationView { yaw, pitch, on_ground }, n),
            ),
        }
    }

    proof fn lemma_parse_within(input: Seq<u8>) {
        PlayerRotationFields::lemma_parse_within(input);
    }

    fn read(r: &mut Reader<'_>) -> (res: Result<Self, ProtocolError>) {
        match PlayerRotationFields::read(r) {
            Ok((yaw, (pitch, on_ground))) => Ok(PlayerRotation { yaw, pitch, on_ground }),
            Err(e) => Err(e),
        }
    }

    fn write(&self, w: &mut Vec<u8>) -> (res: Result<(), ProtocolError>) {
        let mark = w.len();
        write_field(&self.yaw, w, mark)?;
        write_field(&self.pitch, w, mark)?;
        write_field(&self.on_ground, w, mark)?;
        Ok(())
    }
}

impl RoundTrip for PlayerRotation {
    proof fn lemma_round_trip(v: PlayerRotationView, rest: Seq<u8>) {
        PlayerRotationFields::lemma_round_trip((v.yaw, (v.pitch, v.on_ground)), rest);
    }
}

impl ServerboundPacket for PlayerRotation {
    const ID: i32 = 0x13;

    open spec fn packet_id() -> i32 {
        0x13
    }

    proof fn lemma_id() {
    }

    open spec fn phase() -> State {
        State::Play
    }

    fn state() -> (s: State) {
        State::Play
    }
}

/// Whether the player stands on the ground.
#[derive(Debug, Clone, Copy, PartialEq, Eq)]
pub struct PlayerMovement {
    pub on_ground: bool,
}

impl View for PlayerMovement {
    type V = PlayerMovement;

    open spec fn view(&self) -> PlayerMovement {
        *self
    }
}

impl ProtoSerializable for PlayerMovement {
    open spec fn wire(v: PlayerMovement) -> Result<Seq<u8>, ProtocolError> {
        bool::wire(v.on_ground)
    }

    open spec fn parse(input: Seq<u8>) -> Result<(PlayerMovement, nat), ProtocolError> {
        match bool::parse(input) {
            Err(e) => Err(e),
            Ok((on_ground, n)) => Ok((PlayerMovement { on_ground }, n)),
        }
    }

    proof fn lemma_parse_within(input: Seq<u8>) {
        bool::lemma_parse_within(input);
    }

    fn read(r: &mut Reader<'_>) -> (res: Result<Self, ProtocolError>) {
        match bool::read(r) {
            Ok(on_ground) => Ok(PlayerMovement { on_ground }),
            Err(e) => Err(e),
        }
    }

    fn write(&self, w: &mut Vec<u8>) -> (res: Result<(), ProtocolError>) {
        self.on_ground.write(w)
    }
}

impl RoundTrip for PlayerMovement {
    proof fn lemma_round_trip(v: PlayerMovement, rest: Seq<u8>) {
        bool::lemma_round_trip(v.on_ground, rest);
    }
}

impl ServerboundPacket for PlayerMovement {
    const ID: i32 = 0x14;

    open spec fn packet_id() -> i32 {
        0x14
    }

    proof fn lemma_id() {
    }

    open spec fn phase() -> State {
        State::Play
    }

    fn state() -> (s: State) {
        State::Play
    }
}

/// The packets that a client sends in the play phase.
#[derive(Debug, Clone, PartialEq, Eq)]
pub enum Packet {
    Chat(Chat),
    KeepAliveResponse(KeepAliveResponse),
    PlayerPosition(PlayerPosition),
    PlayerPositionAndRotation(PlayerPositionAndRotation),
    PlayerRotation(PlayerRotation),
    PlayerMovement(PlayerMovement),
}

/// A packet as plain values.
pub enum PacketView {
    Chat(ChatView),
    KeepAliveResponse(KeepAliveResponse),
    PlayerPosition(PlayerPositionView),
    PlayerPositionAndRotation(PlayerPositionAndRotationView),
    PlayerRotation(PlayerRotationView),
    PlayerMovement(PlayerMovement),
}

impl View for Packet {
    type V = PacketView;

    open spec fn view(&self) -> PacketView {
        match self {
            Packet::Chat(p) => PacketView::Chat(p@),
            Packet::KeepAliveResponse(p) => PacketView::KeepAliveResponse(p@),
            Packet::PlayerPosition(p) => PacketView::PlayerPosition(p@),
            Packet::PlayerPositionAndRotation(p) => PacketView::PlayerPositionAndRotation(p@),
            Packet::PlayerRotation(p) => PacketView::PlayerRotation(p@),
            Packet::PlayerMovement(p) => PacketView::PlayerMovement(p@),
        }
    }
}

impl Packet {
    /// Whether `id` is the discriminator of a packet of this table.
    pub open spec fn knows(id: i32) -> bool {
        id == Chat::packet_id()
            || id == KeepAliveResponse::packet_id()
            || id == PlayerPosition::packet_id()
            || id == PlayerPositionAndRotation::packet_id()
            || id == PlayerRotation::packet_id()
            || id == PlayerMovement::packet_id()
    }

    /// The discriminator under which a packet travels.
    pub open spec fn packet_id(v: PacketView) -> i32 {
        match v {
            PacketView::Chat(_) => Chat::packet_id(),
            PacketView::KeepAliveResponse(_) => KeepAliveResponse::packet_id(),
            PacketView::PlayerPosition(_) => PlayerPosition::packet_id(),
            PacketView::PlayerPositionAndRotation(_) => PlayerPositionAndRotation::packet_id(),
            PacketView::PlayerRotation(_) => PlayerRotation::packet_id(),
            PacketView::PlayerMovement(_) => PlayerMovement::packet_id(),
        }
    }

    /// The payload of a packet, or why it cannot be written.
    pub open spec fn payload(v: PacketView) -> Result<Seq<u8>, ProtocolError> {
        match v {
            PacketView::Chat(p) => Chat::wire(p),
            PacketView::KeepAliveResponse(p) => KeepAliveResponse::wire(p),
            PacketView::PlayerPosition(p) => PlayerPosition::wire(p),
            PacketView::PlayerPositionAndRotation(p) => PlayerPositionAndRotation::wire(p),
            PacketView::PlayerRotation(p) => PlayerRotation::wire(p),
            PacketView::PlayerMovement(p) => PlayerMovement::wire(p),
        }
    }

    /// The frame of a packet: its discriminator and its payload behind their length.
    pub open spec fn encoding(v: PacketView) -> Result<Seq<u8>, ProtocolError> {
        match Self::payload(v) {
            Err(e) => Err(e),
            Ok(bytes) => frame_encoding(Self::packet_id(v), bytes),
        }
    }

    /// The packet that a frame's content stands for, and the number of payload
    /// bytes left behind it. The discriminator picks the kind of packet.
    pub open spec fn decoding(raw: RawPacketView) -> Result<(PacketView, nat), ProtocolError> {
        if raw.packet_id == Chat::packet_id() {
            match payload_decoding::<Chat>(raw.data) {
                Err(e) => Err(e),
                Ok((p, left)) => Ok((PacketView::Chat(p), left)),
            }
        } else if raw.packet_id == KeepAliveResponse::packet_id() {
            match payload_decoding::<KeepAliveResponse>(raw.data) {
                Err(e) => Err(e),
                Ok((p, left)) => Ok((PacketView::KeepAliveResponse(p), left)),
            }
        } else if raw.packet_id == PlayerPosition::packet_id() {
            match payload_decoding::<PlayerPosition>(raw.data) {
                Err(e) => Err(e),
                Ok((p, left)) => Ok((PacketView::PlayerPosition(p), left)),
            }
        } else if raw.packet_id == PlayerPositionAndRotation::packet_id() {
            match payload_decoding::<PlayerPositionAndRotation>(raw.data) {
                Err(e) => Err(e),
                Ok((p, left)) => Ok((PacketView::PlayerPositionAndRotation(p), left)),
            }
        } else if raw.packet_id == PlayerRotation::packet_id() {
            match payload_decoding::<PlayerRotation>(raw.data) {
                Err(e) => Err(e),
                Ok((p, left)) => Ok((PacketView::PlayerRotation(p), left)),
            }
        } else if raw.packet_id == PlayerMovement::packet_id() {
            match payload_decoding::<PlayerMovement>(raw.data) {
                Err(e) => Err(e),
                Ok((p, left)) => Ok((PacketView::PlayerMovement(p), left)),
            }
        } else {
            Err(ProtocolError::UnknownPacket(raw.packet_id))
        }
    }

    /// The discriminator of this packet.
    pub fn id(&self) -> (id: i32)
        ensures
            id == Self::packet_id(self@),
    {
        match self {
            Packet::Chat(_) => Chat::ID,
            Packet::KeepAliveResponse(_) => KeepAliveResponse::ID,
            Packet::PlayerPosition(_) => PlayerPosition::ID,
            Packet::PlayerPositionAndRotation(_) => PlayerPositionAndRotation::ID,
            Packet::PlayerRotation(_) => PlayerRotation::ID,
            Packet::PlayerMovement(_) => PlayerMovement::ID,
        }
    }

    /// Decodes a frame's content as a packet of this table, and counts the
    /// payload bytes left behind it, which the caller is to report.
    pub fn try_from(raw: RawPacket) -> (res: Result<(Packet, usize), ProtocolError>)
        ensures
            match Self::decoding(raw@) {
                Ok((v, left)) => res is Ok && res->Ok_0.0@ == v && res->Ok_0.1 == left,
                Err(e) => res is Err && res->Err_0 == e,
            },
    {
        let data = raw.data.as_slice();
        if raw.packet_id == Chat::ID {
            match read_payload::<Chat>(data) {
                Ok((p, left)) => Ok((Packet::Chat(p), left)),
                Err(e) => Err(e),
            }
        } else if raw.packet_id == KeepAliveResponse::ID {
            match read_payload::<KeepAliveResponse>(data) {
                Ok((p, left)) => Ok((Packet::KeepAliveResponse(p), left)),
                Err(e) => Err(e),
            }
        } else if raw.packet_id == PlayerPosition::ID {
            match read_payload::<PlayerPosition>(data) {
                Ok((p, left)) => Ok((Packet::PlayerPosition(p), left)),
                Err(e) => Err(e),
            }
        } else if raw.packet_id == PlayerPositionAndRotation::ID {
            match read_payload::<PlayerPositionAndRotation>(data) {
                Ok((p, left)) => Ok((Packet::PlayerPositionAndRotation(p), left)),
                Err(e) => Err(e),
            }
        } else if raw.packet_id == PlayerRotation::ID {
            match read_payload::<PlayerRotation>(data) {
                Ok((p, left)) => Ok((Packet::PlayerRotation(p), left)),
                Err(e) => Err(e),
            }
        } else if raw.packet_id == PlayerMovement::ID {
            match read_payload::<PlayerMovement>(data) {
                Ok((p, left)) => Ok((Packet::PlayerMovement(p), left)),
                Err(e) => Err(e),
            }
        } else {
            Err(ProtocolError::UnknownPacket(raw.packet_id))
        }
    }

    /// Writes this packet as one frame. On failure nothing is written.
    pub fn write(&self, w: &mut Vec<u8>) -> (res: Result<(), ProtocolError>)
        ensures
            match Self::encoding(self@) {
                Ok(bytes) => res is Ok && final(w)@ == old(w)@ + bytes,
                Err(e) => res is Err && res->Err_0 == e && final(w)@ == old(w)@,
            },
    {
        match self {
            Packet::Chat(p) => write_packet(Chat::ID, p, w),
            Packet::KeepAliveResponse(p) => write_packet(KeepAliveResponse::ID, p, w),
            Packet::PlayerPosition(p) => write_packet(PlayerPosition::ID, p, w),
            Packet::PlayerPositionAndRotation(p) => {
                write_packet(PlayerPositionAndRotation::ID, p, w)
            },
            Packet::PlayerRotation(p) => write_packet(PlayerRotation::ID, p, w),
            Packet::PlayerMovement(p) => write_packet(PlayerMovement::ID, p, w),
        }
    }
}

/// A packet that can be written is decoded, from its discriminator and its
/// payload, as itself, with no byte left over.
pub proof fn lemma_packet_round_trip(v: PacketView)
    requires
        Packet::payload(v) is Ok,
    ensures
        Packet::decoding(
            RawPacketView { packet_id: Packet::packet_id(v), data: Packet::payload(v)->Ok_0 },
        ) == Ok::<(PacketView, nat), ProtocolError>((v, 0)),
{
    let data = Packet::payload(v)->Ok_0;
    assert(data + Seq::<u8>::empty() =~= data);
    match v {
        PacketView::Chat(p) => {
            Chat::lemma_round_trip(p, Seq::empty());
        },
        PacketView::KeepAliveResponse(p) => {
            KeepAliveResponse::lemma_round_trip(p, Seq::empty());
        },
        PacketView::PlayerPosition(p) => {
            PlayerPosition::lemma_round_trip(p, Seq::empty());
        },
        PacketView::PlayerPositionAndRotation(p) => {
            PlayerPositionAndRotation::lemma_round_trip(p, Seq::empty());
        },
        PacketView::PlayerRotation(p) => {
            PlayerRotation::lemma_round_trip(p, Seq::empty());
        },
        PacketView::PlayerMovement(p) => {
            PlayerMovement::lemma_round_trip(p, Seq::empty());
        },
    }
}

} // verus!
