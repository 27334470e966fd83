//! What the server sends in the play phase.

use vstd::prelude::*;
use crate::error::ProtocolError;
use crate::net::connection::State;
use crate::net::packet::{
    ClientboundPacket, RawPacket, RawPacketView, frame_encoding, payload_decoding, read_payload,
    write_packet,
};
use crate::net::proto::{ProtoSerializable, Reader, RoundTrip};
use crate::net::proto::fields::write_field;
use crate::net::proto::varint::Varint;

verus! {

/// Ends the session.
#[derive(Debug, Clone, PartialEq, Eq)]
pub struct Disconnect {
    /// The reason as the JSON text of a chat text.
    pub reason: String,
}

/// A `Disconnect` as plain values.
pub struct DisconnectView {
    pub reason: Seq<char>,
}

impl View for Disconnect {
    type V = DisconnectView;

    open spec fn view(&self) -> DisconnectView {
        DisconnectView { reason: self.reason@ }
    }
}

impl ProtoSerializable for Disconnect {
    open spec fn wire(v: DisconnectView) -> Result<Seq<u8>, ProtocolError> {
        String::wire(v.reason)
    }

    open spec fn parse(input: Seq<u8>) -> Result<(DisconnectView, nat), ProtocolError> {
        match String::parse(input) {
            Err(e) => Err(e),
            Ok((reason, n)) => Ok((DisconnectView { reason }, n)),
        }
    }

    proof fn lemma_parse_within(input: Seq<u8>) {
        String::lemma_parse_within(input);
    }

    fn read(r: &mut Reader<'_>) -> (res: Result<Self, ProtocolError>) {
        match String::read(r) {
            Ok(reason) => Ok(Disconnect { reason }),
            Err(e) => Err(e),
        }
    }

    fn write(&self, w: &mut Vec<u8>) -> (res: Result<(), ProtocolError>) {
        self.reason.write(w)
    }
}

impl RoundTrip for Disconnect {
    proof fn lemma_round_trip(v: DisconnectView, rest: Seq<u8>) {
        String::lemma_round_trip(v.reason, rest);
    }
}

impl ClientboundPacket for Disconnect {
    const ID: i32 = 0x1B;

    open spec fn packet_id() -> i32 {
        0x1B
    }

    proof fn lemma_id() {
    }

    open spec fn phase() -> State {
        State::Play
    }

    fn state() -> (s: State) {
        State::Play
    }
}

/// Asks the client to answer with the same value.
#[derive(Debug, Clone, Copy, PartialEq, Eq)]
pub struct KeepAlive {
    pub value: i64,
}

impl View for KeepAlive {
    type V = KeepAlive;

    open spec fn view(&self) -> KeepAlive {
        *self
    }
}

impl ProtoSerializable for KeepAlive {
    open spec fn wire(v: KeepAlive) -> Result<Seq<u8>, ProtocolError> {
        i64::wire(v.value)
    }

    open spec fn parse(input: Seq<u8>) -> Result<(KeepAlive, nat), ProtocolError> {
        match i64::parse(input) {
            Err(e) => Err(e),
            Ok((value, n)) => Ok((KeepAlive { value }, n)),
        }
    }

    proof fn lemma_parse_within(input: Seq<u8>) {
        i64::lemma_parse_within(input);
    }

    fn read(r: &mut Reader<'_>) -> (res: Result<Self, ProtocolError>) {
        match i64::read(r) {
            Ok(value) => Ok(KeepAlive { value }),
            Err(e) => Err(e),
        }
    }

    fn write(&self, w: &mut Vec<u8>) -> (res: Result<(), ProtocolError>) {
        self.value.write(w)
    }
}

impl RoundTrip for KeepAlive {
    proof fn lemma_round_trip(v: KeepAlive, rest: Seq<u8>) {
        i64::lemma_round_trip(v.value, rest);
    }
}

impl ClientboundPacket for KeepAlive {
    const ID: i32 = 0x21;

    open spec fn packet_id() -> i32 {
        0x21
    }

    proof fn lemma_id() {
    }

    open spec fn phase() -> State {
        State::Play
    }

    fn state() -> (s: State) {
        State::Play
    }
}

/// Places the player in the world.
#[derive(Debug, Clone, PartialEq, Eq)]
pub struct JoinGame {
    pub entity_id: i32,
    pub gamemode: u8,
    pub dimension: i32,
    pub hashed_seed: i64,
    pub max_players: u8,
    pub level_type: String,
    pub view_dist: Varint,
    pub reduced_debug: bool,
    pub respawn_screen: bool,
}

/// A `JoinGame` as plain values.
pub struct JoinGameView {
    pub entity_id: i32,
    pub gamemode: u8,
    pub dimension: i32,
    pub hashed_seed: i64,
    pub max_players: u8,
    pub level_type: Seq<char>,
    pub view_dist: i32,
    pub reduced_debug: bool,
    pub respawn_screen: bool,
}

impl View for JoinGame {
    type V = JoinGameView;

    open spec fn view(&self) -> JoinGameView {
        JoinGameView {
            entity_id: self.entity_id,
            gamemode: self.gamemode,
            dimension: self.dimension,
            hashed_seed: self.hashed_seed,
            max_players: self.max_players,
            level_type: self.level_type@,
            view_dist: self.view_dist@,
            reduced_debug: self.reduced_debug,
            respawn_screen: self.respawn_screen,
        }
    }
}

/// The fields of a `JoinGame` in wire order.
pub type JoinGameFields = (i32, (u8, (i32, (i64, (u8, (String, (Varint, (bool, bool))))))));

impl ProtoSerializable for JoinGame {
    open spec fn wire(v: JoinGameView) -> Result<Seq<u8>, ProtocolError> {
        JoinGameFields::wire(
            (
                v.entity_id,
                (
                    v.gamemode,
                    (
                        v.dimension,
                        (
                            v.hashed_seed,
                            (
                                v.max_players,
                                (v.level_type, (v.view_dist, (v.reduced_debug, v.respawn_screen))),
                            ),
                        ),
                    ),
                ),
            ),
        )
    }

    open spec fn parse(input: Seq<u8>) -> Result<(JoinGameView, nat), ProtocolError> {
        match JoinGameFields::parse(input) {
            Err(e) => Err(e),
            Ok((
                (
                    entity_id,
                    (
                        gamemode,
                        (
                            dimension,
                            (
                                hashed_seed,
                                (
                                    max_players,
                                    (level_type, (view_dist, (reduced_debug, respawn_screen))),
                                ),
                            ),
                        ),
                    ),
                ),
                n,
            )) => Ok(
                (
                    JoinGameView {
                        entity_id,
                        gamemode,
                        dimension,
                        hashed_seed,
                        max_players,
                        level_type,
                        view_dist,
                        reduced_debug,
                        respawn_screen,
                    },
                    n,
                ),
            ),
        }
    }

    proof fn lemma_parse_within(input: Seq<u8>) {
        JoinGameFields::lemma_parse_within(input);
    }

    fn read(r: &mut Reader<'_>) -> (res: Result<Self, ProtocolError>) {
        match JoinGameFields::read(r) {
            Ok(
                (
                    entity_id,
                    (
                        gamemode,
                        (
                            dimension,
                            (
                                hashed_seed,
                                (
                                    max_players,
                                    (level_type, (view_dist, (reduced_debug, respawn_screen))),
                                ),
                            ),
                        ),
                    ),
                ),
            ) => Ok(
                JoinGame {
                    entity_id,
                    gamemode,
                    dimension,
                    hashed_seed,
                    max_players,
                    level_type,
                    view_dist,
                    reduced_debug,
                    respawn_screen,
                },
            ),
            Err(e) => Err(e),
        }
    }

    fn write(&self, w: &mut Vec<u8>) -> (res: Result<(), ProtocolError>) {
        let mark = w.len();
        write_field(&self.entity_id, w, mark)?;
        write_field(&self.gamemode, w, mark)?;
        write_field(&self.dimension, w, mark)?;
        write_field(&self.hashed_seed, w, mark)?;
        write_field(&self.max_players, w, mark)?;
        write_field(&self.level_type, w, mark)?;
        write_field(&self.view_dist, w, mark)?;
        write_field(&self.reduced_debug, w, mark)?;
        write_field(&self.respawn_screen, w, mark)?;
        Ok(())
    }
}

impl RoundTrip for JoinGame {
    proof fn lemma_round_trip(v: JoinGameView, rest: Seq<u8>) {
        JoinGameFields::lemma_round_trip(
            (
                v.entity_id,
                (
                    v.gamemode,
                    (
                        v.dimension,
                        (
                            v.hashed_seed,
                            (
                                v.max_players,
                                (v.level_type, (v.view_dist, (v.reduced_debug, v.respawn_screen))),
                            ),
                        ),
                    ),
                ),
            ),
            rest,
        );
    }
}

impl ClientboundPacket for JoinGame {
    const ID: i32 = 0x26;

    open spec fn packet_id() -> i32 {
        0x26
    }

    proof fn lemma_id() {
    }

    open spec fn phase() -> State {
        State::Play
    }

    fn state() -> (s: State) {
        State::Play
    }
}

/// Names the chunk at the centre of the player's view.
#[derive(Debug, Clone, PartialEq, Eq)]
pub struct UpdateViewPosition {
    pub x: Varint,
    pub z: Varint,
}

/// An `UpdateViewPosition` as plain values.
pub struct UpdateViewPositionView {
    pub x: i32,
    pub z: i32,
}

impl View for UpdateViewPosition {
    type V = UpdateViewPositionView;

    open spec fn view(&self) -> UpdateViewPositionView {
        UpdateViewPositionView { x: self.x@, z: self.z@ }
    }
}

/// The fields of an `UpdateViewPosition` in wire order.
pub type UpdateViewPositionFields = (Varint, Varint);

impl ProtoSerializable for UpdateViewPosition {
    open spec fn wire(v: UpdateViewPositionView) -> Result<Seq<u8>, ProtocolError> {
        UpdateViewPositionFields::wire((v.x, v.z))
    }

    open spec fn parse(input: Seq<u8>) -> Result<(UpdateViewPositionView, nat), ProtocolError> {
        match UpdateViewPositionFields::parse(input) {
            Err(e) => Err(e),
            Ok(((x, z), n)) => Ok((UpdateViewPositionView { x, z }, n)),
        }
    }

    proof fn lemma_parse_within(input: Seq<u8>) {
        UpdateViewPositionFields::lemma_parse_within(input);
    }

    fn read(r: &mut Reader<'_>) -> (res: Result<Self, ProtocolError>) {
        match UpdateViewPositionFields::read(r) {
            Ok((x, z)) => Ok(UpdateViewPosition { x, z }),
            Err(e) => Err(e),
        }
    }

    fn write(&self, w: &mut Vec<u8>) -> (res: Result<(), ProtocolError>) {
        let mark = w.len();
        write_field(&self.x, w, mark)?;
        write_field(&self.z, w, mark)?;
        Ok(())
    }
}

impl RoundTrip for UpdateViewPosition {
    proof fn lemma_round_trip(v: UpdateViewPositionView, rest: Seq<u8>) {
        UpdateViewPositionFields::lemma_round_trip((v.x, v.z), rest);
    }
}

impl ClientboundPacket for UpdateViewPosition {
    const ID: i32 = 0x41;

    open spec fn packet_id() -> i32 {
        0x41
    }

    proof fn lemma_id() {
    }

    open spec fn phase() -> State {
        State::Play
    }

    fn state() -> (s: State) {
        State::Play
    }
}

/// The packets that the server sends in the play phase.
#[derive(Debug, Clone, PartialEq, Eq)]
pub enum Packet {
    Disconnect(Disconnect),
    KeepAlive(KeepAlive),
    JoinGame(JoinGame),
    UpdateViewPosition(UpdateViewPosition),
}

/// A packet as plain values.
pub enum PacketView {
    Disconnect(DisconnectView),
    KeepAlive(KeepAlive),
    JoinGame(JoinGameView),
    UpdateViewPosition(UpdateViewPositionView),
}

impl View for Packet {
    type V = PacketView;

    open spec fn view(&self) -> PacketView {
        match self {
            Packet::Disconnect(p) => PacketView::Disconnect(p@),
            Packet::KeepAlive(p) => PacketView::KeepAlive(p@),
            Packet::JoinGame(p) => PacketView::JoinGame(p@),
            Packet::UpdateViewPosition(p) => PacketView::UpdateViewPosition(p@),
        }
    }
}

impl Packet {
    /// Whether `id` is the discriminator of a packet of this table.
    pub open spec fn knows(id: i32) -> bool {
        id == Disconnect::packet_id()
            || id == KeepAlive::packet_id()
            || id == JoinGame::packet_id()
            || id == UpdateViewPosition::packet_id()
    }

    /// The discriminator under which a packet travels.
    pub open spec fn packet_id(v: PacketView) -> i32 {
        match v {
            PacketView::Disconnect(_) => Disconnect::packet_id(),
            PacketView::KeepAlive(_) => KeepAlive::packet_id(),
            PacketView::JoinGame(_) => JoinGame::packet_id(),
            PacketView::UpdateViewPosition(_) => UpdateViewPosition::packet_id(),
        }
    }

    /// The payload of a packet, or why it cannot be written.
    pub open spec fn payload(v: PacketView) -> Result<Seq<u8>, ProtocolError> {
        match v {
            PacketView::Disconnect(p) => Disconnect::wire(p),
            PacketView::KeepAlive(p) => KeepAlive::wire(p),
            PacketView::JoinGame(p) => JoinGame::wire(p),
            PacketView::UpdateViewPosition(p) => UpdateViewPosition::wire(p),
        }
    }

    /// The frame of a packet: its discriminator and its payload behind their length.
    pub open spec fn encoding(v: PacketView) -> Result<Seq<u8>, ProtocolError> {
        match Self::payload(v) {
            Err(e) => Err(e),
            Ok(bytes) => frame_encoding(Self::packet_id(v), bytes),
        }
    }

    /// The packet that a frame's content stands for, and the number of payload
    /// bytes left behind it. The discriminator picks the kind of packet.
    pub open spec fn decoding(raw: RawPacketView) -> Result<(PacketView, nat), ProtocolError> {
        if raw.packet_id == Disconnect::packet_id() {
            match payload_decoding::<Disconnect>(raw.data) {
                Err(e) => Err(e),
                Ok((p, left)) => Ok((PacketView::Disconnect(p), left)),
            }
        } else if raw.packet_id == KeepAlive::packet_id() {
            match payload_decoding::<KeepAlive>(raw.data) {
                Err(e) => Err(e),
                Ok((p, left)) => Ok((PacketView::KeepAlive(p), left)),
            }
        } else if raw.packet_id == JoinGame::packet_id() {
            match payload_decoding::<JoinGame>(raw.data) {
                Err(e) => Err(e),
                Ok((p, left)) => Ok((PacketView::JoinGame(p), left)),
            }
        } else if raw.packet_id == UpdateViewPosition::packet_id() {
            match payload_decoding::<UpdateViewPosition>(raw.data) {
                Err(e) => Err(e),
                Ok((p, left)) => Ok((PacketView::UpdateViewPosition(p), left)),
            }
        } else {
            Err(ProtocolError::UnknownPacket(raw.packet_id))
        }
    }

    /// The discriminator of this packet.
    pub fn id(&self) -> (id: i32)
        ensures
            id == Self::packet_id(self@),
    {
        match self {
            Packet::Disconnect(_) => Disconnect::ID,
            Packet::KeepAlive(_) => KeepAlive::ID,
            Packet::JoinGame(_) => JoinGame::ID,
            Packet::UpdateViewPosition(_) => UpdateViewPosition::ID,
        }
    }

    /// Decodes a frame's content as a packet of this table, and counts the
    /// payload bytes left behind it, which the caller is to report.
    pub fn try_from(raw: RawPacket) -> (res: Result<(Packet, usize), ProtocolError>)
        ensures
            match Self::decoding(raw@) {
                Ok((v, left)) => res is Ok && res->Ok_0.0@ == v && res->Ok_0.1 == left,
                Err(e) => res is Err && res->Err_0 == e,
            },
    {
        let data = raw.data.as_slice();
        if raw.packet_id == Disconnect::ID {
            match read_payload::<Disconnect>(data) {
                Ok((p, left)) => Ok((Packet::Disconnect(p), left)),
                Err(e) => Err(e),
            }
        } else if raw.packet_id == KeepAlive::ID {
            match read_payload::<KeepAlive>(data) {
                Ok((p, left)) => Ok((Packet::KeepAlive(p), left)),
                Err(e) => Err(e),
            }
        } else if raw.packet_id == JoinGame::ID {
            match read_payload::<JoinGame>(data) {
                Ok((p, left)) => Ok((Packet::JoinGame(p), left)),
                Err(e) => Err(e),
            }
        } else if raw.packet_id == UpdateViewPosition::ID {
            match read_payload::<UpdateViewPosition>(data) {
                Ok((p, left)) => Ok((Packet::UpdateViewPosition(p), left)),
                Err(e) => Err(e),
            }
        } else {
            Err(ProtocolError::UnknownPacket(raw.packet_id))
        }
    }

    /// Writes this packet as one frame. On failure nothing is written.
    pub fn write(&self, w: &mut Vec<u8>) -> (res: Result<(), ProtocolError>)
        ensures
            match Self::encoding(self@) {
                Ok(bytes) => res is Ok && final(w)@ == old(w)@ + bytes,
                Err(e) => res is Err && res->Err_0 == e && final(w)@ == old(w)@,
            },
    {
        match self {
            Packet::Disconnect(p) => write_packet(Disconnect::ID, p, w),
            Packet::KeepAlive(p) => write_packet(KeepAlive::ID, p, w),
            Packet::JoinGame(p) => write_packet(JoinGame::ID, p, w),
            Packet::UpdateViewPosition(p) => write_packet(UpdateViewPosition::ID, p, w),
        }
    }
}

/// A packet that can be written is decoded, from its discriminator and its
/// payload, as itself, with no byte left over.
pub proof fn lemma_packet_round_trip(v: PacketView)
    requires
        Packet::payload(v) is Ok,
    ensures
        Packet::decoding(
            RawPacketView { packet_id: Packet::packet_id(v), data: Packet::payload(v)->Ok_0 },
        ) == Ok::<(PacketView, nat), ProtocolError>((v, 0)),
{
    let data = Packet::payload(v)->Ok_0;
    assert(data + Seq::<u8>::empty() =~= data);
    match v {
        PacketView::Disconnect(p) => {
            Disconnect::lemma_round_trip(p, Seq::empty());
        },
        PacketView::KeepAlive(p) => {
            KeepAlive::lemma_round_trip(p, Seq::empty());
        },
        PacketView::JoinGame(p) => {
            JoinGame::lemma_round_trip(p, Seq::empty());
        },
        PacketView::UpdateViewPosition(p) => {
            UpdateViewPosition::lemma_round_trip(p, Seq::empty());
        },
    }
}

} // verus!
