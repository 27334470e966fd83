//! The phases of a connection and the steps between them.
//!
//! A [`Connection`] holds no socket. It is handed what was received, one
//! frame at a time, moves from phase to phase, and says what is to be done:
//! the caller sends, registers and forwards.

use vstd::prelude::*;
use crate::error::ProtocolError;
use crate::net::handshake::{Handshake, HandshakeFields};
use crate::net::login;
use crate::net::login::clientbound::LoginSuccess;
use crate::net::packet::{
    RawPacket, RawPacketView, ServerboundPacket, frame_decoding, frame_encoding,
    lemma_frame_truncated, payload_decoding_exact, read_payload_exact,
};
use crate::net::play;
use crate::net::proto::{PROTO_NAME, PROTO_VERSION, ProtoSerializable, Reader};
use crate::net::status;
use crate::net::status::{
    PlayerStatus, PlayerStatusView, StatusPayload, StatusPayloadView, VersionStatus,
    VersionStatusView,
};
use crate::net::status::clientbound::Pong;
use crate::types::session::{fresh_id, is_random};
use crate::types::text::{Text, TextView};

verus! {

/// The phase that a connection is in. A connection starts in `Handshake`;
/// `Play` is never left.
#[derive(Debug, Clone, Copy, PartialEq, Eq, Structural)]
pub enum State {
    Handshake,
    Status,
    Login,
    Play,
}

/// The lead byte of a legacy ping, which is older than framing.
pub const LEGACY_PING: u8 = 0xFE;

/// How long a connection may stay silent, in seconds, before whoever reads
/// it gives it up.
pub const READ_TIMEOUT_SECS: u64 = 30;

/// The number of players that a status answer gives as the most.
pub const MAX_PLAYERS: u32 = 25;

/// The description that a status answer carries.
pub const DESCRIPTION: &'static str = "mcrs server";

/// What the caller is to do after a step.
#[derive(Debug, Clone, PartialEq, Eq)]
pub enum Action {
    /// The handshake was accepted. Nothing is sent.
    Continue,
    /// Answer the status request: send a `Response` that carries this payload as JSON.
    Status(StatusPayload),
    /// Answer the ping: send this `Pong`, then close the connection.
    Pong(Pong),
    /// The login is complete: send this `LoginSuccess`, register the player
    /// under its identifier, and start writing what the server queues.
    Login(LoginSuccess),
    /// Hand this packet to the server.
    Forward(play::serverbound::Packet),
    /// A packet of the play phase did not decode. It is reported and dropped;
    /// the connection goes on.
    Dropped(ProtocolError),
}

/// The result of a step: what to do, and how many bytes of payload the
/// packet left undecoded, which is worth a warning where it is not zero.
#[derive(Debug, Clone, PartialEq, Eq)]
pub struct Step {
    pub action: Action,
    pub trailing: usize,
}

/// One connection's place in the protocol.
#[derive(Debug)]
pub struct Connection {
    state: State,
}

impl View for Connection {
    type V = State;

    closed spec fn view(&self) -> State {
        self.state
    }
}

/// What a server answers to every status request.
pub open spec fn server_status() -> StatusPayloadView {
    StatusPayloadView {
        version: VersionStatusView { name: PROTO_NAME@, protocol: PROTO_VERSION },
        players: PlayerStatusView { max: MAX_PLAYERS, online: 0, sample: Seq::empty() },
        description: TextView { text: DESCRIPTION@ },
        favicon: None,
    }
}

/// The phase that a frame received in the handshake phase leads to.
///
/// The discriminator is judged first, then the payload, which must be a
/// handshake and nothing more, then the protocol version.
pub open spec fn handshake_outcome(raw: RawPacketView) -> Result<State, ProtocolError> {
    if raw.packet_id != Handshake::packet_id() {
        Err(ProtocolError::UnknownPacket(raw.packet_id))
    } else {
        match payload_decoding_exact::<Handshake>(raw.data) {
            Err(e) => Err(e),
            Ok(handshake) => if handshake.proto_version != PROTO_VERSION {
                Err(ProtocolError::VersionMismatch)
            } else {
                Ok(handshake.next_state)
            },
        }
    }
}

/// A step refused because the connection is in another phase.
pub open spec fn refused_as_wrong_phase(
    before: State,
    after: State,
    res: Result<Step, ProtocolError>,
) -> bool {
    res is Err && res->Err_0 == ProtocolError::WrongPhase && after == before
}

/// What a step in the handshake phase does.
pub open spec fn after_handshake(
    before: State,
    raw: RawPacketView,
    after: State,
    res: Result<Step, ProtocolError>,
) -> bool {
    if before != State::Handshake {
        refused_as_wrong_phase(before, after, res)
    } else {
        match handshake_outcome(raw) {
            Ok(next) => res is Ok && res->Ok_0.action is Continue && res->Ok_0.trailing == 0
                && after == next,
            Err(e) => res is Err && res->Err_0 == e && after == before,
        }
    }
}

/// What a step in the status phase does. The phase is not left.
pub open spec fn after_status(
    before: State,
    raw: RawPacketView,
    after: State,
    res: Result<Step, ProtocolError>,
) -> bool {
    if before != State::Status {
        refused_as_wrong_phase(before, after, res)
    } else {
        after == before && match status::serverbound::Packet::decoding(raw) {
            Err(e) => res is Err && res->Err_0 == e,
            Ok((status::serverbound::PacketView::Request(_), left)) => res is Ok
                && res->Ok_0.trailing == left && res->Ok_0.action is Status
                && res->Ok_0.action->Status_0@ == server_status(),
            Ok((status::serverbound::PacketView::Ping(ping), left)) => res is Ok
                && res->Ok_0.trailing == left && res->Ok_0.action is Pong
                && res->Ok_0.action->Pong_0.val == ping.val,
        }
    }
}

/// What a step in the login phase does, whatever identifier the session is given.
pub open spec fn after_login(
    before: State,
    raw: RawPacketView,
    after: State,
    res: Result<Step, ProtocolError>,
) -> bool {
    if before != State::Login {
        refused_as_wrong_phase(before, after, res)
    } else {
        match login::serverbound::Packet::decoding(raw) {
            Err(e) => res is Err && res->Err_0 == e && after == before,
            Ok(login::serverbound::PacketView::LoginStart(start)) => res is Ok
                && res->Ok_0.trailing == 0 && res->Ok_0.action is Login
                && res->Ok_0.action->Login_0.name@ == start.name && after == State::Play,
        }
    }
}

/// What a step in the play phase does. It never fails and the phase is not left.
pub open spec fn after_play(
    before: State,
    raw: RawPacketView,
    after: State,
    res: Result<Step, ProtocolError>,
) -> bool {
    if before != State::Play {
        refused_as_wrong_phase(before, after, res)
    } else {
        after == before && res is Ok && match play::serverbound::Packet::decoding(raw) {
            Ok((packet, left)) => res->Ok_0.trailing == left && res->Ok_0.action is Forward
                && res->Ok_0.action->Forward_0@ == packet,
            Err(e) => res->Ok_0.trailing == 0 && res->Ok_0.action is Dropped
                && res->Ok_0.action->Dropped_0 == e,
        }
    }
}

/// What a step does in the phase that the connection is in.
pub open spec fn after_step(
    before: State,
    raw: RawPacketView,
    after: State,
    res: Result<Step, ProtocolError>,
) -> bool {
    match before {
        State::Handshake => after_handshake(before, raw, after, res),
        State::Status => after_status(before, raw, after, res),
        State::Login => after_login(before, raw, after, res),
        State::Play => after_play(before, raw, after, res),
    }
}

/// Whether a stream that is about to be read in phase `phase` opens with a legacy ping.
pub open spec fn opens_with_legacy_ping(phase: State, input: Seq<u8>) -> bool {
    phase == State::Handshake && input.len() > 0 && input[0] == LEGACY_PING
}

/// What reading and taking one frame does.
pub open spec fn received(
    before: State,
    input: Seq<u8>,
    after: State,
    rest: Seq<u8>,
    res: Result<Step, ProtocolError>,
) -> bool {
    if opens_with_legacy_ping(before, input) {
        res is Err && res->Err_0 == ProtocolError::UnsupportedLegacyProbe && after == before
            && rest == input
    } else {
        match frame_decoding(input) {
            Err(e) => res is Err && res->Err_0 == e && after == before && rest == input,
            Ok((raw, n)) => rest == input.skip(n as int) && after_step(before, raw, after, res),
        }
    }
}

/// The phases that one step may lead to from a phase: the phase itself, or
/// the next on its way. `Status` and `Play` are never left.
pub open spec fn may_follow(before: State, after: State) -> bool {
    match before {
        State::Handshake => after == State::Handshake || after == State::Status || after
            == State::Login,
        State::Status => after == State::Status,
        State::Login => after == State::Login || after == State::Play,
        State::Play => after == State::Play,
    }
}

/// The phases run one way: no step leads back to a phase that was left, and
/// a step that fails leaves the connection where it was.
pub proof fn lemma_phases_run_one_way(
    before: State,
    raw: RawPacketView,
    after: State,
    res: Result<Step, ProtocolError>,
)
    requires
        after_step(before, raw, after, res),
    ensures
        may_follow(before, after),
        res is Err ==> after == before,
{
}

/// A handshake that names another protocol version than the supported one
/// is rejected, whatever else it holds, and the connection stays where it is.
pub proof fn lemma_version_mismatch_rejected(
    raw: RawPacketView,
    after: State,
    res: Result<Step, ProtocolError>,
)
    requires
        raw.packet_id == Handshake::packet_id(),
        payload_decoding_exact::<Handshake>(raw.data) is Ok,
        payload_decoding_exact::<Handshake>(raw.data)->Ok_0.proto_version != PROTO_VERSION,
        after_handshake(State::Handshake, raw, after, res),
    ensures
        res is Err,
        res->Err_0 == ProtocolError::VersionMismatch,
        after == State::Handshake,
{
}

/// A handshake of the supported version, with nothing behind it, leads to
/// `Status` where it asks for phase 1 and to `Login` where it asks for
/// phase 2; asking for any other number is rejected and leads nowhere.
pub proof fn lemma_handshake_leads_where_asked(
    raw: RawPacketView,
    after: State,
    res: Result<Step, ProtocolError>,
)
    requires
        raw.packet_id == Handshake::packet_id(),
        HandshakeFields::parse(raw.data) is Ok,
        HandshakeFields::parse(raw.data)->Ok_0.1 == raw.data.len(),
        HandshakeFields::parse(raw.data)->Ok_0.0.0 == PROTO_VERSION,
        after_handshake(State::Handshake, raw, after, res),
    ensures
        ({
            let number = HandshakeFields::parse(raw.data)->Ok_0.0.1.1.1;
            &&& number == 1 ==> res is Ok && after == State::Status
            &&& number == 2 ==> res is Ok && after == State::Login
            &&& number != 1 && number != 2 ==> res is Err && res->Err_0
                == ProtocolError::WrongPhase && after == State::Handshake
        }),
{
}

/// A packet of the play phase under a discriminator that the phase does not
/// know is dropped: the step succeeds and the connection stays in the phase.
pub proof fn lemma_unknown_play_packet_dropped(
    raw: RawPacketView,
    after: State,
    res: Result<Step, ProtocolError>,
)
    requires
        !play::serverbound::Packet::knows(raw.packet_id),
        after_play(State::Play, raw, after, res),
    ensures
        res is Ok,
        res->Ok_0.action is Dropped,
        res->Ok_0.action->Dropped_0 == ProtocolError::UnknownPacket(raw.packet_id),
        after == State::Play,
{
}

/// A frame cut short anywhere is fatal in every phase: the step fails,
/// nothing is read, and the connection stays where it is.
pub proof fn lemma_truncated_frame_fatal(
    before: State,
    packet_id: i32,
    payload: Seq<u8>,
    cut: int,
    after: State,
    rest: Seq<u8>,
    res: Result<Step, ProtocolError>,
)
    requires
        frame_encoding(packet_id, payload) is Ok,
        0 <= cut < frame_encoding(packet_id, payload)->Ok_0.len(),
        received(before, frame_encoding(packet_id, payload)->Ok_0.take(cut), after, rest, res),
    ensures
        res is Err,
        after == before,
        rest == frame_encoding(packet_id, payload)->Ok_0.take(cut),
{
    lemma_frame_truncated(packet_id, payload, cut);
}

/// Judges the first byte of a stream: the lead byte of a legacy ping is refused.
pub fn check_lead_byte(first: u8) -> (res: Result<(), ProtocolError>)
    ensures
        first == LEGACY_PING ==> res == Err::<(), ProtocolError>(
            ProtocolError::UnsupportedLegacyProbe,
        ),
        first != LEGACY_PING ==> res is Ok,
{
    if first == LEGACY_PING {
        Err(ProtocolError::UnsupportedLegacyProbe)
    } else {
        Ok(())
    }
}

/// What becomes of a connection after it has handed a packet to the
/// server's queue: it goes on where the queue took the packet, and ends
/// with `ChannelClosed` where the queue's other end is gone.
pub fn forwarded(taken: bool) -> (res: Result<(), ProtocolError>)
    ensures
        taken ==> res is Ok,
        !taken ==> res == Err::<(), ProtocolError>(ProtocolError::ChannelClosed),
{
    if taken {
        Ok(())
    } else {
        Err(ProtocolError::ChannelClosed)
    }
}

impl Action {
    /// Whether the connection is to be closed once the action is done.
    pub fn closes(&self) -> (b: bool)
        ensures
            b == (*self is Pong),
    {
        match self {
            Action::Pong(_) => true,
            _ => false,
        }
    }
}

impl Connection {
    /// A connection before its first frame.
    pub fn new() -> (c: Self)
        ensures
            c@ == State::Handshake,
    {
        Connection { state: State::Handshake }
    }

    /// The phase that the connection is in.
    pub fn state(&self) -> (s: State)
        ensures
            s == self@,
    {
        self.state
    }

    /// Takes the handshake: the frame must be one, of the supported version,
    /// and the connection moves to the phase that it asks for.
    pub fn process_handshake(&mut self, raw: RawPacket) -> (res: Result<Step, ProtocolError>)
        ensures
            after_handshake(old(self)@, raw@, final(self)@, res),
    {
        if self.state != State::Handshake {
            return Err(ProtocolError::WrongPhase);
        }
        proof {
            Handshake::lemma_id();
        }
        if raw.packet_id != Handshake::ID {
            return Err(ProtocolError::UnknownPacket(raw.packet_id));
        }
        let handshake = match read_payload_exact::<Handshake>(raw.data.as_slice()) {
            Ok(handshake) => handshake,
            Err(e) => {
                return Err(e);
            },
        };
        if handshake.proto_version != PROTO_VERSION {
            return Err(ProtocolError::VersionMismatch);
        }
        self.state = handshake.next_state;
        Ok(Step { action: Action::Continue, trailing: 0 })
    }

    /// Takes one packet of the status phase: a request is answered with the
    /// server's status, a ping with its echo.
    pub fn process_status(&mut self, raw: RawPacket) -> (res: Result<Step, ProtocolError>)
        ensures
            after_status(old(self)@, raw@, final(self)@, res),
    {
        if self.state != State::Status {
            return Err(ProtocolError::WrongPhase);
        }
        let (packet, trailing) = match status::serverbound::Packet::try_from(raw) {
            Ok(decoded) => decoded,
            Err(e) => {
                return Err(e);
            },
        };
        let action = match packet {
            status::serverbound::Packet::Request(_) => {
                let version = VersionStatus::new(PROTO_NAME.to_owned(), PROTO_VERSION);
                let players = PlayerStatus::new(MAX_PLAYERS, 0, Vec::new());
                let description = Text { text: DESCRIPTION.to_owned() };
                let payload = StatusPayload::new(version, players, description, None);
                proof {
                    assert(payload@.players.sample =~= Seq::empty());
                }
                Action::Status(payload)
            },
            status::serverbound::Packet::Ping(ping) => Action::Pong(Pong { val: ping.val }),
        };
        Ok(Step { action, trailing })
    }

    /// Takes the login start and completes the login under the identifier
    /// `uuid`: the connection moves to the play phase.
    pub fn login(&mut self, raw: RawPacket, uuid: u128) -> (res: Result<Step, ProtocolError>)
        ensures
            after_login(old(self)@, raw@, final(self)@, res),
            res is Ok ==> res->Ok_0.action->Login_0.uuid == uuid,
    {
        if self.state != State::Login {
            return Err(ProtocolError::WrongPhase);
        }
        let packet = match login::serverbound::Packet::try_from(raw) {
            Ok(packet) => packet,
            Err(e) => {
                return Err(e);
            },
        };
        match packet {
            login::serverbound::Packet::LoginStart(start) => {
                self.state = State::Play;
                let success = LoginSuccess { uuid, name: start.name };
                Ok(Step { action: Action::Login(success), trailing: 0 })
            },
        }
    }

    /// Takes the login start and completes the login under a fresh random identifier.
    pub fn process_login(&mut self, raw: RawPacket) -> (res: Result<Step, ProtocolError>)
        ensures
            after_login(old(self)@, raw@, final(self)@, res),
            res is Ok ==> is_random(res->Ok_0.action->Login_0.uuid),
    {
        let uuid = fresh_id();
        self.login(raw, uuid)
    }

    /// Takes one packet of the play phase, to be handed to the server. A
    /// packet that does not decode is dropped, and the connection goes on.
    pub fn process_play(&mut self, raw: RawPacket) -> (res: Result<Step, ProtocolError>)
        ensures
            after_play(old(self)@, raw@, final(self)@, res),
    {
        if self.state != State::Play {
            return Err(ProtocolError::WrongPhase);
        }
        match play::serverbound::Packet::try_from(raw) {
            Ok((packet, trailing)) => Ok(Step { action: Action::Forward(packet), trailing }),
            Err(e) => Ok(Step { action: Action::Dropped(e), trailing: 0 }),
        }
    }

    /// Takes one frame's content in the phase that the connection is in.
    /// After an error the connection is to be torn down.
    pub fn process(&mut self, raw: RawPacket) -> (res: Result<Step, ProtocolError>)
        ensures
            after_step(old(self)@, raw@, final(self)@, res),
            res is Ok && res->Ok_0.action is Login ==> is_random(res->Ok_0.action->Login_0.uuid),
    {
        match self.state {
            State::Handshake => self.process_handshake(raw),
            State::Status => self.process_status(raw),
            State::Login => self.process_login(raw),
            State::Play => self.process_play(raw),
        }
    }

    /// Reads one frame from `r` and takes it. In the handshake phase a
    /// stream that opens with the lead byte of a legacy ping is refused
    /// before anything is read. A frame that cannot be read is an error, and
    /// leaves `r` where it was; a frame that was read stays read.
    pub fn receive(&mut self, r: &mut Reader<'_>) -> (res: Result<Step, ProtocolError>)
        ensures
            received(old(self)@, old(r)@, final(self)@, final(r)@, res),
            res is Ok && res->Ok_0.action is Login ==> is_random(res->Ok_0.action->Login_0.uuid),
    {
        if self.state == State::Handshake && r.remaining() > 0 {
            let rest = r.rest();
            match check_lead_byte(rest[0]) {
                Ok(()) => {},
                Err(e) => {
                    return Err(e);
                },
            }
        }
        let raw = match RawPacket::read(r) {
            Ok(raw) => raw,
            Err(e) => {
                return Err(e);
            },
        };
        self.process(raw)
    }
}

} // verus!
