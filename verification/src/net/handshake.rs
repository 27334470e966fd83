//! The handshake: the one packet of the first phase, which names the
//! protocol version and asks for the phase to follow.

use vstd::prelude::*;
use crate::error::ProtocolError;
use crate::net::connection::State;
use crate::net::packet::ServerboundPacket;
use crate::net::proto::{ProtoSerializable, Reader, RoundTrip};
use crate::net::proto::fields::write_field;
use crate::net::proto::varint::Varint;

verus! {

/// What a client opens a connection with.
#[derive(Debug, Clone, PartialEq, Eq)]
pub struct Handshake {
    pub proto_version: i32,
    pub addr: String,
    pub port: u16,
    pub next_state: State,
}

/// A handshake as plain values.
pub struct HandshakeView {
    pub proto_version: i32,
    pub addr: Seq<char>,
    pub port: u16,
    pub next_state: State,
}

impl View for Handshake {
    type V = HandshakeView;

    open spec fn view(&self) -> HandshakeView {
        HandshakeView {
            proto_version: self.proto_version,
            addr: self.addr@,
            port: self.port,
            next_state: self.next_state,
        }
    }
}

/// The fields of a handshake in wire order: the version, the address, the
/// port, and the number of the phase asked for.
pub type HandshakeFields = (Varint, (String, (u16, Varint)));

/// The phase that a handshake asks for by `number`: 1 is `Status`, 2 is
/// `Login`, and no other number asks for any.
pub open spec fn requested_phase(number: i32) -> Option<State> {
    if number == 1 {
        Some(State::Status)
    } else if number == 2 {
        Some(State::Login)
    } else {
        None
    }
}

/// The number by which a handshake asks for `phase`, where it can be asked for.
pub open spec fn phase_number(phase: State) -> Option<i32> {
    match phase {
        State::Status => Some(1),
        State::Login => Some(2),
        _ => None,
    }
}

impl ProtoSerializable for Handshake {
    /// A handshake that asks for `Handshake` or `Play` cannot be written.
    open spec fn wire(v: HandshakeView) -> Result<Seq<u8>, ProtocolError> {
        match phase_number(v.next_state) {
            None => Err(ProtocolError::WrongPhase),
            Some(number) => HandshakeFields::wire((v.proto_version, (v.addr, (v.port, number)))),
        }
    }

    /// All four fields are read before the phase number is judged.
    open spec fn parse(input: Seq<u8>) -> Result<(HandshakeView, nat), ProtocolError> {
        match HandshakeFields::parse(input) {
            Err(e) => Err(e),
            Ok(((proto_version, (addr, (port, number))), n)) => match requested_phase(number) {
                None => Err(ProtocolError::WrongPhase),
                Some(next_state) => Ok(
                    (HandshakeView { proto_version, addr, port, next_state }, n),
                ),
            },
        }
    }

    proof fn lemma_parse_within(input: Seq<u8>) {
        HandshakeFields::lemma_parse_within(input);
    }

    fn read(r: &mut Reader<'_>) -> (res: Result<Self, ProtocolError>) {
        let mut c = *r;
        let (proto_version, (addr, (port, number))) = match HandshakeFields::read(&mut c) {
            Ok(fields) => fields,
            Err(e) => {
                return Err(e);
            },
        };
        let next_state = if number.0 == 1 {
            State::Status
        } else if number.0 == 2 {
            State::Login
        } else {
            return Err(ProtocolError::WrongPhase);
        };
        *r = c;
        Ok(Handshake { proto_version: proto_version.0, addr, port, next_state })
    }

    fn write(&self, w: &mut Vec<u8>) -> (res: Result<(), ProtocolError>) {
        let number: i32 = match self.next_state {
            State::Status => 1,
            State::Login => 2,
            _ => {
                return Err(ProtocolError::WrongPhase);
            },
        };
        let mark = w.len();
        write_field(&Varint(self.proto_version), w, mark)?;
        write_field(&self.addr, w, mark)?;
        write_field(&self.port, w, mark)?;
        write_field(&Varint(number), w, mark)?;
        Ok(())
    }
}

impl RoundTrip for Handshake {
    proof fn lemma_round_trip(v: HandshakeView, rest: Seq<u8>) {
        if let Some(number) = phase_number(v.next_state) {
            HandshakeFields::lemma_round_trip((v.proto_version, (v.addr, (v.port, number))), rest);
        }
    }
}

impl ServerboundPacket for Handshake {
    const ID: i32 = 0;

    open spec fn packet_id() -> i32 {
        0
    }

    proof fn lemma_id() {
    }

    open spec fn phase() -> State {
        State::Handshake
    }

    fn state() -> (s: State) {
        State::Handshake
    }
}

} // verus!
