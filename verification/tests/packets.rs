use mcrs::error::ProtocolError;
use mcrs::net::connection::State;
use mcrs::net::handshake::Handshake;
use mcrs::net::login;
use mcrs::net::packet::{ClientboundPacket, ServerboundPacket};
use mcrs::net::play;
use mcrs::net::proto::{read, ProtoSerializable, Reader};
use mcrs::net::status;

fn written<T: ProtoSerializable>(value: &T) -> Vec<u8> {
    let mut buf = Vec::new();
    value.write(&mut buf).unwrap();
    buf
}

#[test]
fn discriminators_and_phases_are_those_of_the_tables() {
    assert_eq!(<Handshake as ServerboundPacket>::ID, 0);
    assert_eq!(<Handshake as ServerboundPacket>::state(), State::Handshake);
    assert_eq!(<status::serverbound::Request as ServerboundPacket>::ID, 0);
    assert_eq!(<status::serverbound::Ping as ServerboundPacket>::ID, 1);
    assert_eq!(<status::serverbound::Ping as ServerboundPacket>::state(), State::Status);
    assert_eq!(<status::clientbound::Response as ClientboundPacket>::ID, 0);
    assert_eq!(<status::clientbound::Pong as ClientboundPacket>::ID, 1);
    assert_eq!(<status::clientbound::Pong as ClientboundPacket>::state(), State::Status);
    assert_eq!(<login::serverbound::LoginStart as ServerboundPacket>::ID, 0);
    assert_eq!(<login::serverbound::LoginStart as ServerboundPacket>::state(), State::Login);
    assert_eq!(<login::clientbound::Disconnect as ClientboundPacket>::ID, 0);
    assert_eq!(<login::clientbound::LoginSuccess as ClientboundPacket>::ID, 2);
    assert_eq!(<login::clientbound::LoginSuccess as ClientboundPacket>::state(), State::Login);
    assert_eq!(<play::clientbound::Disconnect as ClientboundPacket>::ID, 0x1B);
    assert_eq!(<play::clientbound::KeepAlive as ClientboundPacket>::ID, 0x21);
    assert_eq!(<play::clientbound::JoinGame as ClientboundPacket>::ID, 0x26);
    assert_eq!(<play::clientbound::UpdateViewPosition as ClientboundPacket>::ID, 0x41);
    assert_eq!(<play::clientbound::JoinGame as ClientboundPacket>::state(), State::Play);
    assert_eq!(<play::serverbound::Chat as ServerboundPacket>::ID, 0x03);
    assert_eq!(<play::serverbound::KeepAliveResponse as ServerboundPacket>::ID, 0x0F);
    assert_eq!(<play::serverbound::PlayerPosition as ServerboundPacket>::ID, 0x11);
    assert_eq!(<play::serverbound::PlayerPositionAndRotation as ServerboundPacket>::ID, 0x12);
    assert_eq!(<play::serverbound::PlayerRotation as ServerboundPacket>::ID, 0x13);
    assert_eq!(<play::serverbound::PlayerMovement as ServerboundPacket>::ID, 0x14);
    assert_eq!(<play::serverbound::Chat as ServerboundPacket>::state(), State::Play);
}

#[test]
fn handshake_bytes() {
    let h = Handshake {
        proto_version: 578,
        addr: "localhost".to_string(),
        port: 25565,
        next_state: State::Login,
    };
    let bytes = written(&h);
    let mut expected = vec![0xc2, 0x04, 9];
    expected.extend_from_slice(b"localhost");
    expected.extend_from_slice(&[0x63, 0xdd, 2]);
    assert_eq!(bytes, expected);
    assert_eq!(read::<Handshake>(&mut Reader::new(&bytes)), Ok(h));
}

#[test]
fn handshake_next_state_one_is_status_two_is_login() {
    let mut bytes = vec![0xc2, 0x04, 0, 0, 0, 1];
    assert_eq!(read::<Handshake>(&mut Reader::new(&bytes)).unwrap().next_state, State::Status);
    bytes[5] = 2;
    assert_eq!(read::<Handshake>(&mut Reader::new(&bytes)).unwrap().next_state, State::Login);
    for other in [0u8, 3, 4, 0x7f] {
        bytes[5] = other;
        let mut r = Reader::new(&bytes);
        assert_eq!(read::<Handshake>(&mut r), Err(ProtocolError::WrongPhase));
        assert_eq!(r.remaining(), 6);
    }
}

#[test]
fn handshake_for_a_phase_that_cannot_be_asked_for_is_not_written() {
    for phase in [State::Handshake, State::Play] {
        let h = Handshake { proto_version: 578, addr: String::new(), port: 0, next_state: phase };
        let mut buf = vec![1u8];
        assert_eq!(h.write(&mut buf), Err(ProtocolError::WrongPhase));
        assert_eq!(buf, vec![1u8]);
    }
}

