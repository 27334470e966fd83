use mcrs::error::ProtocolError;
use mcrs::net::connection::{
    check_lead_byte, forwarded, Action, Connection, State, Step, DESCRIPTION, LEGACY_PING,
    MAX_PLAYERS, READ_TIMEOUT_SECS,
};
use mcrs::net::handshake::Handshake;
use mcrs::net::login;
use mcrs::net::packet::{write_packet, RawPacket};
use mcrs::net::play;
use mcrs::net::proto::{read, ProtoSerializable, Reader, PROTO_NAME, PROTO_VERSION};
use mcrs::net::status;

fn handshake_frame(proto_version: i32, next_state: State) -> Vec<u8> {
    let h = Handshake { proto_version, addr: "localhost".to_string(), port: 25565, next_state };
    let mut buf = Vec::new();
    write_packet(0, &h, &mut buf).unwrap();
    buf
}

fn raw(packet_id: i32, data: &[u8]) -> RawPacket {
    RawPacket { packet_id, data: data.to_vec() }
}

fn connection_in(phase: State) -> Connection {
    let mut c = Connection::new();
    match phase {
        State::Handshake => {},
        State::Status => {
            let bytes = handshake_frame(PROTO_VERSION, State::Status);
            c.receive(&mut Reader::new(&bytes)).unwrap();
        },
        State::Login => {
            let bytes = handshake_frame(PROTO_VERSION, State::Login);
            c.receive(&mut Reader::new(&bytes)).unwrap();
        },
        State::Play => {
            let bytes = handshake_frame(PROTO_VERSION, State::Login);
            c.receive(&mut Reader::new(&bytes)).unwrap();
            c.process(raw(0, &[1, b'x'])).unwrap();
        },
    }
    assert_eq!(c.state(), phase);
    c
}

#[test]
fn a_connection_starts_in_the_handshake_phase() {
    assert_eq!(Connection::new().state(), State::Handshake);
    assert_eq!(PROTO_VERSION, 578);
    assert_eq!(PROTO_NAME, "1.15.2");
}

#[test]
fn handshake_for_status_moves_to_status() {
    let mut c = Connection::new();
    let bytes = handshake_frame(578, State::Status);
    let mut r = Reader::new(&bytes);
    assert_eq!(c.receive(&mut r), Ok(Step { action: Action::Continue, trailing: 0 }));
    assert_eq!(c.state(), State::Status);
    assert_eq!(r.remaining(), 0);
}

#[test]
fn handshake_for_login_moves_to_login() {
    let mut c = Connection::new();
    let bytes = handshake_frame(578, State::Login);
    assert_eq!(
        c.receive(&mut Reader::new(&bytes)),
        Ok(Step { action: Action::Continue, trailing: 0 })
    );
    assert_eq!(c.state(), State::Login);
}

#[test]
fn handshake_for_any_other_phase_is_rejected() {
    for number in [0u8, 3, 100] {
        let mut c = Connection::new();
        let data = [0xc2, 0x04, 0, 0, 0, number];
        assert_eq!(c.process(raw(0, &data)), Err(ProtocolError::WrongPhase));
        assert_eq!(c.state(), State::Handshake);
    }
}

#[test]
fn handshake_of_another_version_is_rejected_and_the_phase_is_kept() {
    for version in [577, 579, 0, -1, i32::MAX] {
        for next in [State::Status, State::Login] {
            let mut c = Connection::new();
            let bytes = handshake_frame(version, next);
            assert_eq!(
                c.receive(&mut Reader::new(&bytes)),
                Err(ProtocolError::VersionMismatch)
            );
            assert_eq!(c.state(), State::Handshake);
        }
    }
}

#[test]
fn handshake_under_another_discriminator_is_unknown() {
    let mut c = Connection::new();
    let h = Handshake {
        proto_version: 578,
        addr: String::new(),
        port: 0,
        next_state: State::Status,
    };
    let mut buf = Vec::new();
    write_packet(1, &h, &mut buf).unwrap();
    assert_eq!(c.receive(&mut Reader::new(&buf)), Err(ProtocolError::UnknownPacket(1)));
    assert_eq!(c.state(), State::Handshake);
}

#[test]
fn handshake_with_bytes_left_over_is_rejected() {
    let mut c = Connection::new();
    let data = [0xc2, 0x04, 0, 0, 0, 1, 0];
    assert_eq!(c.process_handshake(raw(0, &data)), Err(ProtocolError::InvalidEncoding));
    assert_eq!(c.state(), State::Handshake);
}

#[test]
fn legacy_ping_is_refused_before_framing() {
    assert_eq!(LEGACY_PING, 0xFE);
    assert_eq!(check_lead_byte(0xFE), Err(ProtocolError::UnsupportedLegacyProbe));
    assert_eq!(check_lead_byte(0xFD), Ok(()));
    assert_eq!(check_lead_byte(0), Ok(()));
    let mut c = Connection::new();
    let bytes = [0xFEu8, 0x01, 0xFA];
    let mut r = Reader::new(&bytes);
    assert_eq!(c.receive(&mut r), Err(ProtocolError::UnsupportedLegacyProbe));
    assert_eq!(r.remaining(), 3);
    assert_eq!(c.state(), State::Handshake);
}

#[test]
fn lead_byte_of_a_legacy_ping_is_an_ordinary_length_after_the_handshake() {
    let mut c = connection_in(State::Play);
    // a frame of 254 bytes: discriminator 0x03 and a chat line of 251 characters
    let mut bytes = vec![0xFE, 0x01, 0x03, 0xFB, 0x01];
    bytes.extend(std::iter::repeat(b'a').take(251));
    let step = c.receive(&mut Reader::new(&bytes)).unwrap();
    assert!(matches!(step.action, Action::Forward(play::serverbound::Packet::Chat(_))));
}

#[test]
fn status_request_is_answered_with_the_status_of_the_server() {
    let mut c = connection_in(State::Status);
    let frame = [1u8, 0];
    let step = c.receive(&mut Reader::new(&frame)).unwrap();
    assert_eq!(step.trailing, 0);
    assert!(!step.action.closes());
    let payload = match step.action {
        Action::Status(payload) => payload,
        other => panic!("unexpected action {:?}", other),
    };
    assert_eq!(payload.version.name, "1.15.2");
    assert_eq!(payload.version.protocol, 578);
    assert_eq!(payload.players.max, MAX_PLAYERS);
    assert_eq!(payload.players.max, 25);
    assert_eq!(payload.players.online, 0);
    assert!(payload.players.sample.is_empty());
    assert_eq!(payload.description.text, DESCRIPTION);
    assert_eq!(payload.description.text, "mcrs server");
    assert_eq!(payload.favicon, None);
    assert_eq!(c.state(), State::Status);
}

fn json_string(text: &str) -> serde_json::Value {
    serde_json::Value::String(text.to_string())
}

fn status_json(payload: &status::StatusPayload) -> String {
    let mut version = serde_json::Map::new();
    version.insert("name".to_string(), json_string(&payload.version.name));
    version.insert("protocol".to_string(), serde_json::Value::from(payload.version.protocol));
    let mut players = serde_json::Map::new();
    players.insert("max".to_string(), serde_json::Value::from(payload.players.max));
    players.insert("online".to_string(), serde_json::Value::from(payload.players.online));
    let sample = payload
        .players
        .sample
        .iter()
        .map(|s| {
            let mut entry = serde_json::Map::new();
            entry.insert("name".to_string(), json_string(&s.name));
            entry.insert("id".to_string(), json_string(&s.id));
            serde_json::Value::Object(entry)
        })
        .collect();
    players.insert("sample".to_string(), serde_json::Value::Array(sample));
    let mut description = serde_json::Map::new();
    description.insert("text".to_string(), json_string(&payload.description.text));
    let mut root = serde_json::Map::new();
    root.insert("version".to_string(), serde_json::Value::Object(version));
    root.insert("players".to_string(), serde_json::Value::Object(players));
    root.insert("description".to_string(), serde_json::Value::Object(description));
    if let Some(icon) = &payload.favicon {
        root.insert("favicon".to_string(), json_string(icon));
    }
    serde_json::to_string(&serde_json::Value::Object(root)).unwrap()
}

#[test]
fn status_end_to_end() {
    let mut c = Connection::new();
    let mut stream = handshake_frame(578, State::Status);
    stream.extend_from_slice(&[1, 0]);
    stream.extend_from_slice(&[9, 1, 0, 0, 0, 0, 0, 0, 0, 42]);
    let mut r = Reader::new(&stream);

    assert_eq!(c.receive(&mut r).unwrap().action, Action::Continue);

    let payload = match c.receive(&mut r).unwrap().action {
        Action::Status(payload) => payload,
        other => panic!("unexpected action {:?}", other),
    };
    let response = status::clientbound::Packet::Response(status::clientbound::Response {
        status_json: status_json(&payload),
    });
    let mut out = Vec::new();
    response.write(&mut out).unwrap();
    let (decoded, left) =
        status::clientbound::Packet::try_from(read::<RawPacket>(&mut Reader::new(&out)).unwrap())
            .unwrap();
    assert_eq!(left, 0);
    let json = match decoded {
        status::clientbound::Packet::Response(response) => response.status_json,
        other => panic!("unexpected packet {:?}", other),
    };
    let value: serde_json::Value = serde_json::from_str(&json).unwrap();
    assert_eq!(value["version"]["name"], "1.15.2");
    assert_eq!(value["version"]["protocol"], 578);
    assert_eq!(value["players"]["online"], 0);
    assert_eq!(value["players"]["max"], 25);
    assert_eq!(value["description"]["text"], "mcrs server");
    assert!(value.get("favicon").is_none());

    let step = c.receive(&mut r).unwrap();
    assert!(step.action.closes());
    let pong = match step.action {
        Action::Pong(pong) => pong,
        other => panic!("unexpected action {:?}", other),
    };
    assert_eq!(pong.val, 42);
    let mut out = Vec::new();
    status::clientbound::Packet::Pong(pong).write(&mut out).unwrap();
    assert_eq!(out, vec![9, 1, 0, 0, 0, 0, 0, 0, 0, 42]);
    assert_eq!(r.remaining(), 0);
    assert_eq!(c.state(), State::Status);
}

#[test]
fn ping_echoes_every_value() {
    for val in [0i64, -1, i64::MAX, i64::MIN, 42] {
        let mut c = connection_in(State::Status);
        let mut data = Vec::new();
        val.write(&mut data).unwrap();
        let step = c.process(raw(1, &data)).unwrap();
        assert_eq!(
            step,
            Step { action: Action::Pong(status::clientbound::Pong { val }), trailing: 0 }
        );
    }
}

#[test]
fn status_packet_with_bytes_left_over_is_taken_and_reported() {
    let mut c = connection_in(State::Status);
    let step = c.process_status(raw(0, &[7, 7])).unwrap();
    assert_eq!(step.trailing, 2);
    assert!(matches!(step.action, Action::Status(_)));
    let step = c.process_status(raw(1, &[0, 0, 0, 0, 0, 0, 0, 5, 1, 2, 3])).unwrap();
    assert_eq!(step.trailing, 3);
    assert_eq!(step.action, Action::Pong(status::clientbound::Pong { val: 5 }));
}

#[test]
fn unknown_status_packet_is_fatal() {
    let mut c = connection_in(State::Status);
    assert_eq!(c.process(raw(2, &[])), Err(ProtocolError::UnknownPacket(2)));
    assert_eq!(c.state(), State::Status);
}

#[test]
fn login_end_to_end() {
    let mut c = Connection::new();
    let mut stream = handshake_frame(578, State::Login);
    write_packet(0, &"Alice".to_string(), &mut stream).unwrap();
    write_packet(0x03, &"hi all".to_string(), &mut stream).unwrap();
    write_packet(0x00, &"Bob".to_string(), &mut stream).unwrap();
    let mut r = Reader::new(&stream);

    assert_eq!(c.receive(&mut r).unwrap().action, Action::Continue);
    assert_eq!(c.state(), State::Login);

    let step = c.receive(&mut r).unwrap();
    assert_eq!(step.trailing, 0);
    assert!(!step.action.closes());
    let success = match step.action {
        Action::Login(success) => success,
        other => panic!("unexpected action {:?}", other),
    };
    assert_eq!(success.name, "Alice");
    assert_eq!(c.state(), State::Play);

    let mut out = Vec::new();
    login::clientbound::Packet::LoginSuccess(success.clone()).write(&mut out).unwrap();
    let reply = read::<RawPacket>(&mut Reader::new(&out)).unwrap();
    assert_eq!(reply.packet_id, 2);
    let (text, name) = read::<(String, String)>(&mut Reader::new(&reply.data)).unwrap();
    assert_eq!(name, "Alice");
    assert_eq!(text.len(), 36);
    let parsed = uuid::Uuid::parse_str(&text).unwrap();
    assert_eq!(parsed.as_u128(), success.uuid);
    assert_eq!(parsed.get_version_num(), 4);
    assert_eq!(parsed.get_variant(), uuid::Variant::RFC4122);
    assert_eq!((success.uuid >> 76) & 0xf, 4);
    assert_eq!((success.uuid >> 62) & 0x3, 2);

    // from here on only packets of the play phase are taken
    let step = c.receive(&mut r).unwrap();
    assert_eq!(
        step.action,
        Action::Forward(play::serverbound::Packet::Chat(play::serverbound::Chat {
            message: "hi all".to_string()
        }))
    );
    let step = c.receive(&mut r).unwrap();
    assert_eq!(step.action, Action::Dropped(ProtocolError::UnknownPacket(0)));
    assert_eq!(c.state(), State::Play);
    assert_eq!(r.remaining(), 0);
}

#[test]
fn login_under_a_given_identifier() {
    let mut c = connection_in(State::Login);
    let step = c.login(raw(0, &[3, b'B', b'o', b'b']), 7).unwrap();
    assert_eq!(
        step,
        Step {
            action: Action::Login(login::clientbound::LoginSuccess {
                uuid: 7,
                name: "Bob".to_string()
            }),
            trailing: 0
        }
    );
    assert_eq!(c.state(), State::Play);
}

#[test]
fn two_logins_get_different_identifiers() {
    let mut a = connection_in(State::Login);
    let mut b = connection_in(State::Login);
    let first = match a.process_login(raw(0, &[1, b'a'])).unwrap().action {
        Action::Login(success) => success.uuid,
        other => panic!("unexpected action {:?}", other),
    };
    let second = match b.process_login(raw(0, &[1, b'a'])).unwrap().action {
        Action::Login(success) => success.uuid,
        other => panic!("unexpected action {:?}", other),
    };
    assert_ne!(first, second);
}

#[test]
fn login_start_that_does_not_decode_is_fatal_and_the_phase_is_kept() {
    let mut c = connection_in(State::Login);
    assert_eq!(c.process(raw(0, &[5, b'a'])), Err(ProtocolError::UnexpectedEof));
    assert_eq!(c.process(raw(0, &[1, b'a', 0])), Err(ProtocolError::InvalidEncoding));
    assert_eq!(c.process(raw(0, &[1, 0xff])), Err(ProtocolError::InvalidEncoding));
    assert_eq!(c.process(raw(7, &[1, b'a'])), Err(ProtocolError::UnknownPacket(7)));
    assert_eq!(c.state(), State::Login);
}

#[test]
fn play_packet_with_an_unknown_discriminator_is_dropped_and_the_connection_goes_on() {
    let mut c = connection_in(State::Play);
    let step = c.process(raw(0x7f, &[1, 2, 3])).unwrap();
    assert_eq!(
        step,
        Step { action: Action::Dropped(ProtocolError::UnknownPacket(0x7f)), trailing: 0 }
    );
    assert!(!step.action.closes());
    assert_eq!(c.state(), State::Play);
    let step = c.process(raw(0x14, &[1])).unwrap();
    assert_eq!(
        step.action,
        Action::Forward(play::serverbound::Packet::PlayerMovement(
            play::serverbound::PlayerMovement { on_ground: true }
        ))
    );
}

#[test]
fn play_packet_that_does_not_decode_is_dropped() {
    let mut c = connection_in(State::Play);
    let step = c.process_play(raw(0x0F, &[1, 2, 3])).unwrap();
    assert_eq!(step.action, Action::Dropped(ProtocolError::UnexpectedEof));
    let step = c.process_play(raw(0x03, &[2, 0xff, 0xff])).unwrap();
    assert_eq!(step.action, Action::Dropped(ProtocolError::InvalidEncoding));
    assert_eq!(c.state(), State::Play);
}

#[test]
fn play_packet_with_bytes_left_over_is_forwarded_and_reported() {
    let mut c = connection_in(State::Play);
    let step = c.process_play(raw(0x14, &[0, 9, 9])).unwrap();
    assert_eq!(step.trailing, 2);
    assert!(matches!(step.action, Action::Forward(_)));
}

#[test]
fn truncated_frame_is_fatal_in_every_phase() {
    for phase in [State::Handshake, State::Status, State::Login, State::Play] {
        let mut c = connection_in(phase);
        let bytes = [5u8, 0, 1];
        let mut r = Reader::new(&bytes);
        assert_eq!(c.receive(&mut r), Err(ProtocolError::UnexpectedEof));
        assert_eq!(r.remaining(), 3);
        assert_eq!(c.state(), phase);
        assert_eq!(c.receive(&mut Reader::new(&[])), Err(ProtocolError::UnexpectedEof));
    }
}

#[test]
fn oversize_frame_is_fatal_in_every_phase() {
    for phase in [State::Handshake, State::Status, State::Login, State::Play] {
        let mut c = connection_in(phase);
        let bytes = [0x81u8, 0x80, 0x80, 0x01];
        assert_eq!(c.receive(&mut Reader::new(&bytes)), Err(ProtocolError::FrameTooLarge));
        assert_eq!(c.state(), phase);
    }
}

#[test]
fn a_step_of_another_phase_is_refused() {
    let mut c = Connection::new();
    assert_eq!(c.process_status(raw(0, &[])), Err(ProtocolError::WrongPhase));
    assert_eq!(c.process_login(raw(0, &[1, b'a'])), Err(ProtocolError::WrongPhase));
    assert_eq!(c.login(raw(0, &[1, b'a']), 1), Err(ProtocolError::WrongPhase));
    assert_eq!(c.process_play(raw(0x14, &[1])), Err(ProtocolError::WrongPhase));
    assert_eq!(c.state(), State::Handshake);
    let mut c = connection_in(State::Play);
    let data = [0xc2, 0x04, 0, 0, 0, 1];
    assert_eq!(c.process_handshake(raw(0, &data)), Err(ProtocolError::WrongPhase));
    assert_eq!(c.state(), State::Play);
}

#[test]
fn a_closed_server_queue_ends_the_connection() {
    assert_eq!(forwarded(true), Ok(()));
    assert_eq!(forwarded(false), Err(ProtocolError::ChannelClosed));
}

#[test]
fn a_silent_connection_is_given_up_after_half_a_minute() {
    assert_eq!(READ_TIMEOUT_SECS, 30);
}
