//! What the server sends in the login phase.

use vstd::prelude::*;
use crate::error::ProtocolError;
use crate::net::connection::State;
use crate::net::packet::{
    ClientboundPacket, RawPacket, RawPacketView, frame_encoding, payload_decoding_exact,
    read_payload_exact, write_packet,
};
use crate::net::proto::{ProtoSerializable, Reader, RoundTrip};
use crate::net::proto::fields::{wire_then, write_field};
use crate::net::proto::varint::groups;
use crate::types::session::{
    hyphenated, id_from_text, id_to_text, identifier_of, lemma_hyphenated_reads_back,
    lemma_hyphenated_shape,
};
use vstd::utf8::is_ascii_chars_encode_utf8;

verus! {

/// Refuses the login.
#[derive(Debug, Clone, PartialEq, Eq)]
pub struct Disconnect {
    /// The reason as the JSON text of a chat text.
    pub reason: String,
}

/// A `Disconnect` as plain values.
pub struct DisconnectView {
    pub reason: Seq<char>,
}

impl View for Disconnect {
    type V = DisconnectView;

    open spec fn view(&self) -> DisconnectView {
        DisconnectView { reason: self.reason@ }
    }
}

impl ProtoSerializable for Disconnect {
    open spec fn wire(v: DisconnectView) -> Result<Seq<u8>, ProtocolError> {
        String::wire(v.reason)
    }

    open spec fn parse(input: Seq<u8>) -> Result<(DisconnectView, nat), ProtocolError> {
        match String::parse(input) {
            Err(e) => Err(e),
            Ok((reason, n)) => Ok((DisconnectView { reason }, n)),
        }
    }

    proof fn lemma_parse_within(input: Seq<u8>) {
        String::lemma_parse_within(input);
    }

    fn read(r: &mut Reader<'_>) -> (res: Result<Self, ProtocolError>) {
        match String::read(r) {
            Ok(reason) => Ok(Disconnect { reason }),
            Err(e) => Err(e),
        }
    }

    fn write(&self, w: &mut Vec<u8>) -> (res: Result<(), ProtocolError>) {
        self.reason.write(w)
    }
}

impl RoundTrip for Disconnect {
    proof fn lemma_round_trip(v: DisconnectView, rest: Seq<u8>) {
        String::lemma_round_trip(v.reason, rest);
    }
}

impl ClientboundPacket for Disconnect {
    const ID: i32 = 0;

    open spec fn packet_id() -> i32 {
        0
    }

    proof fn lemma_id() {
    }

    open spec fn phase() -> State {
        State::Login
    }

    fn state() -> (s: State) {
        State::Login
    }
}

/// Ends the login: the identifier of the session and the player's name.
#[derive(Debug, Clone, PartialEq, Eq)]
pub struct LoginSuccess {
    /// The bits of the session's UUID, which travels in the hyphenated form.
    pub uuid: u128,
    pub name: String,
}

/// A `LoginSuccess` as plain values.
pub struct LoginSuccessView {
    pub uuid: u128,
    pub name: Seq<char>,
}

impl View for LoginSuccess {
    type V = LoginSuccessView;

    open spec fn view(&self) -> LoginSuccessView {
        LoginSuccessView { uuid: self.uuid, name: self.name@ }
    }
}

impl ProtoSerializable for LoginSuccess {
    /// The identifier as text, then the name.
    open spec fn wire(v: LoginSuccessView) -> Result<Seq<u8>, ProtocolError> {
        wire_then(String::wire(hyphenated(v.uuid)), String::wire(v.name))
    }

    /// The identifier's text is judged before the name is read.
    open spec fn parse(input: Seq<u8>) -> Result<(LoginSuccessView, nat), ProtocolError> {
        match String::parse(input) {
            Err(e) => Err(e),
            Ok((text, n)) => match identifier_of(text) {
                None => Err(ProtocolError::InvalidEncoding),
                Some(uuid) => match String::parse(input.skip(n as int)) {
                    Err(e) => Err(e),
                    Ok((name, m)) => Ok((LoginSuccessView { uuid, name }, n + m)),
                },
            },
        }
    }

    proof fn lemma_parse_within(input: Seq<u8>) {
        String::lemma_parse_within(input);
        if let Ok((_, n)) = String::parse(input) {
            String::lemma_parse_within(input.skip(n as int));
        }
    }

    fn read(r: &mut Reader<'_>) -> (res: Result<Self, ProtocolError>) {
        let mut c = *r;
        let text = match String::read(&mut c) {
            Ok(text) => text,
            Err(e) => {
                return Err(e);
            },
        };
        let uuid = match id_from_text(text.as_str()) {
            Some(uuid) => uuid,
            None => {
                return Err(ProtocolError::InvalidEncoding);
            },
        };
        let ghost mid = c@;
        let name = match String::read(&mut c) {
            Ok(name) => name,
            Err(e) => {
                return Err(e);
            },
        };
        proof {
            let n = String::parse(r@)->Ok_0.1;
            let m = String::parse(mid)->Ok_0.1;
            String::lemma_parse_within(r@);
            String::lemma_parse_within(mid);
            assert(r@.skip(n as int).skip(m as int) =~= r@.skip((n + m) as int));
        }
        *r = c;
        Ok(LoginSuccess { uuid, name })
    }

    fn write(&self, w: &mut Vec<u8>) -> (res: Result<(), ProtocolError>) {
        let mark = w.len();
        let text = id_to_text(self.uuid);
        write_field(&text, w, mark)?;
        write_field(&self.name, w, mark)?;
        Ok(())
    }
}

/// The text of an identifier can always be written: it takes one byte for
/// its length and 36 for its characters.
pub proof fn lemma_identifier_fits(id: u128)
    ensures
        String::wire(hyphenated(id)) is Ok,
        String::wire(hyphenated(id))->Ok_0.len() == 37,
        String::wire(hyphenated(id))->Ok_0[0] == 36,
{
    lemma_hyphenated_shape(id);
    is_ascii_chars_encode_utf8(hyphenated(id));
    reveal_with_fuel(groups, 2);
}

/// What a `LoginSuccess` looks like on the wire: it can be written wherever
/// its name can; it opens with the identifier as a string of 36 characters
/// in the hyphenated form, which spells the identifier back; and the name
/// follows.
pub proof fn lemma_login_success_text(v: LoginSuccessView)
    ensures
        LoginSuccess::wire(v) is Ok <==> String::wire(v.name) is Ok,
        LoginSuccess::wire(v) is Ok ==> LoginSuccess::wire(v)->Ok_0 == String::wire(
            hyphenated(v.uuid),
        )->Ok_0 + String::wire(v.name)->Ok_0,
        String::parse(String::wire(hyphenated(v.uuid))->Ok_0 + String::wire(v.name)->Ok_0)
            == Ok::<(Seq<char>, nat), ProtocolError>((hyphenated(v.uuid), 37)),
        hyphenated(v.uuid).len() == 36,
        identifier_of(hyphenated(v.uuid)) == Some(v.uuid),
{
    lemma_identifier_fits(v.uuid);
    lemma_hyphenated_shape(v.uuid);
    lemma_hyphenated_reads_back(v.uuid);
    String::lemma_round_trip(hyphenated(v.uuid), String::wire(v.name)->Ok_0);
}

impl RoundTrip for LoginSuccess {
    proof fn lemma_round_trip(v: LoginSuccessView, rest: Seq<u8>) {
        if Self::wire(v) is Ok {
            let a = String::wire(hyphenated(v.uuid))->Ok_0;
            let b = String::wire(v.name)->Ok_0;
            String::lemma_round_trip(hyphenated(v.uuid), b + rest);
            String::lemma_round_trip(v.name, rest);
            lemma_hyphenated_reads_back(v.uuid);
            assert((a + b) + rest =~= a + (b + rest));
            assert((a + (b + rest)).skip(a.len() as int) =~= b + rest);
        }
    }
}

impl ClientboundPacket for LoginSuccess {
    const ID: i32 = 2;

    open spec fn packet_id() -> i32 {
        2
    }

    proof fn lemma_id() {
    }

    open spec fn phase() -> State {
        State::Login
    }

    fn state() -> (s: State) {
        State::Login
    }
}

/// The packets that the server sends in the login phase.
#[derive(Debug, Clone, PartialEq, Eq)]
pub enum Packet {
    Disconnect(Disconnect),
    LoginSuccess(LoginSuccess),
}

/// A packet as plain values.
pub enum PacketView {
    Disconnect(DisconnectView),
    LoginSuccess(LoginSuccessView),
}

impl View for Packet {
    type V = PacketView;

    open spec fn view(&self) -> PacketView {
        match self {
            Packet::Disconnect(p) => PacketView::Disconnect(p@),
            Packet::LoginSuccess(p) => PacketView::LoginSuccess(p@),
        }
    }
}

impl Packet {
    /// Whether `id` is the discriminator of a packet of this table.
    pub open spec fn knows(id: i32) -> bool {
        id == Disconnect::packet_id() || id == LoginSuccess::packet_id()
    }

    /// The discriminator under which a packet travels.
    pub open spec fn packet_id(v: PacketView) -> i32 {
        match v {
            PacketView::Disconnect(_) => Disconnect::packet_id(),
            PacketView::LoginSuccess(_) => LoginSuccess::packet_id(),
        }
    }

    /// The payload of a packet, or why it cannot be written.
    pub open spec fn payload(v: PacketView) -> Result<Seq<u8>, ProtocolError> {
        match v {
            PacketView::Disconnect(p) => Disconnect::wire(p),
            PacketView::LoginSuccess(p) => LoginSuccess::wire(p),
        }
    }

    /// The frame of a packet: its discriminator and its payload behind their length.
    pub open spec fn encoding(v: PacketView) -> Result<Seq<u8>, ProtocolError> {
        match Self::payload(v) {
            Err(e) => Err(e),
            Ok(bytes) => frame_encoding(Self::packet_id(v), bytes),
        }
    }

    /// The packet that a frame's content stands for. The discriminator picks
    /// the kind of packet; the payload must decode as that kind and leave no
    /// byte behind.
    pub open spec fn decoding(raw: RawPacketView) -> Result<PacketView, ProtocolError> {
        if raw.packet_id == Disconnect::packet_id() {
            match payload_decoding_exact::<Disconnect>(raw.data) {
                Err(e) => Err(e),
                Ok(p) => Ok(PacketView::Disconnect(p)),
            }
        } else if raw.packet_id == LoginSuccess::packet_id() {
            match payload_decoding_exact::<LoginSuccess>(raw.data) {
                Err(e) => Err(e),
                Ok(p) => Ok(PacketView::LoginSuccess(p)),
            }
        } else {
            Err(ProtocolError::UnknownPacket(raw.packet_id))
        }
    }

    /// The discriminator of this packet.
    pub fn id(&self) -> (id: i32)
        ensures
            id == Self::packet_id(self@),
    {
        match self {
            Packet::Disconnect(_) => Disconnect::ID,
            Packet::LoginSuccess(_) => LoginSuccess::ID,
        }
    }

    /// Decodes a frame's content as a packet of this table. Bytes left behind
    /// the payload are an error.
    pub fn try_from(raw: RawPacket) -> (res: Result<Packet, ProtocolError>)
        ensures
            match Self::decoding(raw@) {
                Ok(v) => res is Ok && res->Ok_0@ == v,
                Err(e) => res is Err && res->Err_0 == e,
            },
    {
        let data = raw.data.as_slice();
        if raw.packet_id == Disconnect::ID {
            match read_payload_exact::<Disconnect>(data) {
                Ok(p) => Ok(Packet::Disconnect(p)),
                Err(e) => Err(e),
            }
        } else if raw.packet_id == LoginSuccess::ID {
            match read_payload_exact::<LoginSuccess>(data) {
                Ok(p) => Ok(Packet::LoginSuccess(p)),
                Err(e) => Err(e),
            }
        } else {
            Err(ProtocolError::UnknownPacket(raw.packet_id))
        }
    }

    /// Writes this packet as one frame. On failure nothing is written.
    pub fn write(&self, w: &mut Vec<u8>) -> (res: Result<(), ProtocolError>)
        ensures
            match Self::encoding(self@) {
                Ok(bytes) => res is Ok && final(w)@ == old(w)@ + bytes,
                Err(e) => res is Err && res->Err_0 == e && final(w)@ == old(w)@,
            },
    {
        match self {
            Packet::Disconnect(p) => write_packet(Disconnect::ID, p, w),
            Packet::LoginSuccess(p) => write_packet(LoginSuccess::ID, p, w),
        }
    }
}

/// A packet that can be written is decoded, from its discriminator and its
/// payload, as itself.
pub proof fn lemma_packet_round_trip(v: PacketView)
    requires
        Packet::payload(v) is Ok,
    ensures
        Packet::decoding(
            RawPacketView { packet_id: Packet::packet_id(v), data: Packet::payload(v)->Ok_0 },
        ) == Ok::<PacketView, ProtocolError>(v),
{
    let data = Packet::payload(v)->Ok_0;
    assert(data + Seq::<u8>::empty() =~= data);
    match v {
        PacketView::Disconnect(p) => {
            Disconnect::lemma_round_trip(p, Seq::empty());
        },
        PacketView::LoginSuccess(p) => {
            LoginSuccess::lemma_round_trip(p, Seq::empty());
        },
    }
}

} // verus!
