//! Text: a variable-length byte count, then that many bytes of UTF-8.

use vstd::prelude::*;
use vstd::slice::slice_to_vec;
use vstd::utf8::{
    decode_utf8, encode_utf8, encode_utf8_decode_utf8, encode_utf8_valid_utf8, valid_utf8,
};
use crate::error::ProtocolError;
use crate::net::proto::{ProtoSerializable, Reader, RoundTrip, read_varint, write_varint};
use crate::net::proto::varint;

verus! {

/// The most bytes of UTF-8 that a string may have on the wire.
pub const LENGTH_LIMIT: usize = 32767;

/// The bytes of `text` on the wire, unless its UTF-8 form is over the limit.
pub open spec fn encoding(text: Seq<char>) -> Result<Seq<u8>, ProtocolError> {
    let bytes = encode_utf8(text);
    if bytes.len() > LENGTH_LIMIT {
        Err(ProtocolError::ValueTooLarge)
    } else {
        Ok(varint::encoding(bytes.len() as i32) + bytes)
    }
}

/// The text that `input` starts with and the bytes it takes.
///
/// The declared length is checked before any byte of the text is looked at.
pub open spec fn decoding(input: Seq<u8>) -> Result<(Seq<char>, nat), ProtocolError> {
    match varint::decoding(input) {
        Err(e) => Err(e),
        Ok((len, k)) => {
            if len < 0 || len > LENGTH_LIMIT {
                Err(ProtocolError::LengthOutOfRange)
            } else if input.len() - k < len {
                Err(ProtocolError::UnexpectedEof)
            } else {
                let body = input.subrange(k as int, k + len);
                if valid_utf8(body) {
                    Ok((decode_utf8(body), (k + len) as nat))
                } else {
                    Err(ProtocolError::InvalidEncoding)
                }
            }
        },
    }
}

/// Every text whose UTF-8 form is within the limit reads back from its own
/// encoding, whatever follows it; every longer text is refused.
pub proof fn lemma_string_round_trip(text: Seq<char>, rest: Seq<u8>)
    ensures
        match encoding(text) {
            Ok(bytes) => decoding(bytes + rest) == Ok::<(Seq<char>, nat), ProtocolError>(
                (text, bytes.len()),
            ),
            Err(e) => e == ProtocolError::ValueTooLarge && encode_utf8(text).len() > LENGTH_LIMIT,
        },
{
    let body = encode_utf8(text);
    if body.len() <= LENGTH_LIMIT {
        let prefix = varint::encoding(body.len() as i32);
        let input = (prefix + body) + rest;
        varint::lemma_varint_round_trip(body.len() as i32, body + rest);
        assert(input =~= prefix + (body + rest));
        assert(input.subrange(prefix.len() as int, (prefix.len() + body.len()) as int) =~= body);
        encode_utf8_valid_utf8(text);
        encode_utf8_decode_utf8(text);
    }
}

/// A declared length below zero or above the limit is refused, whatever follows it.
pub proof fn lemma_string_length_checked(input: Seq<u8>)
    requires
        varint::decoding(input) is Ok,
        varint::decoding(input)->Ok_0.0 < 0 || varint::decoding(input)->Ok_0.0 > LENGTH_LIMIT,
    ensures
        decoding(input) == Err::<(Seq<char>, nat), ProtocolError>(ProtocolError::LengthOutOfRange),
{
}

/// `String::from_utf8` of the standard library: the text whose UTF-8 form is
/// `bytes`, or nothing where `bytes` are not valid UTF-8.
#[verifier::external_body]
fn string_from_utf8(bytes: Vec<u8>) -> (res: Option<String>)
    ensures
        res is Some <==> valid_utf8(bytes@),
        res is Some ==> res->Some_0@ == decode_utf8(bytes@),
{
    match String::from_utf8(bytes) {
        Ok(text) => Some(text),
        Err(_) => None,
    }
}

impl ProtoSerializable for String {
    open spec fn wire(v: Seq<char>) -> Result<Seq<u8>, ProtocolError> {
        encoding(v)
    }

    open spec fn parse(input: Seq<u8>) -> Result<(Seq<char>, nat), ProtocolError> {
        decoding(input)
    }

    proof fn lemma_parse_within(input: Seq<u8>) {
        varint::Varint::lemma_parse_within(input);
    }

    fn read(r: &mut Reader<'_>) -> (res: Result<Self, ProtocolError>) {
        let mut c = *r;
        proof {
            varint::Varint::lemma_parse_within(r@);
        }
        let len = match read_varint(&mut c) {
            Ok(len) => len,
            Err(e) => {
                return Err(e);
            },
        };
        if len < 0 || len as usize > LENGTH_LIMIT {
            return Err(ProtocolError::LengthOutOfRange);
        }
        let body = match c.take(len as usize) {
            Ok(body) => body,
            Err(e) => {
                return Err(e);
            },
        };
        let ghost k = varint::decoding(old(r)@)->Ok_0.1;
        proof {
            assert(body@ =~= old(r)@.subrange(k as int, k + len));
            assert(c@ =~= old(r)@.skip(k + len));
        }
        match string_from_utf8(slice_to_vec(body)) {
            Some(text) => {
                *r = c;
                Ok(text)
            },
            None => Err(ProtocolError::InvalidEncoding),
        }
    }

    fn write(&self, w: &mut Vec<u8>) -> (res: Result<(), ProtocolError>) {
        let bytes = self.as_str().as_bytes();
        if bytes.len() > LENGTH_LIMIT {
            return Err(ProtocolError::ValueTooLarge);
        }
        let _ = write_varint(w, bytes.len() as i32);
        let ghost mid = w@;
        w.extend_from_slice(bytes);
        proof {
            assert(w@ =~= mid + bytes@);
            assert(w@ =~= old(w)@ + (varint::encoding(bytes@.len() as i32) + bytes@));
        }
        Ok(())
    }
}

impl RoundTrip for String {
    proof fn lemma_round_trip(v: Seq<char>, rest: Seq<u8>) {
        lemma_string_round_trip(v, rest);
    }
}

} // verus!
