use vstd::prelude::*;

verus! {

/// Why a byte stream, a packet or a step of a connection was refused.
#[derive(Debug, Clone, Copy, PartialEq, Eq, Structural)]
pub enum ProtocolError {
    /// A frame declares a negative length or one above the ceiling.
    FrameTooLarge,
    /// The input ends before the value does.
    UnexpectedEof,
    /// A string's declared length is negative or above the limit, or a
    /// variable-length integer runs past its fifth byte.
    LengthOutOfRange,
    /// A string is too long to be written.
    ValueTooLarge,
    /// The bytes are not a well-formed value of their kind: text that is not
    /// UTF-8, an identifier that does not parse, or bytes left over behind a
    /// packet of a strict phase.
    InvalidEncoding,
    /// The discriminator names no packet of the phase.
    UnknownPacket(i32),
    /// The step does not belong to the connection's phase, or a handshake
    /// asks for a phase that cannot follow it.
    WrongPhase,
    /// The handshake names a protocol version other than the supported one.
    VersionMismatch,
    /// The stream opens with the lead byte of a legacy ping.
    UnsupportedLegacyProbe,
    /// The other end of the queue that a connection forwards into is gone.
    ChannelClosed,
}

} // verus!
