//! Phases, packet identifiers and the errors of the packet codec.

use vstd::prelude::*;

verus! {

/// Stage of a session; it selects the packets that are valid and the
/// handler that receives them.
#[derive(Clone, Copy, Debug, PartialEq, Eq, Structural)]
pub enum State {
    Handshaking,
    Status,
    Login,
    Configuration,
    Play,
}

/// Who a packet is sent to.
#[derive(Clone, Copy, Debug, PartialEq, Eq, Structural)]
pub enum PacketDirection {
    ClientBound,
    ServerBound,
}

/// What tells one kind of packet from another on the wire.
#[derive(Clone, Copy, Debug, PartialEq, Eq, Structural)]
pub struct Id {
    pub id: i32,
    pub state: State,
    pub direction: PacketDirection,
}

/// Why bytes could not be written.
#[derive(Clone, Copy, Debug, PartialEq, Eq, Structural)]
pub enum SerializeErr {
    /// The bytes do not fit into what is left of the buffer.
    BufferFull,
    /// A length does not fit into the number that announces it.
    LengthTooLarge,
}

/// Why a value could not be read.
#[derive(Clone, Copy, Debug, PartialEq, Eq, Structural)]
pub enum DeserializeErr {
    /// The bytes end before the value does.
    Eof,
    /// A variable-length number runs over five bytes.
    VarNumTooLong,
    /// A length is negative.
    NegativeLength,
    /// A string is not UTF-8.
    BadStringEncoding,
    /// A boolean is neither 0 nor 1.
    InvalidBool,
    /// A byte names no variant of the enum it stands for.
    CannotUnderstandValue,
}

/// Why a frame body gave no packet.
#[derive(Clone, Copy, Debug, PartialEq, Eq, Structural)]
pub enum PacketErr {
    /// No packet has this identifier.
    UnknownId(Id),
    /// A field of the body could not be read.
    DeserializeFailed(DeserializeErr),
    /// The fields end before the body does, by this many bytes.
    ExtraData(usize),
}

} // verus!
