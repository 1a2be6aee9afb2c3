//! Why a byte sequence is no packet, and why a packet has no encoding.

use vstd::prelude::*;

verus! {

/// Why bytes that are all there do not form a packet.
#[derive(Clone, Copy, Debug, PartialEq, Eq, Structural)]
pub enum DecodeError {
    /// The fourth byte of the remaining length announces a fifth.
    MalformedRemainingLength,
    /// The packet type code is reserved or stands for no packet spoken here.
    UnknownPacketType,
    /// The flag bits of the fixed header are not those the packet type allows.
    InvalidFlags,
    /// A text field is not UTF-8.
    InvalidUtf8,
    /// The body does not have the shape the packet type asks for: a field
    /// runs past the declared length, bytes are left over, or a reserved
    /// value is used.
    MalformedPacket,
}

/// Why a packet cannot be written to the wire.
#[derive(Clone, Copy, Debug, PartialEq, Eq, Structural)]
pub enum EncodeError {
    /// A PUBLISH carries a packet identifier at `AtMostOnce`, or none above it.
    IdentifierMismatch,
    /// A length-prefixed field is longer than 65 535 bytes.
    FieldTooLong,
    /// The body is longer than the largest remaining length.
    PacketTooLarge,
}

} // verus!
