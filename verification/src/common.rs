//! What a connection hands on, and how it fails.

use vstd::prelude::*;
use crate::error::DecodeError;

verus! {

/// Why a connection was closed before the client said goodbye.
#[derive(Clone, Copy, Debug, PartialEq, Eq, Structural)]
pub enum ZinkError {
    /// The bytes received were no packet.
    Mqtt(DecodeError),
    /// The transport failed while reading or writing.
    Io,
    /// The connection did not open with a CONNECT.
    NotMqttConnect,
    /// A connected client sent a packet that has no place on an open
    /// connection: a second CONNECT, or a packet that answers one this
    /// broker never sends.
    ProtocolError,
}

impl From<DecodeError> for ZinkError {
    fn from(err: DecodeError) -> (r: ZinkError) {
        ZinkError::Mqtt(err)
    }
}

impl vstd::std_specs::convert::FromSpecImpl<DecodeError> for ZinkError {
    open spec fn obeys_from_spec() -> bool {
        true
    }

    open spec fn from_spec(err: DecodeError) -> ZinkError {
        ZinkError::Mqtt(err)
    }
}

/// A published message on its way to the extensions: the topic it was
/// published under and its payload.
#[derive(Clone, Debug, PartialEq, Eq)]
pub struct ZinkMessage {
    pub path: String,
    pub payload: Vec<u8>,
}

/// The model of a `ZinkMessage`.
pub struct ZinkMessageModel {
    pub path: Seq<char>,
    pub payload: Seq<u8>,
}

impl View for ZinkMessage {
    type V = ZinkMessageModel;

    open spec fn view(&self) -> ZinkMessageModel {
        ZinkMessageModel { path: self.path@, payload: self.payload@ }
    }
}

} // verus!
