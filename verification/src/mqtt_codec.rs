//! The codec as a framing layer over a growing buffer: packets are taken off
//! its front as they become complete, and written to its end.

use vstd::prelude::*;
use crate::decode::{decode, Decoded};
use crate::encode::encode;
use crate::error::{DecodeError, EncodeError};
use crate::format::{decode_packet, encode_error, encode_packet, DecodedModel};
use crate::packet::Packet;

verus! {

/// The codec. It keeps nothing between calls: what is left of a packet
/// that is not complete yet stays in the caller's buffer.
pub struct MqttCodec;

impl MqttCodec {
    /// Takes the packet at the front of `buf` off it.
    ///
    /// While the buffer holds only part of a packet the answer is `None` and
    /// the buffer is left as it is: add what is read next to its end and ask
    /// again. When the front of the buffer can be no packet, the answer is
    /// the error, and the buffer is left as it is. Else the packet is handed
    /// out and its bytes are removed; what was behind them stays.
    pub fn decode(&mut self, buf: &mut Vec<u8>) -> (r: Result<Option<Packet>, DecodeError>)
        ensures
            match decode_packet(old(buf)@) {
                DecodedModel::Incomplete => r matches Ok(None) && final(buf)@ == old(buf)@,
                DecodedModel::Malformed(e) => r matches Err(x) && x == e && final(buf)@ == old(
                    buf,
                )@,
                DecodedModel::Complete { packet, consumed } => r matches Ok(Some(found))
                    && found@ == packet && consumed <= old(buf)@.len() && final(buf)@ == old(
                    buf,
                )@.skip(consumed as int),
            },
    {
        match decode(buf.as_slice()) {
            Decoded::NeedMoreData => Ok(None),
            Decoded::Error(e) => Err(e),
            Decoded::Packet { packet, consumed } => {
                let rest = buf.split_off(consumed);
                *buf = rest;
                assert(buf@ =~= old(buf)@.skip(consumed as int));
                Ok(Some(packet))
            },
        }
    }

    /// Writes `msg` to the end of `buf`. A packet that has no encoding is
    /// refused with the reason, and the buffer is left as it is.
    pub fn encode(&mut self, msg: Packet, buf: &mut Vec<u8>) -> (r: Result<(), EncodeError>)
        ensures
            match encode_error(msg@) {
                Some(e) => r matches Err(x) && x == e && final(buf)@ == old(buf)@,
                None => r is Ok && final(buf)@ == old(buf)@ + encode_packet(msg@),
            },
    {
        match encode(&msg) {
            Ok(mut bytes) => {
                buf.append(&mut bytes);
                Ok(())
            },
            Err(e) => Err(e),
        }
    }
}

} // verus!
