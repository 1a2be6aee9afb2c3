//! Codec and connection put together: serving a client from the bytes
//! received so far.
//!
//! The transport appends what it reads to a buffer and asks the connection
//! to serve it. The connection takes the next packet off the buffer, reacts
//! to it, and hands back the bytes to write, the message to pass on, and
//! whether to go on. When the buffer holds no whole packet yet, it asks for
//! more bytes instead.

use vstd::prelude::*;
use crate::canon::law_written_as_read;
use crate::common::{ZinkMessage, ZinkMessageModel};
use crate::connection::{
    law_replies_can_be_written, optional_message_view, packets_view, react, silent, Connection,
    ConnectionState, Event, EventModel, ReactionModel, Verdict,
};
use crate::decode::{decode, Decoded};
use crate::encode::encode;
use crate::format::{decode_packet, encodable, encode_packet, DecodedModel};
use crate::packet::{Packet, PacketModel};

verus! {

/// What the transport has to do after a packet was served: write `output`,
/// then hand `delivery` to the extensions, then follow `verdict`.
#[derive(Clone, Debug, PartialEq, Eq)]
pub struct Step {
    pub output: Vec<u8>,
    pub delivery: Option<ZinkMessage>,
    pub verdict: Verdict,
}

/// The model of a `Step`.
pub struct StepModel {
    pub output: Seq<u8>,
    pub delivery: Option<ZinkMessageModel>,
    pub verdict: Verdict,
}

impl View for Step {
    type V = StepModel;

    open spec fn view(&self) -> StepModel {
        StepModel {
            output: self.output@,
            delivery: optional_message_view(self.delivery),
            verdict: self.verdict,
        }
    }
}

/// The bytes that stand for a list of packets, one after the other.
pub open spec fn encode_all(packets: Seq<PacketModel>) -> Seq<u8>
    decreases packets.len(),
{
    if packets.len() == 0 {
        Seq::empty()
    } else {
        encode_all(packets.drop_last()) + encode_packet(packets.last())
    }
}

/// A reaction, with its replies as the bytes to write.
pub open spec fn step_of(reaction: ReactionModel) -> StepModel {
    StepModel {
        output: encode_all(reaction.replies),
        delivery: reaction.delivery,
        verdict: reaction.verdict,
    }
}

/// What serving a buffer leads to: nothing while the buffer holds no whole
/// packet; else the state of the connection after its reaction to what the
/// front of the buffer stands for, the step to take, and what is left in the
/// buffer. A packet is taken off the buffer; bytes that are no packet stay.
/// A closed connection leaves the buffer alone.
pub open spec fn served(state: ConnectionState, buffered: Seq<u8>) -> Option<
    (ConnectionState, StepModel, Seq<u8>),
> {
    if state == ConnectionState::Closed {
        Some((state, step_of(silent(Verdict::Shutdown)), buffered))
    } else {
        match decode_packet(buffered) {
            DecodedModel::Incomplete => None,
            DecodedModel::Malformed(e) => Some(
                (
                    react(state, EventModel::DecodeError(e)).0,
                    step_of(react(state, EventModel::DecodeError(e)).1),
                    buffered,
                ),
            ),
            DecodedModel::Complete { packet, consumed } => Some(
                (
                    react(state, EventModel::Packet(packet)).0,
                    step_of(react(state, EventModel::Packet(packet)).1),
                    buffered.skip(consumed as int),
                ),
            ),
        }
    }
}

/// Writes the packets one after the other.
fn write_all(packets: &Vec<Packet>) -> (output: Vec<u8>)
    requires
        forall|i: int| 0 <= i < packets.len() ==> encodable(#[trigger] packets_view(packets@)[i]),
    ensures
        output@ == encode_all(packets_view(packets@)),
{
    let ghost models = packets_view(packets@);
    let mut output: Vec<u8> = Vec::new();
    let mut i: usize = 0;
    assert(models.take(0) =~= Seq::<PacketModel>::empty());
    while i < packets.len()
        invariant
            i <= packets.len(),
            models == packets_view(packets@),
            forall|j: int| 0 <= j < packets.len() ==> encodable(#[trigger] models[j]),
            output@ == encode_all(models.take(i as int)),
        decreases packets.len() - i,
    {
        proof {
            let longer = models.take(i + 1);
            assert(longer.drop_last() =~= models.take(i as int));
            assert(longer.last() == packets@[i as int]@);
            assert(encodable(models[i as int]));
        }
        match encode(&packets[i]) {
            Ok(mut bytes) => {
                output.append(&mut bytes);
            },
            Err(_) => {
                proof {
                    assert(false);
                }
            },
        }
        i = i + 1;
    }
    assert(models.take(i as int) =~= models);
    output
}

impl Connection {
    /// Serves the client from the bytes received so far.
    ///
    /// With no whole packet in the buffer the answer is `None`: read more,
    /// append it to the buffer and ask again. Else the connection reacts to
    /// the packet at the front of the buffer, which is taken off it, or to
    /// the error the front of the buffer is found to be, and the answer is
    /// the step to take. What is sent back can always be written, so the
    /// step holds the bytes themselves.
    pub fn serve(&mut self, buf: &mut Vec<u8>) -> (step: Option<Step>)
        ensures
            match served(old(self)@, old(buf)@) {
                Some((state, model, rest)) => step matches Some(found) && found@ == model
                    && final(self)@ == state && final(buf)@ == rest,
                None => step is None && final(self)@ == old(self)@ && final(buf)@ == old(buf)@,
            },
    {
        let ghost state = self@;
        let ghost buffered = buf@;
        let event = match self.state() {
            ConnectionState::Closed => Event::IoError,
            _ => match decode(buf.as_slice()) {
                Decoded::NeedMoreData => {
                    return None;
                },
                Decoded::Error(e) => Event::DecodeError(e),
                Decoded::Packet { packet, consumed } => {
                    let rest = buf.split_off(consumed);
                    *buf = rest;
                    assert(buf@ =~= buffered.skip(consumed as int));
                    Event::Packet(packet)
                },
            },
        };
        let ghost happened = event@;
        let reaction = self.handle(event);
        proof {
            let replies = react(state, happened).1.replies;
            if let EventModel::Packet(p) = happened {
                law_written_as_read(buffered);
                law_replies_can_be_written(state, p);
            }
            assert forall|i: int| 0 <= i < replies.len() implies encodable(
                #[trigger] replies[i],
            ) by {}
        }
        let output = write_all(&reaction.replies);
        Some(Step { output, delivery: reaction.delivery, verdict: reaction.verdict })
    }
}

} // verus!
