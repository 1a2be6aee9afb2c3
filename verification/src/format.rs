//! The wire format of the control packets, as functions on byte sequences.
//!
//! `encode_packet` says which bytes stand for a packet; `decode_packet` says
//! what the front of a byte sequence stands for. A packet on the wire is one
//! byte of type and flags, the length of the body as a remaining length, and
//! the body.

use vstd::prelude::*;
use crate::error::{DecodeError, EncodeError};
use crate::packet::{
    ConnectModel, ConnectReturnCode, FilterModel, PacketModel, PublishModel, QoS,
    SubscribeReturnCode, WillModel,
};
use crate::varint::{decode_varint, encode_varint, VarintRead, MAX_REMAINING_LENGTH};
use crate::wire::{
    block_fits, encode_block, encode_text, encode_u16, lemma_text_consumes, take_block,
    take_text, take_u16, take_u8, text_fits,
};

verus! {

// ---------------------------------------------------------------- encoding
/// What a flag adds to a byte of flags: its weight when it is set.
pub open spec fn bit(set: bool, weight: int) -> int {
    if set {
        weight
    } else {
        0
    }
}

/// The byte of type code and flags that opens the packet: the type code in
/// the high four bits; in the low four, for a PUBLISH, duplicate delivery,
/// the level (two bits) and retain.
pub open spec fn first_byte(p: PacketModel) -> u8 {
    match p {
        PacketModel::Connect(_) => 0x10,
        PacketModel::Connack { .. } => 0x20,
        PacketModel::Publish(m) => (0x30 + bit(m.dup, 8) + 2 * m.qos.level() + bit(
            m.retain,
            1,
        )) as u8,
        PacketModel::Puback { .. } => 0x40,
        PacketModel::Pubrec { .. } => 0x50,
        PacketModel::Pubrel { .. } => 0x62,
        PacketModel::Pubcomp { .. } => 0x70,
        PacketModel::Subscribe { .. } => 0x82,
        PacketModel::Suback { .. } => 0x90,
        PacketModel::Pingreq => 0xC0,
        PacketModel::Pingresp => 0xD0,
        PacketModel::Disconnect => 0xE0,
    }
}

/// The flag byte of a CONNECT: user name, password, will retain, will QoS
/// (two bits), will, clean session, and a reserved bit that stays clear.
pub open spec fn connect_flags(c: ConnectModel) -> u8 {
    (bit(c.username is Some, 128) + bit(c.password is Some, 64) + (match c.will {
        Some(w) => bit(w.retain, 32) + 8 * w.qos.level() + 4,
        None => 0,
    }) + bit(c.clean_session, 2)) as u8
}

/// The will of a CONNECT, where it has one: its topic, then its message.
pub open spec fn encode_will(will: Option<WillModel>) -> Seq<u8> {
    match will {
        Some(w) => encode_text(w.topic) + encode_block(w.message),
        None => Seq::empty(),
    }
}

/// A text that is written only where it is there.
pub open spec fn encode_optional_text(text: Option<Seq<char>>) -> Seq<u8> {
    match text {
        Some(t) => encode_text(t),
        None => Seq::empty(),
    }
}

/// A block that is written only where it is there.
pub open spec fn encode_optional_block(data: Option<Seq<u8>>) -> Seq<u8> {
    match data {
        Some(d) => encode_block(d),
        None => Seq::empty(),
    }
}

/// The fixed part of a CONNECT body: protocol name, protocol level, flag
/// byte and keep-alive.
pub open spec fn encode_connect_head(c: ConnectModel) -> Seq<u8> {
    encode_text(c.protocol_name) + seq![c.protocol_level, connect_flags(c)] + encode_u16(
        c.keep_alive,
    )
}

/// The body of a CONNECT: the fixed part, the client identifier, and then
/// the will, the user name and the password, each where the flags say so.
pub open spec fn encode_connect(c: ConnectModel) -> Seq<u8> {
    encode_connect_head(c) + encode_text(c.client_id) + encode_will(c.will)
        + encode_optional_text(c.username) + encode_optional_block(c.password)
}

/// The packet identifier of a PUBLISH, where it has one.
pub open spec fn encode_packet_id(id: Option<u16>) -> Seq<u8> {
    match id {
        Some(id) => encode_u16(id),
        None => Seq::empty(),
    }
}

/// The body of a PUBLISH: topic, packet identifier, and the payload up to
/// the end of the body.
pub open spec fn encode_publish(m: PublishModel) -> Seq<u8> {
    encode_text(m.topic) + encode_packet_id(m.packet_id) + m.payload
}

/// One topic filter of a SUBSCRIBE: its text, then the level asked for.
pub open spec fn encode_filter(f: FilterModel) -> Seq<u8> {
    encode_text(f.0) + seq![f.1.level()]
}

/// The topic filters of a SUBSCRIBE, one after the other.
pub open spec fn encode_filters(filters: Seq<FilterModel>) -> Seq<u8>
    decreases filters.len(),
{
    if filters.len() == 0 {
        Seq::empty()
    } else {
        encode_filter(filters[0]) + encode_filters(filters.drop_first())
    }
}

/// The return codes of a SUBACK, one byte each.
pub open spec fn encode_return_codes(codes: Seq<SubscribeReturnCode>) -> Seq<u8> {
    Seq::new(codes.len(), |i: int| codes[i].code())
}

/// The bytes that follow the fixed header.
pub open spec fn encode_body(p: PacketModel) -> Seq<u8> {
    match p {
        PacketModel::Connect(c) => encode_connect(c),
        PacketModel::Connack { session_present, return_code } => seq![
            if session_present {
                1u8
            } else {
                0u8
            },
            return_code.code(),
        ],
        PacketModel::Publish(m) => encode_publish(m),
        PacketModel::Puback { packet_id } => encode_u16(packet_id),
        PacketModel::Pubrec { packet_id } => encode_u16(packet_id),
        PacketModel::Pubrel { packet_id } => encode_u16(packet_id),
        PacketModel::Pubcomp { packet_id } => encode_u16(packet_id),
        PacketModel::Subscribe { packet_id, filters } => encode_u16(packet_id) + encode_filters(
            filters,
        ),
        PacketModel::Suback { packet_id, return_codes } => encode_u16(packet_id)
            + encode_return_codes(return_codes),
        PacketModel::Pingreq => Seq::empty(),
        PacketModel::Pingresp => Seq::empty(),
        PacketModel::Disconnect => Seq::empty(),
    }
}

/// Whether a PUBLISH carries a packet identifier exactly when its level asks
/// for an acknowledgment.
pub open spec fn identifier_matches(p: PacketModel) -> bool {
    p matches PacketModel::Publish(m) ==> (m.packet_id is Some <==> m.qos != QoS::AtMostOnce)
}

/// Whether the text of every topic filter fits its length prefix.
pub open spec fn filters_fit(filters: Seq<FilterModel>) -> bool {
    forall|i: int| 0 <= i < filters.len() ==> text_fits(#[trigger] filters[i].0)
}

/// Whether every length-prefixed field of the packet fits its prefix.
pub open spec fn fields_fit(p: PacketModel) -> bool {
    match p {
        PacketModel::Connect(c) => {
            &&& text_fits(c.protocol_name)
            &&& text_fits(c.client_id)
            &&& c.will matches Some(w) ==> text_fits(w.topic) && block_fits(w.message)
            &&& c.username matches Some(u) ==> text_fits(u)
            &&& c.password matches Some(d) ==> block_fits(d)
        },
        PacketModel::Publish(m) => text_fits(m.topic),
        PacketModel::Subscribe { filters, .. } => filters_fit(filters),
        _ => true,
    }
}

/// Why the packet has no encoding, if it has none.
pub open spec fn encode_error(p: PacketModel) -> Option<EncodeError> {
    if !identifier_matches(p) {
        Some(EncodeError::IdentifierMismatch)
    } else if !fields_fit(p) {
        Some(EncodeError::FieldTooLong)
    } else if encode_body(p).len() > MAX_REMAINING_LENGTH {
        Some(EncodeError::PacketTooLarge)
    } else {
        None
    }
}

/// The packets that can be written to the wire.
pub open spec fn encodable(p: PacketModel) -> bool {
    encode_error(p) is None
}

/// The bytes that stand for the packet.
pub open spec fn encode_packet(p: PacketModel) -> Seq<u8> {
    seq![first_byte(p)] + encode_varint(encode_body(p).len()) + encode_body(p)
}

// ---------------------------------------------------------------- decoding
/// What is wrong with a first byte, if anything: its high four bits must be
/// the code of one of the twelve packets, its low four bits the flags that
/// packet allows.
pub open spec fn first_byte_error(first: u8) -> Option<DecodeError> {
    let code = first / 16;
    let flags = first % 16;
    if code == 0 || code == 10 || code == 11 || code == 15 {
        Some(DecodeError::UnknownPacketType)
    } else if code == 3 {
        if flags / 2 % 4 == 3 {
            Some(DecodeError::InvalidFlags)
        } else {
            None
        }
    } else if code == 6 || code == 8 {
        if flags != 2 {
            Some(DecodeError::InvalidFlags)
        } else {
            None
        }
    } else if flags != 0 {
        Some(DecodeError::InvalidFlags)
    } else {
        None
    }
}

/// Whether a CONNECT flag byte is allowed: the reserved bit is clear, the
/// will QoS is not 3, and without a will its QoS and retain bits are clear.
pub open spec fn connect_flags_valid(flags: u8) -> bool {
    &&& flags % 2 == 0
    &&& flags / 8 % 4 != 3
    &&& flags / 4 % 2 == 0 ==> flags / 8 % 4 == 0 && flags / 32 % 2 == 0
}

/// The will of a CONNECT, which is there when the flags say so: its topic
/// and its message, with the level and the retain bit the flags hold.
pub open spec fn take_will(flags: u8, b: Seq<u8>) -> Result<
    (Option<WillModel>, Seq<u8>),
    DecodeError,
> {
    if flags / 4 % 2 == 1 {
        match take_text(b) {
            Ok((topic, rest)) => match take_block(rest) {
                Some((message, rest)) => Ok(
                    (
                        Some(
                            WillModel {
                                topic,
                                message,
                                qos: QoS::of_level(flags / 8 % 4).unwrap(),
                                retain: flags / 32 % 2 == 1,
                            },
                        ),
                        rest,
                    ),
                ),
                None => Err(DecodeError::MalformedPacket),
            },
            Err(e) => Err(e),
        }
    } else {
        Ok((None, b))
    }
}

/// A text that is there when `present` says so.
pub open spec fn take_optional_text(present: bool, b: Seq<u8>) -> Result<
    (Option<Seq<char>>, Seq<u8>),
    DecodeError,
> {
    if present {
        match take_text(b) {
            Ok((text, rest)) => Ok((Some(text), rest)),
            Err(e) => Err(e),
        }
    } else {
        Ok((None, b))
    }
}

/// A block that is there when `present` says so.
pub open spec fn take_optional_block(present: bool, b: Seq<u8>) -> Result<
    (Option<Seq<u8>>, Seq<u8>),
    DecodeError,
> {
    if present {
        match take_block(b) {
            Some((data, rest)) => Ok((Some(data), rest)),
            None => Err(DecodeError::MalformedPacket),
        }
    } else {
        Ok((None, b))
    }
}

/// The fixed part of a CONNECT body: protocol name, protocol level, flag
/// byte and keep-alive.
pub open spec fn take_connect_head(b: Seq<u8>) -> Result<
    (Seq<char>, u8, u8, u16, Seq<u8>),
    DecodeError,
> {
    match take_text(b) {
        Ok((protocol_name, rest)) => match take_u8(rest) {
            Some((protocol_level, rest)) => match take_u8(rest) {
                Some((flags, rest)) => if connect_flags_valid(flags) {
                    match take_u16(rest) {
                        Some((keep_alive, rest)) => Ok(
                            (protocol_name, protocol_level, flags, keep_alive, rest),
                        ),
                        None => Err(DecodeError::MalformedPacket),
                    }
                } else {
                    Err(DecodeError::MalformedPacket)
                },
                None => Err(DecodeError::MalformedPacket),
            },
            None => Err(DecodeError::MalformedPacket),
        },
        Err(e) => Err(e),
    }
}

/// A CONNECT from its body: the fixed part, the client identifier, then
/// will, user name and password as the flags say, and nothing behind them.
pub open spec fn parse_connect(b: Seq<u8>) -> Result<PacketModel, DecodeError> {
    match take_connect_head(b) {
        Ok((protocol_name, protocol_level, flags, keep_alive, rest)) => match take_text(rest) {
            Ok((client_id, rest)) => match take_will(flags, rest) {
                Ok((will, rest)) => match take_optional_text(flags / 128 == 1, rest) {
                    Ok((username, rest)) => match take_optional_block(
                        flags / 64 % 2 == 1,
                        rest,
                    ) {
                        Ok((password, rest)) => if rest.len() == 0 {
                            Ok(
                                PacketModel::Connect(
                                    ConnectModel {
                                        protocol_name,
                                        protocol_level,
                                        clean_session: flags / 2 % 2 == 1,
                                        keep_alive,
                                        client_id,
                                        will,
                                        username,
                                        password,
                                    },
                                ),
                            )
                        } else {
                            Err(DecodeError::MalformedPacket)
                        },
                        Err(e) => Err(e),
                    },
                    Err(e) => Err(e),
                },
                Err(e) => Err(e),
            },
            Err(e) => Err(e),
        },
        Err(e) => Err(e),
    }
}

/// A CONNACK from its body: a byte that is 0 or 1 for the stored session,
/// and a return code that is not reserved.
pub open spec fn parse_connack(b: Seq<u8>) -> Result<PacketModel, DecodeError> {
    if b.len() == 2 && b[0] <= 1 && ConnectReturnCode::of_code(b[1]) is Some {
        Ok(
            PacketModel::Connack {
                session_present: b[0] == 1,
                return_code: ConnectReturnCode::of_code(b[1]).unwrap(),
            },
        )
    } else {
        Err(DecodeError::MalformedPacket)
    }
}

/// A PUBLISH from its first byte and its body: the flags give duplicate
/// delivery, level and retain; the body holds the topic, a packet identifier
/// where the level is above 0, and the payload, which is all that follows.
pub open spec fn parse_publish(first: u8, b: Seq<u8>) -> Result<PacketModel, DecodeError> {
    let flags = first % 16;
    let level = flags / 2 % 4;
    match take_text(b) {
        Ok((topic, rest)) => if level == 0 {
            Ok(
                PacketModel::Publish(
                    PublishModel {
                        dup: flags / 8 == 1,
                        qos: QoS::AtMostOnce,
                        retain: flags % 2 == 1,
                        topic,
                        packet_id: None,
                        payload: rest,
                    },
                ),
            )
        } else {
            match take_u16(rest) {
                Some((id, rest)) => Ok(
                    PacketModel::Publish(
                        PublishModel {
                            dup: flags / 8 == 1,
                            qos: QoS::of_level(level).unwrap(),
                            retain: flags % 2 == 1,
                            topic,
                            packet_id: Some(id),
                            payload: rest,
                        },
                    ),
                ),
                None => Err(DecodeError::MalformedPacket),
            }
        },
        Err(e) => Err(e),
    }
}

/// The body of the four packets that carry a packet identifier and nothing
/// else.
pub open spec fn parse_packet_id(b: Seq<u8>) -> Result<u16, DecodeError> {
    match take_u16(b) {
        Some((id, rest)) => if rest.len() == 0 {
            Ok(id)
        } else {
            Err(DecodeError::MalformedPacket)
        },
        None => Err(DecodeError::MalformedPacket),
    }
}

/// One topic filter with the level asked for, which is 0, 1 or 2.
pub open spec fn take_filter(b: Seq<u8>) -> Result<(FilterModel, Seq<u8>), DecodeError> {
    match take_text(b) {
        Ok((text, rest)) => match take_u8(rest) {
            Some((level, rest)) => match QoS::of_level(level) {
                Some(qos) => Ok(((text, qos), rest)),
                None => Err(DecodeError::MalformedPacket),
            },
            None => Err(DecodeError::MalformedPacket),
        },
        Err(e) => Err(e),
    }
}

/// Topic filters up to the end of the body.
pub open spec fn parse_filters(b: Seq<u8>) -> Result<Seq<FilterModel>, DecodeError>
    decreases b.len(),
{
    if b.len() == 0 {
        Ok(Seq::empty())
    } else {
        match take_filter(b) {
            Ok((filter, rest)) => {
                proof {
                    lemma_text_consumes(b);
                }
                match parse_filters(rest) {
                    Ok(filters) => Ok(seq![filter] + filters),
                    Err(e) => Err(e),
                }
            },
            Err(e) => Err(e),
        }
    }
}

/// A SUBSCRIBE from its body: a packet identifier, then topic filters.
pub open spec fn parse_subscribe(b: Seq<u8>) -> Result<PacketModel, DecodeError> {
    match take_u16(b) {
        Some((packet_id, rest)) => match parse_filters(rest) {
            Ok(filters) => Ok(PacketModel::Subscribe { packet_id, filters }),
            Err(e) => Err(e),
        },
        None => Err(DecodeError::MalformedPacket),
    }
}

/// Return codes up to the end of the body, if every byte is one.
pub open spec fn parse_return_codes(b: Seq<u8>) -> Result<Seq<SubscribeReturnCode>, DecodeError> {
    if forall|i: int| 0 <= i < b.len() ==> SubscribeReturnCode::of_code(#[trigger] b[i]) is Some {
        Ok(Seq::new(b.len(), |i: int| SubscribeReturnCode::of_code(b[i]).unwrap()))
    } else {
        Err(DecodeError::MalformedPacket)
    }
}

/// A SUBACK from its body: a packet identifier, then return codes.
pub open spec fn parse_suback(b: Seq<u8>) -> Result<PacketModel, DecodeError> {
    match take_u16(b) {
        Some((packet_id, rest)) => match parse_return_codes(rest) {
            Ok(return_codes) => Ok(PacketModel::Suback { packet_id, return_codes }),
            Err(e) => Err(e),
        },
        None => Err(DecodeError::MalformedPacket),
    }
}

/// The packets without a body.
pub open spec fn parse_empty(p: PacketModel, b: Seq<u8>) -> Result<PacketModel, DecodeError> {
    if b.len() == 0 {
        Ok(p)
    } else {
        Err(DecodeError::MalformedPacket)
    }
}

/// The packet that a first byte without fault and a whole body stand for.
#[verifier::opaque]
pub open spec fn parse_body(first: u8, b: Seq<u8>) -> Result<PacketModel, DecodeError> {
    let code = first / 16;
    if code == 1 {
        parse_connect(b)
    } else if code == 2 {
        parse_connack(b)
    } else if code == 3 {
        parse_publish(first, b)
    } else if code == 4 {
        match parse_packet_id(b) {
            Ok(packet_id) => Ok(PacketModel::Puback { packet_id }),
            Err(e) => Err(e),
        }
    } else if code == 5 {
        match parse_packet_id(b) {
            Ok(packet_id) => Ok(PacketModel::Pubrec { packet_id }),
            Err(e) => Err(e),
        }
    } else if code == 6 {
        match parse_packet_id(b) {
            Ok(packet_id) => Ok(PacketModel::Pubrel { packet_id }),
            Err(e) => Err(e),
        }
    } else if code == 7 {
        match parse_packet_id(b) {
            Ok(packet_id) => Ok(PacketModel::Pubcomp { packet_id }),
            Err(e) => Err(e),
        }
    } else if code == 8 {
        parse_subscribe(b)
    } else if code == 9 {
        parse_suback(b)
    } else if code == 12 {
        parse_empty(PacketModel::Pingreq, b)
    } else if code == 13 {
        parse_empty(PacketModel::Pingresp, b)
    } else {
        parse_empty(PacketModel::Disconnect, b)
    }
}

/// What the front of a byte sequence stands for.
pub enum DecodedModel {
    /// Part of a packet: more bytes have to come before anything can be said.
    Incomplete,
    /// No packet, however many bytes follow.
    Malformed(DecodeError),
    /// The first `consumed` bytes are `packet`; the bytes behind them belong
    /// to what comes next.
    Complete { packet: PacketModel, consumed: nat },
}

/// Reads one packet from the front of `b`.
///
/// The first byte is judged as soon as it is there. The remaining length is
/// then read; while the bytes it announces are not all there the sequence is
/// incomplete, whatever the body may turn out to hold.
pub open spec fn decode_packet(b: Seq<u8>) -> DecodedModel {
    if b.len() == 0 {
        DecodedModel::Incomplete
    } else {
        match first_byte_error(b[0]) {
            Some(e) => DecodedModel::Malformed(e),
            None => match decode_varint(b.skip(1)) {
                VarintRead::Incomplete => DecodedModel::Incomplete,
                VarintRead::Malformed => DecodedModel::Malformed(
                    DecodeError::MalformedRemainingLength,
                ),
                VarintRead::Value { value, used } => {
                    let end = 1 + used + value;
                    if b.len() < end {
                        DecodedModel::Incomplete
                    } else {
                        match parse_body(b[0], b.subrange(1 + used as int, end as int)) {
                            Ok(packet) => DecodedModel::Complete { packet, consumed: end },
                            Err(e) => DecodedModel::Malformed(e),
                        }
                    }
                },
            },
        }
    }
}

} // verus!
