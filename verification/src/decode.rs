//! Reading packets from the wire.

use vstd::prelude::*;
use vstd::slice::*;
use crate::error::DecodeError;
use crate::format::{
    connect_flags_valid, decode_packet, first_byte_error, parse_body, parse_connack,
    parse_connect, parse_empty, parse_filters, parse_packet_id, parse_publish,
    parse_return_codes, parse_subscribe, parse_suback, take_connect_head, take_filter,
    take_optional_block, take_optional_text, take_will, DecodedModel,
};
use crate::packet::{
    filters_view, optional_block_view, optional_text_view, optional_will_view, Connect,
    ConnectReturnCode, FilterModel, Packet, Publish, QoS, SubscribeReturnCode, Will,
};
use crate::varint::{read_varint, VarintOutcome};
use crate::wire::{read_block, read_text, read_u16, read_u8};

verus! {

/// What `decode` found at the front of a buffer.
#[derive(Clone, Debug, PartialEq, Eq)]
pub enum Decoded {
    /// The buffer holds only part of a packet: read more and ask again.
    NeedMoreData,
    /// The buffer does not start with a packet, whatever is added to it.
    Error(DecodeError),
    /// The first `consumed` bytes of the buffer are `packet`.
    Packet { packet: Packet, consumed: usize },
}

impl View for Decoded {
    type V = DecodedModel;

    open spec fn view(&self) -> DecodedModel {
        match self {
            Decoded::NeedMoreData => DecodedModel::Incomplete,
            Decoded::Error(e) => DecodedModel::Malformed(*e),
            Decoded::Packet { packet, consumed } => DecodedModel::Complete {
                packet: packet@,
                consumed: *consumed as nat,
            },
        }
    }
}

fn check_first_byte(first: u8) -> (e: Option<DecodeError>)
    ensures
        e == first_byte_error(first),
{
    let code: u8 = first / 16;
    let flags: u8 = first % 16;
    if code == 0 || code == 10 || code == 11 || code == 15 {
        Some(DecodeError::UnknownPacketType)
    } else if code == 3 {
        if flags / 2 % 4 == 3 {
            Some(DecodeError::InvalidFlags)
        } else {
            None
        }
    } else if code == 6 || code == 8 {
        if flags != 2 {
            Some(DecodeError::InvalidFlags)
        } else {
            None
        }
    } else if flags != 0 {
        Some(DecodeError::InvalidFlags)
    } else {
        None
    }
}

fn check_connect_flags(flags: u8) -> (ok: bool)
    ensures
        ok == connect_flags_valid(flags),
{
    flags % 2 == 0 && flags / 8 % 4 != 3 && (flags / 4 % 2 != 0 || (flags / 8 % 4 == 0 && flags
        / 32 % 2 == 0))
}

fn read_connect_head(body: &[u8]) -> (r: Result<(String, u8, u8, u16, usize), DecodeError>)
    ensures
        match take_connect_head(body@) {
            Ok((name, level, flags, keep_alive, rest)) => r matches Ok(found) && found.0@ == name
                && found.1 == level && found.2 == flags && found.3 == keep_alive && found.4
                <= body.len() && rest == body@.skip(found.4 as int),
            Err(e) => r matches Err(x) && x == e,
        },
{
    assert(body@.skip(0) =~= body@);
    let (name, pos) = match read_text(body, 0) {
        Ok(found) => found,
        Err(e) => {
            return Err(e);
        },
    };
    let (level, pos) = match read_u8(body, pos) {
        Some(found) => found,
        None => {
            return Err(DecodeError::MalformedPacket);
        },
    };
    let (flags, pos) = match read_u8(body, pos) {
        Some(found) => found,
        None => {
            return Err(DecodeError::MalformedPacket);
        },
    };
    if !check_connect_flags(flags) {
        return Err(DecodeError::MalformedPacket);
    }
    let (keep_alive, pos) = match read_u16(body, pos) {
        Some(found) => found,
        None => {
            return Err(DecodeError::MalformedPacket);
        },
    };
    Ok((name, level, flags, keep_alive, pos))
}

fn read_will(flags: u8, body: &[u8], pos: usize) -> (r: Result<(Option<Will>, usize), DecodeError>)
    requires
        connect_flags_valid(flags),
        pos <= body.len(),
    ensures
        match take_will(flags, body@.skip(pos as int)) {
            Ok((will, rest)) => r matches Ok(found) && optional_will_view(found.0) == will && pos
                <= found.1 <= body.len() && rest == body@.skip(found.1 as int),
            Err(e) => r matches Err(x) && x == e,
        },
{
    if flags / 4 % 2 == 1 {
        let (topic, pos) = match read_text(body, pos) {
            Ok(found) => found,
            Err(e) => {
                return Err(e);
            },
        };
        let (message, pos) = match read_block(body, pos) {
            Some(found) => found,
            None => {
                return Err(DecodeError::MalformedPacket);
            },
        };
        let qos = match QoS::from_u8(flags / 8 % 4) {
            Some(qos) => qos,
            None => {
                return Err(DecodeError::MalformedPacket);
            },
        };
        let will = Will { topic, message: slice_to_vec(message), qos, retain: flags / 32 % 2 == 1 };
        Ok((Some(will), pos))
    } else {
        Ok((None, pos))
    }
}

fn read_optional_text(present: bool, body: &[u8], pos: usize) -> (r: Result<
    (Option<String>, usize),
    DecodeError,
>)
    requires
        pos <= body.len(),
    ensures
        match take_optional_text(present, body@.skip(pos as int)) {
            Ok((text, rest)) => r matches Ok(found) && optional_text_view(found.0) == text && pos
                <= found.1 <= body.len() && rest == body@.skip(found.1 as int),
            Err(e) => r matches Err(x) && x == e,
        },
{
    if present {
        match read_text(body, pos) {
            Ok((text, pos)) => Ok((Some(text), pos)),
            Err(e) => Err(e),
        }
    } else {
        Ok((None, pos))
    }
}

fn read_optional_block(present: bool, body: &[u8], pos: usize) -> (r: Result<
    (Option<Vec<u8>>, usize),
    DecodeError,
>)
    requires
        pos <= body.len(),
    ensures
        match take_optional_block(present, body@.skip(pos as int)) {
            Ok((data, rest)) => r matches Ok(found) && optional_block_view(found.0) == data && pos
                <= found.1 <= body.len() && rest == body@.skip(found.1 as int),
            Err(e) => r matches Err(x) && x == e,
        },
{
    if present {
        match read_block(body, pos) {
            Some((data, pos)) => Ok((Some(slice_to_vec(data)), pos)),
            None => Err(DecodeError::MalformedPacket),
        }
    } else {
        Ok((None, pos))
    }
}

fn decode_connect(body: &[u8]) -> (r: Result<Packet, DecodeError>)
    ensures
        match parse_connect(body@) {
            Ok(model) => r matches Ok(packet) && packet@ == model,
            Err(e) => r matches Err(x) && x == e,
        },
{
    let (protocol_name, protocol_level, flags, keep_alive, pos) = match read_connect_head(body) {
        Ok(found) => found,
        Err(e) => {
            return Err(e);
        },
    };
    let (client_id, pos) = match read_text(body, pos) {
        Ok(found) => found,
        Err(e) => {
            return Err(e);
        },
    };
    let (will, pos) = match read_will(flags, body, pos) {
        Ok(found) => found,
        Err(e) => {
            return Err(e);
        },
    };
    let (username, pos) = match read_optional_text(flags / 128 == 1, body, pos) {
        Ok(found) => found,
        Err(e) => {
            return Err(e);
        },
    };
    let (password, pos) = match read_optional_block(flags / 64 % 2 == 1, body, pos) {
        Ok(found) => found,
        Err(e) => {
            return Err(e);
        },
    };
    if pos != body.len() {
        return Err(DecodeError::MalformedPacket);
    }
    Ok(
        Packet::Connect(
            Connect {
                protocol_name,
                protocol_level,
                clean_session: flags / 2 % 2 == 1,
                keep_alive,
                client_id,
                will,
                username,
                password,
            },
        ),
    )
}

fn decode_connack(body: &[u8]) -> (r: Result<Packet, DecodeError>)
    ensures
        match parse_connack(body@) {
            Ok(model) => r matches Ok(packet) && packet@ == model,
            Err(e) => r matches Err(x) && x == e,
        },
{
    if body.len() != 2 || body[0] > 1 {
        return Err(DecodeError::MalformedPacket);
    }
    match ConnectReturnCode::from_u8(body[1]) {
        Some(return_code) => Ok(Packet::Connack { session_present: body[0] == 1, return_code }),
        None => Err(DecodeError::MalformedPacket),
    }
}

fn decode_publish(first: u8, body: &[u8]) -> (r: Result<Packet, DecodeError>)
    requires
        first_byte_error(first) is None,
        first / 16 == 3,
    ensures
        match parse_publish(first, body@) {
            Ok(model) => r matches Ok(packet) && packet@ == model,
            Err(e) => r matches Err(x) && x == e,
        },
{
    let flags: u8 = first % 16;
    assert(body@.skip(0) =~= body@);
    let (topic, pos) = match read_text(body, 0) {
        Ok(found) => found,
        Err(e) => {
            return Err(e);
        },
    };
    let qos = match QoS::from_u8(flags / 2 % 4) {
        Some(qos) => qos,
        None => {
            return Err(DecodeError::InvalidFlags);
        },
    };
    let (packet_id, pos) = match qos {
        QoS::AtMostOnce => (None, pos),
        _ => match read_u16(body, pos) {
            Some((id, pos)) => (Some(id), pos),
            None => {
                return Err(DecodeError::MalformedPacket);
            },
        },
    };
    let payload = slice_to_vec(slice_subrange(body, pos, body.len()));
    assert(payload@ =~= body@.skip(pos as int));
    Ok(
        Packet::Publish(
            Publish { dup: flags / 8 == 1, qos, retain: flags % 2 == 1, topic, packet_id, payload },
        ),
    )
}

fn decode_packet_id(body: &[u8]) -> (r: Result<u16, DecodeError>)
    ensures
        match parse_packet_id(body@) {
            Ok(id) => r matches Ok(found) && found == id,
            Err(e) => r matches Err(x) && x == e,
        },
{
    assert(body@.skip(0) =~= body@);
    match read_u16(body, 0) {
        Some((id, pos)) => if pos == body.len() {
            Ok(id)
        } else {
            Err(DecodeError::MalformedPacket)
        },
        None => Err(DecodeError::MalformedPacket),
    }
}

fn read_filter(body: &[u8], pos: usize) -> (r: Result<((String, QoS), usize), DecodeError>)
    requires
        pos <= body.len(),
    ensures
        match take_filter(body@.skip(pos as int)) {
            Ok((filter, rest)) => r matches Ok(found) && (found.0.0@, found.0.1) == filter && pos
                < found.1 <= body.len() && rest == body@.skip(found.1 as int),
            Err(e) => r matches Err(x) && x == e,
        },
{
    let (text, pos) = match read_text(body, pos) {
        Ok(found) => found,
        Err(e) => {
            return Err(e);
        },
    };
    let (level, pos) = match read_u8(body, pos) {
        Some(found) => found,
        None => {
            return Err(DecodeError::MalformedPacket);
        },
    };
    match QoS::from_u8(level) {
        Some(qos) => Ok(((text, qos), pos)),
        None => Err(DecodeError::MalformedPacket),
    }
}

/// The filters read so far, put in front of what the rest of the body holds.
spec fn filters_then(
    read: Seq<FilterModel>,
    rest: Result<Seq<FilterModel>, DecodeError>,
) -> Result<Seq<FilterModel>, DecodeError> {
    match rest {
        Ok(filters) => Ok(read + filters),
        Err(e) => Err(e),
    }
}

fn decode_filters(body: &[u8], start: usize) -> (r: Result<Vec<(String, QoS)>, DecodeError>)
    requires
        start <= body.len(),
    ensures
        match parse_filters(body@.skip(start as int)) {
            Ok(filters) => r matches Ok(found) && filters_view(found@) == filters,
            Err(e) => r matches Err(x) && x == e,
        },
{
    let ghost whole = parse_filters(body@.skip(start as int));
    let mut filters: Vec<(String, QoS)> = Vec::new();
    let mut pos: usize = start;
    assert(filters_then(filters_view(filters@), whole) == whole) by {
        if let Ok(fs) = whole {
            assert(filters_view(filters@) + fs =~= fs);
        }
    }
    while pos < body.len()
        invariant
            pos <= body.len(),
            whole == parse_filters(body@.skip(start as int)),
            whole == filters_then(filters_view(filters@), parse_filters(body@.skip(pos as int))),
        decreases body.len() - pos,
    {
        let ghost read = filters_view(filters@);
        let ghost here = body@.skip(pos as int);
        match read_filter(body, pos) {
            Ok((filter, next)) => {
                proof {
                    let model = (filter.0@, filter.1);
                    let rest = parse_filters(body@.skip(next as int));
                    assert(filters_view(filters@.push(filter)) =~= read.push(model));
                    if let Ok(fs) = rest {
                        assert(read.push(model) + fs =~= read + (seq![model] + fs));
                    }
                }
                filters.push(filter);
                pos = next;
            },
            Err(e) => {
                assert(here.len() > 0);
                assert(parse_filters(here) == Err::<Seq<FilterModel>, DecodeError>(e));
                return Err(e);
            },
        }
    }
    proof {
        assert(body@.skip(pos as int).len() == 0);
        assert(filters_view(filters@) + Seq::<FilterModel>::empty() =~= filters_view(filters@));
    }
    Ok(filters)
}

fn decode_subscribe(body: &[u8]) -> (r: Result<Packet, DecodeError>)
    ensures
        match parse_subscribe(body@) {
            Ok(model) => r matches Ok(packet) && packet@ == model,
            Err(e) => r matches Err(x) && x == e,
        },
{
    assert(body@.skip(0) =~= body@);
    let (packet_id, pos) = match read_u16(body, 0) {
        Some(found) => found,
        None => {
            return Err(DecodeError::MalformedPacket);
        },
    };
    match decode_filters(body, pos) {
        Ok(filters) => Ok(Packet::Subscribe { packet_id, filters }),
        Err(e) => Err(e),
    }
}

fn decode_return_codes(body: &[u8], start: usize) -> (r: Result<
    Vec<SubscribeReturnCode>,
    DecodeError,
>)
    requires
        start <= body.len(),
    ensures
        match parse_return_codes(body@.skip(start as int)) {
            Ok(codes) => r matches Ok(found) && found@ == codes,
            Err(e) => r matches Err(x) && x == e,
        },
{
    let ghost b = body@.skip(start as int);
    let mut codes: Vec<SubscribeReturnCode> = Vec::new();
    let mut pos: usize = start;
    while pos < body.len()
        invariant
            start <= pos <= body.len(),
            b == body@.skip(start as int),
            codes.len() == pos - start,
            forall|i: int|
                0 <= i < codes.len() ==> SubscribeReturnCode::of_code(#[trigger] b[i]) == Some(
                    codes[i],
                ),
        decreases body.len() - pos,
    {
        assert(body[pos as int] == b[pos - start]);
        match SubscribeReturnCode::from_u8(body[pos]) {
            Some(code) => {
                codes.push(code);
            },
            None => {
                return Err(DecodeError::MalformedPacket);
            },
        }
        pos = pos + 1;
    }
    assert(codes@ =~= Seq::new(b.len(), |i: int| SubscribeReturnCode::of_code(b[i]).unwrap()));
    Ok(codes)
}

fn decode_suback(body: &[u8]) -> (r: Result<Packet, DecodeError>)
    ensures
        match parse_suback(body@) {
            Ok(model) => r matches Ok(packet) && packet@ == model,
            Err(e) => r matches Err(x) && x == e,
        },
{
    assert(body@.skip(0) =~= body@);
    let (packet_id, pos) = match read_u16(body, 0) {
        Some(found) => found,
        None => {
            return Err(DecodeError::MalformedPacket);
        },
    };
    match decode_return_codes(body, pos) {
        Ok(return_codes) => Ok(Packet::Suback { packet_id, return_codes }),
        Err(e) => Err(e),
    }
}

fn decode_empty(packet: Packet, body: &[u8]) -> (r: Result<Packet, DecodeError>)
    ensures
        match parse_empty(packet@, body@) {
            Ok(model) => r matches Ok(found) && found@ == model,
            Err(e) => r matches Err(x) && x == e,
        },
{
    if body.len() == 0 {
        Ok(packet)
    } else {
        Err(DecodeError::MalformedPacket)
    }
}

fn decode_body(first: u8, body: &[u8]) -> (r: Result<Packet, DecodeError>)
    requires
        first_byte_error(first) is None,
    ensures
        match parse_body(first, body@) {
            Ok(model) => r matches Ok(packet) && packet@ == model,
            Err(e) => r matches Err(x) && x == e,
        },
{
    proof {
        reveal(parse_body);
    }
    let code: u8 = first / 16;
    if code == 1 {
        decode_connect(body)
    } else if code == 2 {
        decode_connack(body)
    } else if code == 3 {
        decode_publish(first, body)
    } else if code == 4 {
        match decode_packet_id(body) {
            Ok(packet_id) => Ok(Packet::Puback { packet_id }),
            Err(e) => Err(e),
        }
    } else if code == 5 {
        match decode_packet_id(body) {
            Ok(packet_id) => Ok(Packet::Pubrec { packet_id }),
            Err(e) => Err(e),
        }
    } else if code == 6 {
        match decode_packet_id(body) {
            Ok(packet_id) => Ok(Packet::Pubrel { packet_id }),
            Err(e) => Err(e),
        }
    } else if code == 7 {
        match decode_packet_id(body) {
            Ok(packet_id) => Ok(Packet::Pubcomp { packet_id }),
            Err(e) => Err(e),
        }
    } else if code == 8 {
        decode_subscribe(body)
    } else if code == 9 {
        decode_suback(body)
    } else if code == 12 {
        decode_empty(Packet::Pingreq, body)
    } else if code == 13 {
        decode_empty(Packet::Pingresp, body)
    } else {
        decode_empty(Packet::Disconnect, body)
    }
}

/// Reads one packet from the front of `buf`.
///
/// The answer is `NeedMoreData` while the buffer is a proper part of what the
/// fixed header announces, an error when no added byte can make the front of
/// the buffer a packet, and otherwise the packet with the number of bytes it
/// occupies; bytes behind it are not looked at.
pub fn decode(buf: &[u8]) -> (r: Decoded)
    ensures
        r@ == decode_packet(buf@),
{
    if buf.len() == 0 {
        return Decoded::NeedMoreData;
    }
    let first: u8 = buf[0];
    match check_first_byte(first) {
        Some(e) => {
            return Decoded::Error(e);
        },
        None => {},
    }
    match read_varint(buf, 1) {
        VarintOutcome::Incomplete => Decoded::NeedMoreData,
        VarintOutcome::Malformed => Decoded::Error(DecodeError::MalformedRemainingLength),
        VarintOutcome::Value { value, used } => {
            let start: usize = 1 + used;
            let length: usize = value as usize;
            if buf.len() - start < length {
                return Decoded::NeedMoreData;
            }
            let end: usize = start + length;
            let body = slice_subrange(buf, start, end);
            match decode_body(first, body) {
                Ok(packet) => Decoded::Packet { packet, consumed: end },
                Err(e) => Decoded::Error(e),
            }
        },
    }
}

} // verus!
