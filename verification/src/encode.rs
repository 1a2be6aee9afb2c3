//! Writing packets to the wire.

use vstd::prelude::*;
use vstd::string::*;
use crate::error::EncodeError;
use crate::format::{
    connect_flags, encodable, encode_body, encode_connect, encode_connect_head, encode_error,
    encode_filter, encode_filters, encode_optional_block, encode_optional_text, encode_packet,
    encode_publish, encode_return_codes, encode_will, fields_fit, filters_fit, first_byte,
    identifier_matches,
};
use crate::packet::{
    filters_view, optional_block_view, optional_text_view, optional_will_view, Connect,
    FilterModel, Packet, PacketModel, Publish, QoS, SubscribeReturnCode, Will,
};
use crate::varint::{write_varint, MAX_REMAINING_LENGTH};
use crate::wire::{block_fits, text_fits, write_block, write_text, write_u16, MAX_FIELD_LENGTH};

verus! {

/// Appending one filter to a list appends its bytes to the list's bytes.
pub proof fn lemma_encode_filters_push(filters: Seq<FilterModel>, last: FilterModel)
    ensures
        encode_filters(filters.push(last)) == encode_filters(filters) + encode_filter(last),
    decreases filters.len(),
{
    if filters.len() == 0 {
        assert(filters.push(last).drop_first() =~= filters);
        assert(encode_filters(filters.push(last)) =~= encode_filter(last) + Seq::<u8>::empty());
    } else {
        assert(filters.push(last).drop_first() =~= filters.drop_first().push(last));
        lemma_encode_filters_push(filters.drop_first(), last);
        assert(encode_filters(filters.push(last)) =~= encode_filters(filters) + encode_filter(
            last,
        ));
    }
}

fn identifier_agrees(packet: &Packet) -> (ok: bool)
    ensures
        ok == identifier_matches(packet@),
{
    match packet {
        Packet::Publish(p) => match p.qos {
            QoS::AtMostOnce => p.packet_id.is_none(),
            _ => p.packet_id.is_some(),
        },
        _ => true,
    }
}

fn text_is_short(text: &String) -> (ok: bool)
    ensures
        ok == text_fits(text@),
{
    text.as_str().as_bytes().len() <= MAX_FIELD_LENGTH
}

fn connect_is_short(c: &Connect) -> (ok: bool)
    ensures
        ok == fields_fit(PacketModel::Connect(c@)),
{
    if !text_is_short(&c.protocol_name) || !text_is_short(&c.client_id) {
        return false;
    }
    match &c.will {
        Some(w) => {
            if !text_is_short(&w.topic) || w.message.len() > MAX_FIELD_LENGTH {
                return false;
            }
        },
        None => {},
    }
    match &c.username {
        Some(u) => {
            if !text_is_short(u) {
                return false;
            }
        },
        None => {},
    }
    match &c.password {
        Some(d) => d.len() <= MAX_FIELD_LENGTH,
        None => true,
    }
}

fn filters_are_short(filters: &Vec<(String, QoS)>) -> (ok: bool)
    ensures
        ok == filters_fit(filters_view(filters@)),
{
    let ghost models = filters_view(filters@);
    let mut i: usize = 0;
    while i < filters.len()
        invariant
            i <= filters.len(),
            models == filters_view(filters@),
            forall|j: int| 0 <= j < i ==> text_fits(#[trigger] models[j].0),
        decreases filters.len() - i,
    {
        if !text_is_short(&filters[i].0) {
            assert(!text_fits(models[i as int].0));
            return false;
        }
        i = i + 1;
    }
    true
}

fn fields_are_short(packet: &Packet) -> (ok: bool)
    ensures
        ok == fields_fit(packet@),
{
    match packet {
        Packet::Connect(c) => connect_is_short(c),
        Packet::Publish(p) => text_is_short(&p.topic),
        Packet::Subscribe { packet_id, filters } => filters_are_short(filters),
        _ => true,
    }
}

fn header_byte(packet: &Packet) -> (first: u8)
    ensures
        first == first_byte(packet@),
{
    match packet {
        Packet::Connect(_) => 0x10,
        Packet::Connack { .. } => 0x20,
        Packet::Publish(p) => {
            let dup: u8 = if p.dup {
                8
            } else {
                0
            };
            let retain: u8 = if p.retain {
                1
            } else {
                0
            };
            0x30 + dup + 2 * p.qos.to_u8() + retain
        },
        Packet::Puback { .. } => 0x40,
        Packet::Pubrec { .. } => 0x50,
        Packet::Pubrel { .. } => 0x62,
        Packet::Pubcomp { .. } => 0x70,
        Packet::Subscribe { .. } => 0x82,
        Packet::Suback { .. } => 0x90,
        Packet::Pingreq => 0xC0,
        Packet::Pingresp => 0xD0,
        Packet::Disconnect => 0xE0,
    }
}

fn connect_flag_byte(c: &Connect) -> (flags: u8)
    ensures
        flags == connect_flags(c@),
{
    let username: u8 = if c.username.is_some() {
        128
    } else {
        0
    };
    let password: u8 = if c.password.is_some() {
        64
    } else {
        0
    };
    let will: u8 = match &c.will {
        Some(w) => {
            let retain: u8 = if w.retain {
                32
            } else {
                0
            };
            retain + 8 * w.qos.to_u8() + 4
        },
        None => 0,
    };
    let clean: u8 = if c.clean_session {
        2
    } else {
        0
    };
    username + password + will + clean
}

fn write_connect_head(out: &mut Vec<u8>, c: &Connect)
    requires
        text_fits(c@.protocol_name),
    ensures
        final(out)@ == old(out)@ + encode_connect_head(c@),
{
    let ghost before = out@;
    write_text(out, c.protocol_name.as_str());
    out.push(c.protocol_level);
    out.push(connect_flag_byte(c));
    write_u16(out, c.keep_alive);
    assert(out@ =~= before + encode_connect_head(c@));
}

fn write_will(out: &mut Vec<u8>, will: &Option<Will>)
    requires
        will matches Some(w) ==> text_fits(w@.topic) && block_fits(w@.message),
    ensures
        final(out)@ == old(out)@ + encode_will(optional_will_view(*will)),
{
    let ghost before = out@;
    match will {
        Some(w) => {
            write_text(out, w.topic.as_str());
            write_block(out, w.message.as_slice());
            assert(out@ =~= before + encode_will(Some(w@)));
        },
        None => {
            assert(out@ =~= before + encode_will(None));
        },
    }
}

fn write_optional_text(out: &mut Vec<u8>, text: &Option<String>)
    requires
        text matches Some(t) ==> text_fits(t@),
    ensures
        final(out)@ == old(out)@ + encode_optional_text(optional_text_view(*text)),
{
    let ghost before = out@;
    match text {
        Some(t) => {
            write_text(out, t.as_str());
        },
        None => {
            assert(out@ =~= before + encode_optional_text(None));
        },
    }
}

fn write_optional_block(out: &mut Vec<u8>, data: &Option<Vec<u8>>)
    requires
        data matches Some(d) ==> block_fits(d@),
    ensures
        final(out)@ == old(out)@ + encode_optional_block(optional_block_view(*data)),
{
    let ghost before = out@;
    match data {
        Some(d) => {
            write_block(out, d.as_slice());
        },
        None => {
            assert(out@ =~= before + encode_optional_block(None));
        },
    }
}

fn write_connect(out: &mut Vec<u8>, c: &Connect)
    requires
        fields_fit(PacketModel::Connect(c@)),
    ensures
        final(out)@ == old(out)@ + encode_connect(c@),
{
    let ghost before = out@;
    write_connect_head(out, c);
    write_text(out, c.client_id.as_str());
    write_will(out, &c.will);
    write_optional_text(out, &c.username);
    write_optional_block(out, &c.password);
    assert(out@ =~= before + encode_connect(c@));
}

fn write_publish(out: &mut Vec<u8>, p: &Publish)
    requires
        text_fits(p@.topic),
    ensures
        final(out)@ == old(out)@ + encode_publish(p@),
{
    let ghost before = out@;
    write_text(out, p.topic.as_str());
    match p.packet_id {
        Some(id) => {
            write_u16(out, id);
        },
        None => {},
    }
    out.extend_from_slice(p.payload.as_slice());
    assert(out@ =~= before + encode_publish(p@));
}

fn write_filters(out: &mut Vec<u8>, filters: &Vec<(String, QoS)>)
    requires
        filters_fit(filters_view(filters@)),
    ensures
        final(out)@ == old(out)@ + encode_filters(filters_view(filters@)),
{
    let ghost before = out@;
    let ghost models = filters_view(filters@);
    let mut i: usize = 0;
    assert(models.take(0) =~= Seq::<FilterModel>::empty());
    while i < filters.len()
        invariant
            i <= filters.len(),
            models == filters_view(filters@),
            filters_fit(models),
            out@ == before + encode_filters(models.take(i as int)),
        decreases filters.len() - i,
    {
        let ghost so_far = out@;
        assert(text_fits(models[i as int].0));
        write_text(out, filters[i].0.as_str());
        out.push(filters[i].1.to_u8());
        proof {
            assert(out@ =~= so_far + encode_filter(models[i as int]));
            assert(models.take(i + 1) =~= models.take(i as int).push(models[i as int]));
            lemma_encode_filters_push(models.take(i as int), models[i as int]);
        }
        i = i + 1;
    }
    assert(models.take(i as int) =~= models);
}

fn write_return_codes(out: &mut Vec<u8>, codes: &Vec<SubscribeReturnCode>)
    ensures
        final(out)@ == old(out)@ + encode_return_codes(codes@),
{
    let ghost before = out@;
    let mut i: usize = 0;
    while i < codes.len()
        invariant
            i <= codes.len(),
            out@ == before + encode_return_codes(codes@.take(i as int)),
        decreases codes.len() - i,
    {
        let ghost so_far = out@;
        out.push(codes[i].to_u8());
        assert(out@ =~= before + encode_return_codes(codes@.take(i + 1)));
        i = i + 1;
    }
    assert(codes@.take(i as int) =~= codes@);
}

fn write_body(out: &mut Vec<u8>, packet: &Packet)
    requires
        fields_fit(packet@),
    ensures
        final(out)@ == old(out)@ + encode_body(packet@),
{
    let ghost before = out@;
    match packet {
        Packet::Connect(c) => {
            write_connect(out, c);
        },
        Packet::Connack { session_present, return_code } => {
            out.push(
                if *session_present {
                    1
                } else {
                    0
                },
            );
            out.push(return_code.to_u8());
        },
        Packet::Publish(p) => {
            write_publish(out, p);
        },
        Packet::Puback { packet_id } => {
            write_u16(out, *packet_id);
        },
        Packet::Pubrec { packet_id } => {
            write_u16(out, *packet_id);
        },
        Packet::Pubrel { packet_id } => {
            write_u16(out, *packet_id);
        },
        Packet::Pubcomp { packet_id } => {
            write_u16(out, *packet_id);
        },
        Packet::Subscribe { packet_id, filters } => {
            write_u16(out, *packet_id);
            write_filters(out, filters);
        },
        Packet::Suback { packet_id, return_codes } => {
            write_u16(out, *packet_id);
            write_return_codes(out, return_codes);
        },
        Packet::Pingreq => {},
        Packet::Pingresp => {},
        Packet::Disconnect => {},
    }
    assert(out@ =~= before + encode_body(packet@));
}

/// Whether the payload of a PUBLISH alone is longer than a body may be, so
/// that the body need not be built to know that it is too long.
fn payload_is_too_large(packet: &Packet) -> (too_large: bool)
    ensures
        too_large == (packet@ matches PacketModel::Publish(m) && m.payload.len()
            > MAX_REMAINING_LENGTH),
        too_large ==> encode_body(packet@).len() > MAX_REMAINING_LENGTH,
{
    match packet {
        Packet::Publish(p) => p.payload.len() > MAX_REMAINING_LENGTH as usize,
        _ => false,
    }
}

/// Writes `packet` as the bytes that stand for it on the wire.
///
/// A packet has an encoding unless a PUBLISH carries a packet identifier its
/// level does not ask for (or lacks one it asks for), a length-prefixed
/// field is longer than 65 535 bytes, or the body is longer than
/// 268 435 455 bytes; the first of these that holds is the error.
pub fn encode(packet: &Packet) -> (r: Result<Vec<u8>, EncodeError>)
    ensures
        match encode_error(packet@) {
            Some(e) => r == Err::<Vec<u8>, EncodeError>(e),
            None => r matches Ok(bytes) && bytes@ == encode_packet(packet@),
        },
        r is Ok <==> encodable(packet@),
{
    if !identifier_agrees(packet) {
        return Err(EncodeError::IdentifierMismatch);
    }
    if !fields_are_short(packet) {
        return Err(EncodeError::FieldTooLong);
    }
    if payload_is_too_large(packet) {
        return Err(EncodeError::PacketTooLarge);
    }
    let mut body: Vec<u8> = Vec::new();
    write_body(&mut body, packet);
    assert(body@ =~= encode_body(packet@));
    if body.len() > MAX_REMAINING_LENGTH as usize {
        return Err(EncodeError::PacketTooLarge);
    }
    let mut out: Vec<u8> = Vec::new();
    out.push(header_byte(packet));
    write_varint(&mut out, body.len() as u32);
    out.append(&mut body);
    assert(out@ =~= encode_packet(packet@));
    Ok(out)
}

} // verus!
