//! Writing undoes reading: what the decoder hands out can be written, and
//! is written as the bytes it was read from.

use vstd::prelude::*;
use vstd::utf8::*;
use crate::bits::{lemma_connect_flags_split, lemma_publish_byte_split};
use crate::format::{
    connect_flags, connect_flags_valid, decode_packet, encodable, encode_body, encode_connect,
    encode_connect_head, encode_filter, encode_filters, encode_optional_block,
    encode_optional_text, encode_packet, encode_publish, encode_return_codes, encode_will,
    fields_fit, filters_fit, first_byte, first_byte_error, identifier_matches, parse_body,
    parse_connack, parse_connect, parse_filters, parse_packet_id, parse_publish,
    parse_return_codes, parse_subscribe, parse_suback, take_connect_head, take_filter,
    take_optional_block, take_optional_text, take_will,
};
use crate::packet::{ConnectModel, QoS, SubscribeReturnCode};
use crate::varint::{
    decode_varint, lemma_varint_bound, lemma_varint_shortest, varint_len, VarintRead,
};
use crate::wire::{
    block_fits, encode_block, encode_text, encode_u16, take_block, take_text, take_u16, take_u8,
    text_fits,
};

verus! {

proof fn lemma_u16_taken(b: Seq<u8>)
    ensures
        take_u16(b) matches Some((x, rest)) ==> b == encode_u16(x) + rest,
{
    if let Some((x, rest)) = take_u16(b) {
        assert(b =~= encode_u16(x) + rest);
    }
}

proof fn lemma_u8_taken(b: Seq<u8>)
    ensures
        take_u8(b) matches Some((x, rest)) ==> b == seq![x] + rest,
{
    if let Some((x, rest)) = take_u8(b) {
        assert(b =~= seq![x] + rest);
    }
}

proof fn lemma_block_taken(b: Seq<u8>)
    ensures
        take_block(b) matches Some((data, rest)) ==> b == encode_block(data) + rest && block_fits(
            data,
        ),
{
    if let Some((data, rest)) = take_block(b) {
        lemma_u16_taken(b);
        let (n, after) = take_u16(b).unwrap();
        assert(after =~= data + rest);
        assert(b =~= encode_block(data) + rest);
    }
}

proof fn lemma_text_taken(b: Seq<u8>)
    ensures
        take_text(b) matches Ok((text, rest)) ==> b == encode_text(text) + rest && text_fits(text),
{
    reveal(take_text);
    if let Ok((text, rest)) = take_text(b) {
        lemma_block_taken(b);
        let (raw, _) = take_block(b).unwrap();
        decode_utf8_encode_utf8(raw);
    }
}

/// A CONNECT whose fields are as an allowed flag byte says is written with
/// that flag byte.
proof fn lemma_flags_taken(flags: u8, c: ConnectModel)
    requires
        connect_flags_valid(flags),
        (c.username is Some) == (flags / 128 == 1),
        (c.password is Some) == (flags / 64 % 2 == 1),
        (c.will is Some) == (flags / 4 % 2 == 1),
        c.will matches Some(w) ==> QoS::of_level(flags / 8 % 4) == Some(w.qos) && w.retain == (
        flags / 32 % 2 == 1),
        c.clean_session == (flags / 2 % 2 == 1),
    ensures
        connect_flags(c) == flags,
{
    lemma_connect_flags_split(flags);
}

proof fn lemma_connect_head_taken(b: Seq<u8>)
    ensures
        take_connect_head(b) matches Ok((name, level, flags, keep_alive, rest)) ==> text_fits(name)
            && connect_flags_valid(flags) && b == encode_text(name) + seq![level, flags]
            + encode_u16(keep_alive) + rest,
{
    if let Ok((name, level, flags, keep_alive, rest)) = take_connect_head(b) {
        lemma_text_taken(b);
        let (_, r1) = take_text(b).unwrap();
        lemma_u8_taken(r1);
        let (_, r2) = take_u8(r1).unwrap();
        lemma_u8_taken(r2);
        let (_, r3) = take_u8(r2).unwrap();
        lemma_u16_taken(r3);
        assert(b =~= encode_text(name) + seq![level, flags] + encode_u16(keep_alive) + rest);
    }
}

proof fn lemma_will_taken(flags: u8, b: Seq<u8>)
    ensures
        take_will(flags, b) matches Ok((will, rest)) ==> b == encode_will(will) + rest && (
        will is Some) == (flags / 4 % 2 == 1) && (will matches Some(w) ==> text_fits(w.topic)
            && block_fits(w.message) && w.qos == QoS::of_level(flags / 8 % 4).unwrap() && w.retain
            == (flags / 32 % 2 == 1)),
{
    if let Ok((will, rest)) = take_will(flags, b) {
        if flags / 4 % 2 == 1 {
            lemma_text_taken(b);
            lemma_block_taken(take_text(b).unwrap().1);
            let w = will.unwrap();
            assert(b =~= encode_text(w.topic) + encode_block(w.message) + rest);
        } else {
            assert(b =~= encode_will(will) + rest);
        }
    }
}

proof fn lemma_optional_text_taken(present: bool, b: Seq<u8>)
    ensures
        take_optional_text(present, b) matches Ok((text, rest)) ==> b == encode_optional_text(text)
            + rest && (text is Some) == present && (text matches Some(t) ==> text_fits(t)),
{
    if let Ok((text, rest)) = take_optional_text(present, b) {
        if present {
            lemma_text_taken(b);
        } else {
            assert(b =~= encode_optional_text(text) + rest);
        }
    }
}

proof fn lemma_optional_block_taken(present: bool, b: Seq<u8>)
    ensures
        take_optional_block(present, b) matches Ok((data, rest)) ==> b == encode_optional_block(
            data,
        ) + rest && (data is Some) == present && (data matches Some(d) ==> block_fits(d)),
{
    if let Ok((data, rest)) = take_optional_block(present, b) {
        if present {
            lemma_block_taken(b);
        } else {
            assert(b =~= encode_optional_block(data) + rest);
        }
    }
}

proof fn lemma_connect_parsed(b: Seq<u8>)
    ensures
        parse_connect(b) matches Ok(p) ==> fields_fit(p) && encode_body(p) == b,
{
    if let Ok(p) = parse_connect(b) {
        let c = p->Connect_0;
        let (name, level, flags, keep_alive, r1) = take_connect_head(b).unwrap();
        let (client_id, r2) = take_text(r1).unwrap();
        let (will, r3) = take_will(flags, r2).unwrap();
        let (username, r4) = take_optional_text(flags / 128 == 1, r3).unwrap();
        let (password, r5) = take_optional_block(flags / 64 % 2 == 1, r4).unwrap();
        lemma_connect_head_taken(b);
        lemma_text_taken(r1);
        lemma_will_taken(flags, r2);
        lemma_optional_text_taken(flags / 128 == 1, r3);
        lemma_optional_block_taken(flags / 64 % 2 == 1, r4);
        assert(connect_flags(c) == flags) by {
            lemma_flags_taken(flags, c);
        }
        assert(r5 =~= Seq::<u8>::empty());
        assert(r4 =~= encode_optional_block(password));
        assert(encode_connect(c) =~= encode_connect_head(c) + (encode_text(client_id) + (
        encode_will(will) + (encode_optional_text(username) + encode_optional_block(password)))));
    }
}

proof fn lemma_publish_parsed(first: u8, b: Seq<u8>)
    requires
        first / 16 == 3,
        first_byte_error(first) is None,
    ensures
        parse_publish(first, b) matches Ok(p) ==> identifier_matches(p) && fields_fit(p)
            && first_byte(p) == first && encode_body(p) == b,
{
    if let Ok(p) = parse_publish(first, b) {
        let m = p->Publish_0;
        lemma_publish_byte_split(first);
        lemma_text_taken(b);
        let (topic, rest) = take_text(b).unwrap();
        if first % 16 / 2 % 4 == 0 {
            assert(encode_publish(m) =~= encode_text(topic) + rest);
        } else {
            lemma_u16_taken(rest);
            let (id, payload) = take_u16(rest).unwrap();
            assert(encode_publish(m) =~= encode_text(topic) + (encode_u16(id) + payload));
        }
    }
}

proof fn lemma_packet_id_parsed(b: Seq<u8>)
    ensures
        parse_packet_id(b) matches Ok(id) ==> encode_u16(id) == b,
{
    if let Ok(id) = parse_packet_id(b) {
        lemma_u16_taken(b);
        assert(encode_u16(id) + Seq::<u8>::empty() =~= encode_u16(id));
    }
}

proof fn lemma_filters_parsed(b: Seq<u8>)
    ensures
        parse_filters(b) matches Ok(filters) ==> filters_fit(filters) && encode_filters(filters)
            == b,
    decreases b.len(),
{
    if let Ok(filters) = parse_filters(b) {
        if b.len() == 0 {
            assert(encode_filters(filters) =~= b);
        } else {
            let (filter, rest) = take_filter(b).unwrap();
            lemma_text_taken(b);
            let (text, after_text) = take_text(b).unwrap();
            lemma_u8_taken(after_text);
            assert(b =~= encode_filter(filter) + rest);
            lemma_filters_parsed(rest);
            let others = parse_filters(rest).unwrap();
            assert(filters == seq![filter] + others);
            assert(filters.drop_first() =~= others);
            assert(filters_fit(filters)) by {
                assert forall|i: int| 0 <= i < filters.len() implies text_fits(
                    #[trigger] filters[i].0,
                ) by {
                    if i > 0 {
                        assert(filters[i] == others[i - 1]);
                    }
                }
            }
        }
    }
}

proof fn lemma_return_codes_parsed(b: Seq<u8>)
    ensures
        parse_return_codes(b) matches Ok(codes) ==> encode_return_codes(codes) == b,
{
    if let Ok(codes) = parse_return_codes(b) {
        assert forall|i: int| 0 <= i < b.len() implies (#[trigger] codes[i]).code() == b[i] by {
            assert(SubscribeReturnCode::of_code(b[i]) is Some);
        }
        assert(encode_return_codes(codes) =~= b);
    }
}

/// A body that is read as a packet is the body of that packet, and the
/// packet opens with the first byte it was read under.
pub proof fn lemma_body_parsed(first: u8, b: Seq<u8>)
    requires
        first_byte_error(first) is None,
    ensures
        parse_body(first, b) matches Ok(p) ==> identifier_matches(p) && fields_fit(p)
            && first_byte(p) == first && encode_body(p) == b,
{
    reveal(parse_body);
    let code = first / 16;
    if code == 1 {
        lemma_connect_parsed(b);
    } else if code == 2 {
        if let Ok(p) = parse_connack(b) {
            assert(encode_body(p) =~= b);
        }
    } else if code == 3 {
        lemma_publish_parsed(first, b);
    } else if code == 4 || code == 5 || code == 6 || code == 7 {
        lemma_packet_id_parsed(b);
    } else if code == 8 {
        if let Ok(p) = parse_subscribe(b) {
            lemma_u16_taken(b);
            lemma_filters_parsed(take_u16(b).unwrap().1);
        }
    } else if code == 9 {
        if let Ok(p) = parse_suback(b) {
            lemma_u16_taken(b);
            lemma_return_codes_parsed(take_u16(b).unwrap().1);
        }
    } else {
        if let Ok(p) = parse_body(first, b) {
            assert(encode_body(p) =~= b);
        }
    }
}

/// Whether the remaining length at the front of a packet is written in the
/// fewest bytes that can hold it.
pub open spec fn shortest_length(b: Seq<u8>) -> bool {
    b.len() > 0 && (decode_varint(b.skip(1)) matches VarintRead::Value { value, used } && used
        == varint_len(value))
}

/// Whatever the decoder hands out can be written; and it is written as the
/// very bytes it was read from, where those hold the remaining length in the
/// fewest bytes (a sender may pad the length, and the encoder never does).
pub proof fn law_written_as_read(b: Seq<u8>)
    requires
        decode_packet(b) is Complete,
    ensures
        encodable(decode_packet(b)->packet),
        shortest_length(b) ==> encode_packet(decode_packet(b)->packet) == b.take(
            decode_packet(b)->consumed as int,
        ),
{
    let p = decode_packet(b)->packet;
    let n = decode_packet(b)->consumed;
    let length = b.skip(1);
    lemma_varint_bound(length);
    lemma_varint_shortest(length);
    if let VarintRead::Value { value, used } = decode_varint(length) {
        let body = b.subrange(1 + used as int, n as int);
        lemma_body_parsed(b[0], body);
        if shortest_length(b) {
            assert(encode_packet(p) =~= b.take(n as int));
        }
    }
}

} // verus!
