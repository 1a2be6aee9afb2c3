//! What holds of the wire format: reading undoes writing, an answer once
//! given does not change when more bytes arrive, and a packet is not seen
//! before its last byte is there.

use vstd::prelude::*;
use crate::bits::{lemma_connect_flags_sum, lemma_publish_byte_sum};
use crate::error::DecodeError;
use crate::format::{
    bit, connect_flags, connect_flags_valid, decode_packet, encodable, encode_body, encode_connect,
    encode_connect_head, encode_filter, encode_filters, encode_optional_block,
    encode_optional_text, encode_packet, encode_publish, encode_return_codes, encode_will,
    fields_fit, filters_fit, first_byte, first_byte_error, identifier_matches, parse_body,
    parse_connect, parse_filters, parse_publish, parse_return_codes, take_connect_head,
    take_filter, take_optional_block, take_optional_text, take_will, DecodedModel,
};
use crate::packet::{
    ConnectModel, FilterModel, PacketModel, PublishModel, QoS, SubscribeReturnCode, WillModel,
};
use crate::varint::{
    decode_varint, encode_varint, lemma_varint_prefix, lemma_varint_roundtrip,
    lemma_varint_stable, varint_len, VarintRead, MAX_REMAINING_LENGTH,
};
use crate::wire::{
    block_fits, encode_block, encode_text, encode_u16, lemma_block_roundtrip,
    lemma_text_roundtrip, lemma_u16_roundtrip, take_text, text_fits,
};

verus! {

// ------------------------------------------------------------ round trip
proof fn lemma_connect_flags(c: ConnectModel)
    ensures
        connect_flags_valid(connect_flags(c)),
        (connect_flags(c) / 128 == 1) == (c.username is Some),
        (connect_flags(c) / 64 % 2 == 1) == (c.password is Some),
        (connect_flags(c) / 4 % 2 == 1) == (c.will is Some),
        (connect_flags(c) / 2 % 2 == 1) == c.clean_session,
        c.will matches Some(w) ==> QoS::of_level(connect_flags(c) / 8 % 4) == Some(w.qos) && (
        connect_flags(c) / 32 % 2 == 1) == w.retain,
{
    let (retain, level, will) = match c.will {
        Some(w) => (bit(w.retain, 1) as u8, w.qos.level(), 1u8),
        None => (0u8, 0u8, 0u8),
    };
    lemma_connect_flags_sum(
        bit(c.username is Some, 1) as u8,
        bit(c.password is Some, 1) as u8,
        retain,
        level,
        will,
        bit(c.clean_session, 1) as u8,
    );
}

proof fn lemma_connect_head_roundtrip(c: ConnectModel, rest: Seq<u8>)
    requires
        text_fits(c.protocol_name),
    ensures
        take_connect_head(encode_connect_head(c) + rest) == Ok::<
            (Seq<char>, u8, u8, u16, Seq<u8>),
            DecodeError,
        >((c.protocol_name, c.protocol_level, connect_flags(c), c.keep_alive, rest)),
{
    let tail = seq![c.protocol_level, connect_flags(c)] + encode_u16(c.keep_alive) + rest;
    assert(encode_connect_head(c) + rest =~= encode_text(c.protocol_name) + tail);
    lemma_text_roundtrip(c.protocol_name, tail);
    let after_level = tail.skip(1);
    let after_flags = after_level.skip(1);
    assert(after_flags =~= encode_u16(c.keep_alive) + rest);
    lemma_u16_roundtrip(c.keep_alive, rest);
    lemma_connect_flags(c);
}

proof fn lemma_will_roundtrip(c: ConnectModel, rest: Seq<u8>)
    requires
        c.will matches Some(w) ==> text_fits(w.topic) && block_fits(w.message),
    ensures
        take_will(connect_flags(c), encode_will(c.will) + rest) == Ok::<
            (Option<WillModel>, Seq<u8>),
            DecodeError,
        >((c.will, rest)),
{
    lemma_connect_flags(c);
    match c.will {
        Some(w) => {
            assert(encode_will(c.will) + rest =~= encode_text(w.topic) + (encode_block(w.message)
                + rest));
            lemma_text_roundtrip(w.topic, encode_block(w.message) + rest);
            lemma_block_roundtrip(w.message, rest);
        },
        None => {
            assert(encode_will(c.will) + rest =~= rest);
        },
    }
}

proof fn lemma_optional_text_roundtrip(text: Option<Seq<char>>, rest: Seq<u8>)
    requires
        text matches Some(t) ==> text_fits(t),
    ensures
        take_optional_text(text is Some, encode_optional_text(text) + rest) == Ok::<
            (Option<Seq<char>>, Seq<u8>),
            DecodeError,
        >((text, rest)),
{
    match text {
        Some(t) => {
            lemma_text_roundtrip(t, rest);
        },
        None => {
            assert(encode_optional_text(text) + rest =~= rest);
        },
    }
}

proof fn lemma_optional_block_roundtrip(data: Option<Seq<u8>>, rest: Seq<u8>)
    requires
        data matches Some(d) ==> block_fits(d),
    ensures
        take_optional_block(data is Some, encode_optional_block(data) + rest) == Ok::<
            (Option<Seq<u8>>, Seq<u8>),
            DecodeError,
        >((data, rest)),
{
    match data {
        Some(d) => {
            lemma_block_roundtrip(d, rest);
        },
        None => {
            assert(encode_optional_block(data) + rest =~= rest);
        },
    }
}

proof fn lemma_connect_roundtrip(c: ConnectModel)
    requires
        fields_fit(PacketModel::Connect(c)),
    ensures
        parse_connect(encode_connect(c)) == Ok::<PacketModel, DecodeError>(
            PacketModel::Connect(c),
        ),
{
    let flags = connect_flags(c);
    let r4 = encode_optional_block(c.password);
    let r3 = encode_optional_text(c.username) + r4;
    let r2 = encode_will(c.will) + r3;
    let r1 = encode_text(c.client_id) + r2;
    let b = encode_connect_head(c) + r1;
    assert(encode_connect(c) =~= b);
    lemma_connect_flags(c);
    assert(take_connect_head(b) == Ok::<(Seq<char>, u8, u8, u16, Seq<u8>), DecodeError>(
        (c.protocol_name, c.protocol_level, flags, c.keep_alive, r1),
    )) by {
        lemma_connect_head_roundtrip(c, r1);
    }
    assert(take_text(r1) == Ok::<(Seq<char>, Seq<u8>), DecodeError>((c.client_id, r2))) by {
        lemma_text_roundtrip(c.client_id, r2);
    }
    assert(take_will(flags, r2) == Ok::<(Option<WillModel>, Seq<u8>), DecodeError>(
        (c.will, r3),
    )) by {
        lemma_will_roundtrip(c, r3);
    }
    assert(take_optional_text(flags / 128 == 1, r3) == Ok::<
        (Option<Seq<char>>, Seq<u8>),
        DecodeError,
    >((c.username, r4))) by {
        lemma_optional_text_roundtrip(c.username, r4);
    }
    assert(take_optional_block(flags / 64 % 2 == 1, r4) == Ok::<
        (Option<Seq<u8>>, Seq<u8>),
        DecodeError,
    >((c.password, Seq::<u8>::empty()))) by {
        lemma_optional_block_roundtrip(c.password, Seq::empty());
        assert(r4 + Seq::<u8>::empty() =~= r4);
    }
}

proof fn lemma_publish_roundtrip(m: PublishModel)
    requires
        text_fits(m.topic),
        m.packet_id is Some <==> m.qos != QoS::AtMostOnce,
    ensures
        first_byte_error(first_byte(PacketModel::Publish(m))) is None,
        first_byte(PacketModel::Publish(m)) / 16 == 3,
        parse_publish(first_byte(PacketModel::Publish(m)), encode_publish(m)) == Ok::<
            PacketModel,
            DecodeError,
        >(PacketModel::Publish(m)),
{
    lemma_publish_byte_sum(bit(m.dup, 1) as u8, m.qos.level(), bit(m.retain, 1) as u8);
    match m.packet_id {
        Some(id) => {
            assert(encode_publish(m) =~= encode_text(m.topic) + (encode_u16(id) + m.payload));
            lemma_text_roundtrip(m.topic, encode_u16(id) + m.payload);
            lemma_u16_roundtrip(id, m.payload);
        },
        None => {
            assert(encode_publish(m) =~= encode_text(m.topic) + m.payload);
            lemma_text_roundtrip(m.topic, m.payload);
        },
    }
}

proof fn lemma_filter_roundtrip(f: FilterModel, rest: Seq<u8>)
    requires
        text_fits(f.0),
    ensures
        take_filter(encode_filter(f) + rest) == Ok::<(FilterModel, Seq<u8>), DecodeError>(
            (f, rest),
        ),
        encode_filter(f).len() > 0,
{
    let tail = seq![f.1.level()] + rest;
    assert(encode_filter(f) + rest =~= encode_text(f.0) + tail);
    lemma_text_roundtrip(f.0, tail);
    assert(tail.skip(1) =~= rest);
}

proof fn lemma_filters_roundtrip(filters: Seq<FilterModel>)
    requires
        filters_fit(filters),
    ensures
        parse_filters(encode_filters(filters)) == Ok::<Seq<FilterModel>, DecodeError>(filters),
    decreases filters.len(),
{
    if filters.len() == 0 {
        assert(filters =~= Seq::empty());
    } else {
        let rest = filters.drop_first();
        assert(filters_fit(rest)) by {
            assert forall|i: int| 0 <= i < rest.len() implies text_fits(#[trigger] rest[i].0) by {
                assert(rest[i] == filters[i + 1]);
            }
        }
        lemma_filter_roundtrip(filters[0], encode_filters(rest));
        lemma_filters_roundtrip(rest);
        assert(seq![filters[0]] + rest =~= filters);
    }
}

proof fn lemma_return_codes_roundtrip(codes: Seq<SubscribeReturnCode>)
    ensures
        parse_return_codes(encode_return_codes(codes)) == Ok::<
            Seq<SubscribeReturnCode>,
            DecodeError,
        >(codes),
{
    let b = encode_return_codes(codes);
    assert forall|i: int| 0 <= i < b.len() implies SubscribeReturnCode::of_code(#[trigger] b[i])
        == Some(codes[i]) by {}
    assert(Seq::new(b.len(), |i: int| SubscribeReturnCode::of_code(b[i]).unwrap()) =~= codes);
}

/// The body of a packet that can be written is read back as that packet.
pub proof fn lemma_body_roundtrip(p: PacketModel)
    requires
        identifier_matches(p),
        fields_fit(p),
    ensures
        first_byte_error(first_byte(p)) is None,
        parse_body(first_byte(p), encode_body(p)) == Ok::<PacketModel, DecodeError>(p),
{
    reveal(parse_body);
    match p {
        PacketModel::Connect(c) => {
            lemma_connect_roundtrip(c);
        },
        PacketModel::Connack { session_present, return_code } => {},
        PacketModel::Publish(m) => {
            lemma_publish_roundtrip(m);
        },
        PacketModel::Puback { packet_id } => {
            lemma_u16_roundtrip(packet_id, Seq::empty());
            assert(encode_u16(packet_id) + Seq::<u8>::empty() =~= encode_u16(packet_id));
        },
        PacketModel::Pubrec { packet_id } => {
            lemma_u16_roundtrip(packet_id, Seq::empty());
            assert(encode_u16(packet_id) + Seq::<u8>::empty() =~= encode_u16(packet_id));
        },
        PacketModel::Pubrel { packet_id } => {
            lemma_u16_roundtrip(packet_id, Seq::empty());
            assert(encode_u16(packet_id) + Seq::<u8>::empty() =~= encode_u16(packet_id));
        },
        PacketModel::Pubcomp { packet_id } => {
            lemma_u16_roundtrip(packet_id, Seq::empty());
            assert(encode_u16(packet_id) + Seq::<u8>::empty() =~= encode_u16(packet_id));
        },
        PacketModel::Subscribe { packet_id, filters } => {
            lemma_u16_roundtrip(packet_id, encode_filters(filters));
            lemma_filters_roundtrip(filters);
        },
        PacketModel::Suback { packet_id, return_codes } => {
            lemma_u16_roundtrip(packet_id, encode_return_codes(return_codes));
            lemma_return_codes_roundtrip(return_codes);
        },
        PacketModel::Pingreq => {},
        PacketModel::Pingresp => {},
        PacketModel::Disconnect => {},
    }
}

/// Round trip: the bytes written for a packet are read back as that packet,
/// and exactly those bytes are consumed, whatever follows them in the buffer.
pub proof fn law_round_trip(p: PacketModel, rest: Seq<u8>)
    requires
        encodable(p),
    ensures
        decode_packet(encode_packet(p) + rest) == (DecodedModel::Complete {
            packet: p,
            consumed: encode_packet(p).len(),
        }),
{
    lemma_body_roundtrip(p);
    lemma_decode_framed(first_byte(p), encode_body(p), rest);
}

/// A first byte without fault, the length of a body and the body are read as
/// what the body stands for, whatever follows.
proof fn lemma_decode_framed(first: u8, body: Seq<u8>, rest: Seq<u8>)
    requires
        first_byte_error(first) is None,
        body.len() <= MAX_REMAINING_LENGTH,
    ensures
        (seq![first] + encode_varint(body.len()) + body).len() == 1 + varint_len(body.len())
            + body.len(),
        decode_packet(seq![first] + encode_varint(body.len()) + body + rest) == match parse_body(
            first,
            body,
        ) {
            Ok(packet) => DecodedModel::Complete {
                packet,
                consumed: 1 + varint_len(body.len()) + body.len(),
            },
            Err(e) => DecodedModel::Malformed(e),
        },
{
    let n = body.len();
    let length = encode_varint(n);
    let b = seq![first] + length + body + rest;
    lemma_varint_roundtrip(n, body + rest);
    assert(b[0] == first);
    assert(b.skip(1) =~= length + (body + rest));
    let used = varint_len(n);
    assert(b.subrange(1 + used as int, (1 + used + n) as int) =~= body);
}

// ------------------------------------------------------- partial buffers
/// An answer once given is final: when the front of a buffer is a packet, or
/// is known to be none, bytes that arrive later change neither the packet,
/// nor the number of bytes it occupies, nor the error.
pub proof fn law_answers_are_final(b: Seq<u8>, more: Seq<u8>)
    requires
        !(decode_packet(b) is Incomplete),
    ensures
        decode_packet(b + more) == decode_packet(b),
{
    let e = b + more;
    assert(e[0] == b[0]);
    if first_byte_error(b[0]) is None {
        assert(e.skip(1) =~= b.skip(1) + more);
        lemma_varint_stable(b.skip(1), more);
        if let VarintRead::Value { value, used } = decode_varint(b.skip(1)) {
            let end = 1 + used + value;
            assert(e.subrange(1 + used as int, end as int) =~= b.subrange(
                1 + used as int,
                end as int,
            ));
        }
    }
}

/// Excess bytes are left alone: a packet that is read lies within the bytes
/// it is read from, and is read the same from just the bytes it occupies.
pub proof fn law_excess_is_left(b: Seq<u8>)
    requires
        decode_packet(b) is Complete,
    ensures
        0 < decode_packet(b)->consumed <= b.len(),
        decode_packet(b.take(decode_packet(b)->consumed as int)) == decode_packet(b),
{
    let n = decode_packet(b)->consumed as int;
    let e = b.take(n);
    assert(e[0] == b[0]);
    assert(e.skip(1) =~= b.skip(1).take(n - 1));
    lemma_varint_prefix(b.skip(1), n - 1);
    if let VarintRead::Value { value, used } = decode_varint(b.skip(1)) {
        assert(e.subrange(1 + used as int, n) =~= b.subrange(1 + used as int, n));
    }
}

/// Partial-buffer safety: while bytes of a packet are still missing the
/// answer is `Incomplete`, never an error and never another packet. So a
/// well-formed packet fed one byte at a time is reported once, when its last
/// byte is there.
pub proof fn law_partial_buffer(b: Seq<u8>, k: int)
    requires
        decode_packet(b) is Complete,
        0 <= k < decode_packet(b)->consumed,
    ensures
        decode_packet(b.take(k)) is Incomplete,
{
    let e = b.take(k);
    if k > 0 {
        assert(e[0] == b[0]);
        assert(e.skip(1) =~= b.skip(1).take(k - 1));
        lemma_varint_prefix(b.skip(1), k - 1);
    }
}

} // verus!
