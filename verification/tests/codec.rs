use zink::varint::{read_varint, write_varint, VarintOutcome};
use zink::{
    decode, encode, Connect, ConnectReturnCode, DecodeError, Decoded, EncodeError, MqttCodec,
    Packet, Publish, QoS, SubscribeReturnCode, Will,
};

fn connect(client_id: &str) -> Connect {
    Connect {
        protocol_name: "MQTT".to_string(),
        protocol_level: 4,
        clean_session: false,
        keep_alive: 0,
        client_id: client_id.to_string(),
        will: None,
        username: None,
        password: None,
    }
}

fn publish(topic: &str, qos: QoS, packet_id: Option<u16>, payload: &[u8]) -> Publish {
    Publish {
        dup: false,
        qos,
        retain: false,
        topic: topic.to_string(),
        packet_id,
        payload: payload.to_vec(),
    }
}

fn one_of_each() -> Vec<Packet> {
    vec![
        Packet::Connect(connect("client-1")),
        Packet::Connect(Connect {
            protocol_name: "MQIsdp".to_string(),
            protocol_level: 3,
            clean_session: true,
            keep_alive: 0x1234,
            client_id: "".to_string(),
            will: Some(Will {
                topic: "last/words".to_string(),
                message: vec![0, 1, 2, 255],
                qos: QoS::ExactlyOnce,
                retain: true,
            }),
            username: Some("üser".to_string()),
            password: Some(vec![0xff, 0x00, 0x80]),
        }),
        Packet::Connect(Connect {
            will: Some(Will {
                topic: "w".to_string(),
                message: vec![],
                qos: QoS::AtMostOnce,
                retain: false,
            }),
            password: Some(vec![]),
            ..connect("only-password")
        }),
        Packet::Connack { session_present: false, return_code: ConnectReturnCode::Accepted },
        Packet::Connack { session_present: true, return_code: ConnectReturnCode::NotAuthorized },
        Packet::Publish(publish("a/b", QoS::AtMostOnce, None, b"hello")),
        Packet::Publish(publish("a/b", QoS::AtLeastOnce, Some(42), b"")),
        Packet::Publish(Publish {
            dup: true,
            retain: true,
            ..publish("température/é", QoS::ExactlyOnce, Some(0xffff), &[0, 255, 13, 10])
        }),
        Packet::Puback { packet_id: 0 },
        Packet::Pubrec { packet_id: 1 },
        Packet::Pubrel { packet_id: 0x0102 },
        Packet::Pubcomp { packet_id: 0xffff },
        Packet::Subscribe { packet_id: 9, filters: vec![] },
        Packet::Subscribe {
            packet_id: 10,
            filters: vec![
                ("a/#".to_string(), QoS::AtMostOnce),
                ("".to_string(), QoS::AtLeastOnce),
                ("+/ü".to_string(), QoS::ExactlyOnce),
            ],
        },
        Packet::Suback { packet_id: 10, return_codes: vec![] },
        Packet::Suback {
            packet_id: 11,
            return_codes: vec![
                SubscribeReturnCode::MaxQoS0,
                SubscribeReturnCode::MaxQoS1,
                SubscribeReturnCode::MaxQoS2,
                SubscribeReturnCode::Failure,
            ],
        },
        Packet::Pingreq,
        Packet::Pingresp,
        Packet::Disconnect,
    ]
}

#[test]
fn known_encodings() {
    assert_eq!(
        encode(&Packet::Connect(connect("12345"))).unwrap(),
        b"\x10\x11\x00\x04MQTT\x04\x00\x00\x00\x00\x0512345".to_vec()
    );
    assert_eq!(
        encode(&Packet::Connack {
            session_present: false,
            return_code: ConnectReturnCode::Accepted
        })
        .unwrap(),
        vec![0x20, 0x02, 0x00, 0x00]
    );
    assert_eq!(
        encode(&Packet::Connack {
            session_present: true,
            return_code: ConnectReturnCode::BadUserNameOrPassword
        })
        .unwrap(),
        vec![0x20, 0x02, 0x01, 0x04]
    );
    assert_eq!(
        encode(&Packet::Publish(publish("a/b", QoS::AtLeastOnce, Some(42), b"hi"))).unwrap(),
        vec![0x32, 0x09, 0x00, 0x03, b'a', b'/', b'b', 0x00, 0x2a, b'h', b'i']
    );
    assert_eq!(
        encode(&Packet::Publish(Publish {
            dup: true,
            retain: true,
            ..publish("t", QoS::ExactlyOnce, Some(0x0102), b"")
        }))
        .unwrap(),
        vec![0x3d, 0x05, 0x00, 0x01, b't', 0x01, 0x02]
    );
    assert_eq!(
        encode(&Packet::Publish(publish("t", QoS::AtMostOnce, None, b"x"))).unwrap(),
        vec![0x30, 0x04, 0x00, 0x01, b't', b'x']
    );
    assert_eq!(encode(&Packet::Puback { packet_id: 42 }).unwrap(), vec![0x40, 0x02, 0x00, 0x2a]);
    assert_eq!(encode(&Packet::Pubrec { packet_id: 7 }).unwrap(), vec![0x50, 0x02, 0x00, 0x07]);
    assert_eq!(
        encode(&Packet::Pubrel { packet_id: 0x1234 }).unwrap(),
        vec![0x62, 0x02, 0x12, 0x34]
    );
    assert_eq!(encode(&Packet::Pubcomp { packet_id: 7 }).unwrap(), vec![0x70, 0x02, 0x00, 0x07]);
    assert_eq!(
        encode(&Packet::Subscribe {
            packet_id: 1,
            filters: vec![("a/b".to_string(), QoS::AtLeastOnce)]
        })
        .unwrap(),
        vec![0x82, 0x08, 0x00, 0x01, 0x00, 0x03, b'a', b'/', b'b', 0x01]
    );
    assert_eq!(
        encode(&Packet::Suback {
            packet_id: 1,
            return_codes: vec![
                SubscribeReturnCode::MaxQoS0,
                SubscribeReturnCode::MaxQoS1,
                SubscribeReturnCode::MaxQoS2,
                SubscribeReturnCode::Failure
            ]
        })
        .unwrap(),
        vec![0x90, 0x06, 0x00, 0x01, 0x00, 0x01, 0x02, 0x80]
    );
    assert_eq!(encode(&Packet::Pingreq).unwrap(), vec![0xc0, 0x00]);
    assert_eq!(encode(&Packet::Pingresp).unwrap(), vec![0xd0, 0x00]);
    assert_eq!(encode(&Packet::Disconnect).unwrap(), vec![0xe0, 0x00]);
}

#[test]
fn connect_flags_follow_the_optional_fields() {
    let full = Packet::Connect(Connect {
        protocol_name: "MQTT".to_string(),
        protocol_level: 4,
        clean_session: true,
        keep_alive: 60,
        client_id: "c".to_string(),
        will: Some(Will {
            topic: "w".to_string(),
            message: b"m".to_vec(),
            qos: QoS::AtLeastOnce,
            retain: true,
        }),
        username: Some("u".to_string()),
        password: Some(b"p".to_vec()),
    });
    assert_eq!(
        encode(&full).unwrap(),
        vec![
            0x10, 0x19, 0x00, 0x04, b'M', b'Q', b'T', b'T', 0x04, 0xee, 0x00, 0x3c, 0x00, 0x01,
            b'c', 0x00, 0x01, b'w', 0x00, 0x01, b'm', 0x00, 0x01, b'u', 0x00, 0x01, b'p'
        ]
    );
}

#[test]
fn round_trip_of_every_kind_of_packet() {
    for packet in one_of_each() {
        let bytes = encode(&packet).unwrap();
        assert_eq!(
            decode(&bytes),
            Decoded::Packet { packet: packet.clone(), consumed: bytes.len() },
            "{:?}",
            packet
        );
    }
}

#[test]
fn round_trip_leaves_the_excess_alone() {
    for packet in one_of_each() {
        let mut bytes = encode(&packet).unwrap();
        let consumed = bytes.len();
        bytes.extend_from_slice(&[0xff, 0x00, 0x30]);
        assert_eq!(decode(&bytes), Decoded::Packet { packet, consumed });
    }
}

#[test]
fn remaining_length_boundaries() {
    let cases: [(u32, &[u8]); 8] = [
        (0, &[0x00]),
        (127, &[0x7f]),
        (128, &[0x80, 0x01]),
        (16_383, &[0xff, 0x7f]),
        (16_384, &[0x80, 0x80, 0x01]),
        (2_097_151, &[0xff, 0xff, 0x7f]),
        (2_097_152, &[0x80, 0x80, 0x80, 0x01]),
        (268_435_455, &[0xff, 0xff, 0xff, 0x7f]),
    ];
    for (value, bytes) in cases {
        let mut out = vec![0xaa];
        write_varint(&mut out, value);
        assert_eq!(&out[1..], bytes, "{}", value);
        out.push(0x55);
        match read_varint(&out, 1) {
            VarintOutcome::Value { value: read, used } => {
                assert_eq!(read, value);
                assert_eq!(used, bytes.len());
            }
            _ => panic!("{} was not read back", value),
        }
    }
}

#[test]
fn remaining_length_of_a_few_other_values() {
    for (value, bytes) in [(1u32, vec![1u8]), (321, vec![0xc1, 0x02]), (64, vec![0x40])] {
        let mut out = Vec::new();
        write_varint(&mut out, value);
        assert_eq!(out, bytes);
    }
    assert!(matches!(read_varint(&[], 0), VarintOutcome::Incomplete));
    assert!(matches!(read_varint(&[0x80], 0), VarintOutcome::Incomplete));
    assert!(matches!(read_varint(&[0x80, 0xff, 0x80], 0), VarintOutcome::Incomplete));
    assert!(matches!(read_varint(&[0x80, 0x80, 0x80, 0x80], 0), VarintOutcome::Malformed));
    assert!(matches!(read_varint(&[0xff, 0xff, 0xff, 0xff, 0x01], 0), VarintOutcome::Malformed));
    // a length that is not written in the fewest bytes is read all the same
    assert!(matches!(
        read_varint(&[0x80, 0x00], 0),
        VarintOutcome::Value { value: 0, used: 2 }
    ));
}

#[test]
fn a_padded_remaining_length_is_read_and_not_written() {
    // PINGREQ whose remaining length of 0 is written in two bytes
    assert_eq!(
        decode(&[0xc0, 0x80, 0x00, 0xff]),
        Decoded::Packet { packet: Packet::Pingreq, consumed: 3 }
    );
    assert_eq!(encode(&Packet::Pingreq).unwrap(), vec![0xc0, 0x00]);
    // PUBACK whose remaining length of 2 is written in four bytes
    assert_eq!(
        decode(&[0x40, 0x82, 0x80, 0x80, 0x00, 0x12, 0x34]),
        Decoded::Packet { packet: Packet::Puback { packet_id: 0x1234 }, consumed: 7 }
    );
}

#[test]
fn packets_at_the_boundaries_of_the_remaining_length() {
    // topic "t" takes 3 bytes of the body, the payload the rest
    for (remaining, header) in
        [(127usize, 2usize), (128, 3), (16_383, 3), (16_384, 4), (2_097_151, 4), (2_097_152, 5)]
    {
        let packet = Packet::Publish(publish("t", QoS::AtMostOnce, None, &vec![7u8; remaining - 3]));
        let bytes = encode(&packet).unwrap();
        assert_eq!(bytes.len(), header + remaining);
        assert_eq!(decode(&bytes), Decoded::Packet { packet, consumed: header + remaining });
        assert_eq!(decode(&bytes[..bytes.len() - 1]), Decoded::NeedMoreData);
    }
}

#[test]
fn one_byte_at_a_time_is_incomplete_until_the_last() {
    for packet in one_of_each() {
        let bytes = encode(&packet).unwrap();
        for k in 0..bytes.len() {
            assert_eq!(decode(&bytes[..k]), Decoded::NeedMoreData, "{:?} at {}", packet, k);
        }
        assert_eq!(decode(&bytes), Decoded::Packet { packet, consumed: bytes.len() });
    }
}

#[test]
fn codec_takes_packets_off_a_growing_buffer() {
    let packets = one_of_each();
    let mut wire = Vec::new();
    let mut codec = MqttCodec;
    for packet in &packets {
        assert_eq!(codec.encode(packet.clone(), &mut wire), Ok(()));
    }

    let mut buf = Vec::new();
    let mut seen = Vec::new();
    for byte in wire {
        buf.push(byte);
        while let Some(packet) = codec.decode(&mut buf).unwrap() {
            seen.push(packet);
        }
    }
    assert_eq!(seen, packets);
    assert!(buf.is_empty());
}

#[test]
fn codec_leaves_the_buffer_alone_when_nothing_is_taken() {
    let mut codec = MqttCodec;

    let mut partial = vec![0x40, 0x02, 0x00];
    assert_eq!(codec.decode(&mut partial), Ok(None));
    assert_eq!(partial, vec![0x40, 0x02, 0x00]);

    let mut broken = vec![0x40, 0x01, 0x00, 0xc0, 0x00];
    assert_eq!(codec.decode(&mut broken), Err(DecodeError::MalformedPacket));
    assert_eq!(broken, vec![0x40, 0x01, 0x00, 0xc0, 0x00]);

    let mut two = vec![0x40, 0x02, 0x00, 0x2a, 0xc0, 0x00, 0xe0];
    assert_eq!(codec.decode(&mut two), Ok(Some(Packet::Puback { packet_id: 42 })));
    assert_eq!(two, vec![0xc0, 0x00, 0xe0]);
    assert_eq!(codec.decode(&mut two), Ok(Some(Packet::Pingreq)));
    assert_eq!(two, vec![0xe0]);
    assert_eq!(codec.decode(&mut two), Ok(None));
    assert_eq!(two, vec![0xe0]);

    let mut out = vec![1, 2, 3];
    let unwritable = Packet::Publish(publish("t", QoS::AtLeastOnce, None, b""));
    assert_eq!(codec.encode(unwritable, &mut out), Err(EncodeError::IdentifierMismatch));
    assert_eq!(out, vec![1, 2, 3]);
    assert_eq!(codec.encode(Packet::Pingresp, &mut out), Ok(()));
    assert_eq!(out, vec![1, 2, 3, 0xd0, 0x00]);
}

#[test]
fn malformed_remaining_length() {
    assert_eq!(
        decode(&[0x30, 0x80, 0x80, 0x80, 0x80]),
        Decoded::Error(DecodeError::MalformedRemainingLength)
    );
    assert_eq!(
        decode(&[0x30, 0xff, 0xff, 0xff, 0xff, 0x7f]),
        Decoded::Error(DecodeError::MalformedRemainingLength)
    );
    assert_eq!(decode(&[0x30, 0x80, 0x80, 0x80]), Decoded::NeedMoreData);
}

#[test]
fn unknown_packet_types() {
    for first in [0x00u8, 0x0f, 0xf0, 0xff, 0xa2, 0xb0] {
        assert_eq!(decode(&[first]), Decoded::Error(DecodeError::UnknownPacketType), "{:#x}", first);
        assert_eq!(
            decode(&[first, 0x02, 0x00, 0x01]),
            Decoded::Error(DecodeError::UnknownPacketType)
        );
    }
}

#[test]
fn invalid_flags() {
    for first in [0x11u8, 0x21, 0x36, 0x3f, 0x41, 0x60, 0x63, 0x80, 0x92, 0xc1, 0xd8, 0xe4] {
        assert_eq!(decode(&[first]), Decoded::Error(DecodeError::InvalidFlags), "{:#x}", first);
        assert_eq!(decode(&[first, 0x00]), Decoded::Error(DecodeError::InvalidFlags));
    }
}

#[test]
fn invalid_utf8() {
    // PUBLISH whose topic is the lone byte 0xff
    assert_eq!(
        decode(&[0x30, 0x03, 0x00, 0x01, 0xff]),
        Decoded::Error(DecodeError::InvalidUtf8)
    );
    // an overlong encoding of '/'
    assert_eq!(
        decode(&[0x30, 0x04, 0x00, 0x02, 0xc0, 0xaf]),
        Decoded::Error(DecodeError::InvalidUtf8)
    );
    // a surrogate
    assert_eq!(
        decode(&[0x30, 0x05, 0x00, 0x03, 0xed, 0xa0, 0x80]),
        Decoded::Error(DecodeError::InvalidUtf8)
    );
    // one past the last code point
    assert_eq!(
        decode(&[0x30, 0x06, 0x00, 0x04, 0xf4, 0x90, 0x80, 0x80]),
        Decoded::Error(DecodeError::InvalidUtf8)
    );
    // a continuation byte without a leading byte
    assert_eq!(
        decode(&[0x30, 0x04, 0x00, 0x02, b'a', 0x80]),
        Decoded::Error(DecodeError::InvalidUtf8)
    );
    // CONNECT whose client identifier is cut inside a character
    let mut bytes = b"\x10\x0e\x00\x04MQTT\x04\x00\x00\x00\x00\x02".to_vec();
    bytes.extend_from_slice(&[b'a', 0xc3]);
    assert_eq!(decode(&bytes), Decoded::Error(DecodeError::InvalidUtf8));
    // SUBSCRIBE with a filter that is not UTF-8
    assert_eq!(
        decode(&[0x82, 0x06, 0x00, 0x01, 0x00, 0x01, 0x80, 0x00]),
        Decoded::Error(DecodeError::InvalidUtf8)
    );
}

#[test]
fn text_is_decoded_as_utf8() {
    let bytes = vec![0x30, 0x07, 0x00, 0x05, b'a', 0xc3, 0xa9, b'/', b'b', ];
    assert_eq!(
        decode(&bytes),
        Decoded::Packet {
            packet: Packet::Publish(publish("aé/b", QoS::AtMostOnce, None, b"")),
            consumed: 9
        }
    );
}

#[test]
fn the_widest_characters_are_text() {
    let bytes = vec![0x30, 0x0a, 0x00, 0x08, 0xf4, 0x8f, 0xbf, 0xbf, 0xf0, 0x9d, 0x84, 0x9e];
    assert_eq!(
        decode(&bytes),
        Decoded::Packet {
            packet: Packet::Publish(publish("\u{10ffff}𝄞", QoS::AtMostOnce, None, b"")),
            consumed: 12
        }
    );
    assert_eq!(
        encode(&Packet::Publish(publish("\u{10ffff}𝄞", QoS::AtMostOnce, None, b""))).unwrap(),
        bytes
    );
}

#[test]
fn malformed_packets() {
    let cases: Vec<Vec<u8>> = vec![
        vec![0x40, 0x01, 0x00],                   // PUBACK of one byte
        vec![0x40, 0x03, 0x00, 0x01, 0x02],       // PUBACK of three bytes
        vec![0x62, 0x00],                         // PUBREL without identifier
        vec![0xc0, 0x01, 0x00],                   // PINGREQ with a body
        vec![0xe0, 0x02, 0x00, 0x00],             // DISCONNECT with a body
        vec![0x20, 0x02, 0x02, 0x00],             // CONNACK with reserved flag bits
        vec![0x20, 0x02, 0x00, 0x06],             // CONNACK with a reserved return code
        vec![0x20, 0x01, 0x00],                   // CONNACK of one byte
        vec![0x30, 0x01, 0x00],                   // PUBLISH without room for its topic length
        vec![0x30, 0x03, 0x00, 0x02, b'a'],       // PUBLISH whose topic runs past the body
        vec![0x32, 0x04, 0x00, 0x01, b'a', 0x00], // PUBLISH at QoS 1 with half an identifier
        vec![0x82, 0x01, 0x00],                   // SUBSCRIBE of one byte
        vec![0x82, 0x05, 0x00, 0x01, 0x00, 0x01, b'a'], // SUBSCRIBE filter without a level
        vec![0x82, 0x06, 0x00, 0x01, 0x00, 0x01, b'a', 0x03], // SUBSCRIBE asking for level 3
        vec![0x90, 0x03, 0x00, 0x01, 0x03],       // SUBACK with a reserved return code
        vec![0x90, 0x01, 0x00],                   // SUBACK of one byte
        b"\x10\x0c\x00\x04MQTT\x04\x01\x00\x00\x00\x00".to_vec(), // CONNECT, reserved flag set
        b"\x10\x0c\x00\x04MQTT\x04\x18\x00\x00\x00\x00".to_vec(), // CONNECT, will QoS 3
        b"\x10\x0c\x00\x04MQTT\x04\x08\x00\x00\x00\x00".to_vec(), // CONNECT, will QoS, no will
        b"\x10\x0c\x00\x04MQTT\x04\x20\x00\x00\x00\x00".to_vec(), // CONNECT, will retain, no will
        b"\x10\x0c\x00\x04MQTT\x04\x80\x00\x00\x00\x00".to_vec(), // CONNECT, user name missing
        b"\x10\x0d\x00\x04MQTT\x04\x00\x00\x00\x00\x00\x00".to_vec(), // CONNECT, byte left over
        b"\x10\x0b\x00\x04MQTT\x04\x00\x00\x00\x00".to_vec(),     // CONNECT, client id cut
        b"\x10\x07\x00\x04MQTT\x04".to_vec(),                     // CONNECT, no flags
    ];
    for bytes in cases {
        assert_eq!(decode(&bytes), Decoded::Error(DecodeError::MalformedPacket), "{:?}", bytes);
    }
}

#[test]
fn errors_show_before_the_body_is_there() {
    assert_eq!(decode(&[]), Decoded::NeedMoreData);
    assert_eq!(decode(&[0x30]), Decoded::NeedMoreData);
    assert_eq!(decode(&[0x30, 0x05]), Decoded::NeedMoreData);
    assert_eq!(decode(&[0x30, 0x05, 0x00, 0x01, 0xff]), Decoded::NeedMoreData);
    assert_eq!(decode(&[0x30, 0x05, 0x00, 0x01, 0xff, 0, 0]), Decoded::Error(DecodeError::InvalidUtf8));
    assert_eq!(decode(&[0x40, 0x01]), Decoded::NeedMoreData);
    assert_eq!(decode(&[0x40, 0x01, 0x00]), Decoded::Error(DecodeError::MalformedPacket));
}

#[test]
fn identifier_mismatch() {
    for packet in [
        Packet::Publish(publish("t", QoS::AtMostOnce, Some(1), b"")),
        Packet::Publish(publish("t", QoS::AtLeastOnce, None, b"")),
        Packet::Publish(publish("t", QoS::ExactlyOnce, None, b"")),
        // the first fault found is the one reported
        Packet::Publish(publish(&"t".repeat(65_536), QoS::ExactlyOnce, None, b"")),
    ] {
        assert_eq!(encode(&packet), Err(EncodeError::IdentifierMismatch));
    }
}

#[test]
fn field_too_long() {
    let long = "x".repeat(65_536);
    let fits = "x".repeat(65_535);
    let long_bytes = vec![0u8; 65_536];
    // two bytes each in UTF-8: 32 768 of them are one byte too many
    let wide = "é".repeat(32_768);

    for packet in [
        Packet::Publish(publish(&long, QoS::AtMostOnce, None, b"")),
        Packet::Publish(publish(&wide, QoS::AtMostOnce, None, b"")),
        Packet::Connect(connect(&long)),
        Packet::Connect(Connect { protocol_name: long.clone(), ..connect("c") }),
        Packet::Connect(Connect { username: Some(long.clone()), ..connect("c") }),
        Packet::Connect(Connect { password: Some(long_bytes.clone()), ..connect("c") }),
        Packet::Connect(Connect {
            will: Some(Will {
                topic: long.clone(),
                message: vec![],
                qos: QoS::AtMostOnce,
                retain: false,
            }),
            ..connect("c")
        }),
        Packet::Connect(Connect {
            will: Some(Will {
                topic: "w".to_string(),
                message: long_bytes.clone(),
                qos: QoS::AtMostOnce,
                retain: false,
            }),
            ..connect("c")
        }),
        Packet::Subscribe {
            packet_id: 1,
            filters: vec![("ok".to_string(), QoS::AtMostOnce), (long.clone(), QoS::AtMostOnce)],
        },
    ] {
        assert_eq!(encode(&packet), Err(EncodeError::FieldTooLong));
    }

    let packet = Packet::Publish(publish(&fits, QoS::AtMostOnce, None, b""));
    let bytes = encode(&packet).unwrap();
    assert_eq!(bytes.len(), 1 + 3 + 2 + 65_535);
    assert_eq!(&bytes[..6], &[0x30, 0x81, 0x80, 0x04, 0xff, 0xff]);
    assert_eq!(decode(&bytes), Decoded::Packet { packet, consumed: bytes.len() });
}

#[test]
fn packet_too_large() {
    // with the topic "t" the body is 3 bytes longer than the payload
    let packet = Packet::Publish(Publish {
        dup: false,
        qos: QoS::AtMostOnce,
        retain: false,
        topic: "t".to_string(),
        packet_id: None,
        payload: vec![0u8; 268_435_456],
    });
    assert_eq!(encode(&packet), Err(EncodeError::PacketTooLarge));
}

#[test]
fn qos_and_return_codes_on_the_wire() {
    for (qos, level) in [(QoS::AtMostOnce, 0u8), (QoS::AtLeastOnce, 1), (QoS::ExactlyOnce, 2)] {
        assert_eq!(qos.to_u8(), level);
        assert_eq!(QoS::from_u8(level), Some(qos));
    }
    assert_eq!(QoS::from_u8(3), None);
    assert_eq!(QoS::from_u8(255), None);

    for (code, byte) in [
        (ConnectReturnCode::Accepted, 0u8),
        (ConnectReturnCode::UnacceptableProtocolVersion, 1),
        (ConnectReturnCode::IdentifierRejected, 2),
        (ConnectReturnCode::ServiceUnavailable, 3),
        (ConnectReturnCode::BadUserNameOrPassword, 4),
        (ConnectReturnCode::NotAuthorized, 5),
    ] {
        assert_eq!(code.to_u8(), byte);
        assert_eq!(ConnectReturnCode::from_u8(byte), Some(code));
    }
    assert_eq!(ConnectReturnCode::from_u8(6), None);

    for (code, byte) in [
        (SubscribeReturnCode::MaxQoS0, 0u8),
        (SubscribeReturnCode::MaxQoS1, 1),
        (SubscribeReturnCode::MaxQoS2, 2),
        (SubscribeReturnCode::Failure, 0x80),
    ] {
        assert_eq!(code.to_u8(), byte);
        assert_eq!(SubscribeReturnCode::from_u8(byte), Some(code));
    }
    assert_eq!(SubscribeReturnCode::from_u8(3), None);
    assert_eq!(SubscribeReturnCode::from_u8(0x81), None);
}
