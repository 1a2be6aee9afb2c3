use zink::json::{can_be_read, document, entries};
use zink::{CsvDataProcessor, InfluxDbDataProcessor, Kp, MqttProto, MqttTransport, Packet};

fn some(text: &str) -> Option<String> {
    Some(text.to_string())
}

type Csv = CsvDataProcessor<Vec<u8>>;

#[test]
fn csv_processor_keeps_handle_and_patterns() {
    let processor =
        CsvDataProcessor::new(vec![1u8, 2, 3], vec!["tagId".to_string(), "$.a.b".to_string()]);
    assert_eq!(processor.handle(), &vec![1u8, 2, 3]);
    assert_eq!(processor.patterns(), &vec!["tagId".to_string(), "$.a.b".to_string()]);
}

#[test]
fn csv_cell() {
    assert_eq!(Csv::cell(&some("21.5")), "21.5");
    assert_eq!(Csv::cell(&some("\"t1\"")), "\"t1\"");
    assert_eq!(Csv::cell(&some("[]")), "");
    assert_eq!(Csv::cell(&some("")), "");
    assert_eq!(Csv::cell(&None), "");
    assert_eq!(Csv::cell(&some("[ ]")), "[ ]");
    assert_eq!(Csv::cell(&some("[1]")), "[1]");
}

#[test]
fn csv_line() {
    assert_eq!(Csv::line(&vec![some("\"t1\""), some("21.5"), some("80")]), "\"t1\",21.5,80\n");
    assert_eq!(Csv::line(&vec![some("a"), some("[]"), None, some("d")]), "a,,,d\n");
    assert_eq!(Csv::line(&vec![some("only")]), "only\n");
    assert_eq!(Csv::line(&vec![None]), "\n");
    assert_eq!(Csv::line(&vec![None, None]), ",\n");
    assert_eq!(Csv::line(&vec![]), "\n");
}

#[test]
fn csv_process_entries() {
    let processor = CsvDataProcessor::new((), vec!["a".to_string(), "b".to_string()]);
    let lines = processor.process_entries(&vec![
        vec![some("1"), some("2")],
        vec![None, some("[]")],
        vec![some("x"), None],
    ]);
    assert_eq!(lines, vec!["1,2\n".to_string(), ",\n".to_string(), "x,\n".to_string()]);
    assert_eq!(processor.process_entries(&vec![]), Vec::<String>::new());
}

#[test]
fn influx_body() {
    assert_eq!(
        InfluxDbDataProcessor::body("\"t1\"", "21.5", "80", "1000"),
        "sensor,tag=\"t1\" temperature=21.5,batteryLevel=80 1000"
    );
    assert_eq!(
        InfluxDbDataProcessor::body("", "", "", ""),
        "sensor,tag= temperature=,batteryLevel= "
    );
}

#[test]
fn influx_reading_needs_all_four_lookups() {
    assert_eq!(
        InfluxDbDataProcessor::reading(&some("1000"), &some("\"t1\""), &some("80"), &some("21.5")),
        some("sensor,tag=\"t1\" temperature=21.5,batteryLevel=80 1000")
    );
    assert_eq!(InfluxDbDataProcessor::reading(&None, &some("t"), &some("b"), &some("c")), None);
    assert_eq!(InfluxDbDataProcessor::reading(&some("1"), &None, &some("b"), &some("c")), None);
    assert_eq!(InfluxDbDataProcessor::reading(&some("1"), &some("t"), &None, &some("c")), None);
    assert_eq!(InfluxDbDataProcessor::reading(&some("1"), &some("t"), &some("b"), &None), None);
    assert_eq!(InfluxDbDataProcessor::reading(&None, &None, &None, &None), None);
}

#[test]
fn influx_bodies_of_a_payload_with_entries() {
    let payload =
        br#"{"entries":[{"tagId":"t1","temperature":21.5,"batteryLevel":80,"timestamp":1000}]}"#;
    let processor = InfluxDbDataProcessor::new();
    assert_eq!(
        processor.handle_request(&[], payload),
        vec!["sensor,tag=\"t1\" temperature=21.5,batteryLevel=80 1000".to_string()]
    );
}

#[test]
fn influx_bodies_of_a_payload_that_is_an_array() {
    let payload = br#"[
        {"tagId":"a","temperature":1,"batteryLevel":2,"timestamp":3},
        {"timestamp":30,"batteryLevel":20,"temperature":-1.25,"tagId":"b","more":[1,2]}
    ]"#;
    let processor = InfluxDbDataProcessor::new();
    assert_eq!(
        processor.handle_request(&["ignored", "path"], payload),
        vec![
            "sensor,tag=\"a\" temperature=1,batteryLevel=2 3".to_string(),
            "sensor,tag=\"b\" temperature=-1.25,batteryLevel=20 30".to_string(),
        ]
    );
}

#[test]
fn influx_looks_up_what_is_missing_as_the_empty_list() {
    let processor = InfluxDbDataProcessor::new();
    assert_eq!(
        processor.handle_request(&[], br#"[{"tagId":"a"}, 5]"#),
        vec![
            "sensor,tag=\"a\" temperature=[],batteryLevel=[] []".to_string(),
            "sensor,tag=[] temperature=[],batteryLevel=[] []".to_string(),
        ]
    );
}

#[test]
fn influx_posts_nothing_for_a_payload_without_entries() {
    let processor = InfluxDbDataProcessor::new();
    for payload in [
        &b""[..],
        &b"not json"[..],
        &b"{"[..],
        &b"{}"[..],
        &br#"{"entries":5}"#[..],
        &br#"{"entries":{"tagId":"a"}}"#[..],
        &br#"{"other":[1,2]}"#[..],
        &b"5"[..],
        &b"\"text\""[..],
        &b"null"[..],
        &b"[]"[..],
        &br#"{"entries":[]}"#[..],
    ] {
        assert_eq!(processor.handle_request(&[], payload), Vec::<String>::new(), "{:?}", payload);
    }
}

#[test]
fn influx_process_entries_takes_documents() {
    let documents: Vec<serde_json::Value> = vec![
        serde_json::from_str(r#"{"tagId":1,"temperature":2,"batteryLevel":3,"timestamp":4}"#)
            .unwrap(),
    ];
    assert_eq!(
        InfluxDbDataProcessor::new().process_entries(&documents),
        vec!["sensor,tag=1 temperature=2,batteryLevel=3 4".to_string()]
    );
}

#[test]
fn entries_of_a_document() {
    let listed: serde_json::Value = serde_json::from_str(r#"{"entries":[1,"two",{"3":3}]}"#).unwrap();
    let found = entries(&listed).unwrap();
    assert_eq!(found.len(), 3);
    assert_eq!(serde_json::to_string(&found[1]).unwrap(), "\"two\"");
    assert_eq!(serde_json::to_string(&found[2]).unwrap(), "{\"3\":3}");

    let array: serde_json::Value = serde_json::from_str(r#"[{"entries":[1]},2]"#).unwrap();
    let found = entries(&array).unwrap();
    assert_eq!(found.len(), 2);
    assert_eq!(serde_json::to_string(&found[0]).unwrap(), "{\"entries\":[1]}");

    for text in ["{}", "{\"entries\":1}", "1", "\"entries\"", "null", "{\"Entries\":[1]}"] {
        let document: serde_json::Value = serde_json::from_str(text).unwrap();
        assert!(entries(&document).is_none(), "{}", text);
    }
}

#[test]
fn a_number_with_a_long_exponent_is_not_read() {
    let processor = InfluxDbDataProcessor::new();
    for payload in [
        &b"1.5e-2147483647"[..],
        &b"[1.5e-2147483647]"[..],
        &br#"{"entries":[{"tagId":1.5e-2147483647,"temperature":1,"batteryLevel":2,"timestamp":3}]}"#[..],
        &b"1e1234567890"[..],
        &b"1E+1234567890"[..],
        &b"0.1e-0000000001"[..],
        &br#"["a\\",1e1234567890]"#[..],
    ] {
        assert!(!can_be_read(payload), "{:?}", payload);
        assert!(document(payload).is_none());
        assert_eq!(processor.handle_request(&[], payload), Vec::<String>::new());
    }
}

#[test]
fn an_exponent_of_nine_digits_is_read() {
    for payload in
        [&b"1e-999999999"[..], &b"0e999999999"[..], &b"[1.5e-000000002, 2E+000000001]"[..]]
    {
        assert!(can_be_read(payload), "{:?}", payload);
        assert!(document(payload).is_some(), "{:?}", payload);
    }
    let found = document(b"[1.5e-000000002, 2E+000000001]").unwrap();
    assert_eq!(serde_json::to_string(&found).unwrap(), "[0.015,20.0]");
}

#[test]
fn digits_behind_an_e_inside_a_string_are_no_exponent() {
    let payload = br#"{"entries":[{"tagId":"device-1700000000000","temperature":21.5,"batteryLevel":80,"timestamp":1700000000000}]}"#;
    assert!(can_be_read(payload));
    assert_eq!(
        InfluxDbDataProcessor::new().handle_request(&[], payload),
        vec![
            "sensor,tag=\"device-1700000000000\" temperature=21.5,batteryLevel=80 1700000000000"
                .to_string()
        ]
    );
    for payload in [
        &br#""e1234567890""#[..],
        &br#"["a\"e1234567890"]"#[..],
        &br#"{"e-1234567890":"E+1234567890"}"#[..],
        &br#"["\\\"e1234567890", 1e5]"#[..],
    ] {
        assert!(can_be_read(payload), "{:?}", payload);
        assert!(document(payload).is_some(), "{:?}", payload);
    }
}

#[test]
fn what_can_be_read_need_not_be_json() {
    for payload in [&b""[..], &b"not json"[..], &b"{"[..], &b"e"[..], &b"e-"[..], &b"\"e"[..]] {
        assert!(can_be_read(payload), "{:?}", payload);
        assert!(document(payload).is_none(), "{:?}", payload);
    }
}

#[test]
fn a_payload_longer_than_any_publish_carries_is_not_read() {
    let mut payload = vec![b' '; 268_435_456];
    payload[0] = b'1';
    assert!(!can_be_read(&payload));
    assert!(document(&payload).is_none());
    payload.pop();
    assert!(can_be_read(&payload));
    assert_eq!(serde_json::to_string(&document(&payload).unwrap()).unwrap(), "1");
}

#[test]
fn transport_holds_its_upstream() {
    let transport = MqttTransport::new(vec![1, 2, 3]);
    assert_eq!(transport.get_ref(), &vec![1, 2, 3]);
    assert_eq!(transport.into_inner(), vec![1, 2, 3]);

    let bound = MqttProto.bind_transport("framed");
    assert_eq!(*bound.get_ref(), "framed");
}

#[test]
fn kp_echoes() {
    let packet = Packet::Puback { packet_id: 9 };
    assert_eq!(Kp.call(packet.clone()), packet);
    assert_eq!(Kp.call(Packet::Pingreq), Packet::Pingreq);
}
