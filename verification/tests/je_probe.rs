use mc_motd::json::{Json, JsonNumber};
use mc_motd::motd_je::{
    decode_status, handshake_packet, je_request, motd_je, response_progress, status_from_json,
    status_request, JeExchange, MotdJavaInfo, Progress, MAX_HOST_BYTES, PROTOCOL_VERSION,
};
use mc_motd::probe::ProbeError;
use mc_motd::varint::put_varint;

fn assert_je_offline(info: &MotdJavaInfo) {
    assert_eq!(info.status, "offline");
    assert_eq!(info.host, "");
    assert_eq!(info.motd, "");
    assert_eq!(info.agreement, 0);
    assert_eq!(info.version, "");
    assert_eq!(info.online, 0);
    assert_eq!(info.max, 0);
    assert!(info.sample.is_empty());
    assert_eq!(info.favicon, "");
    assert_eq!(info.delay, 0);
    assert!(!info.is_online());
}

fn frame(body: &[u8]) -> Vec<u8> {
    let mut inner: Vec<u8> = Vec::new();
    put_varint(&mut inner, 0);
    put_varint(&mut inner, body.len() as i32);
    inner.extend(body);
    let mut packet: Vec<u8> = Vec::new();
    put_varint(&mut packet, inner.len() as i32);
    packet.extend(inner);
    packet
}

fn received(body: &str) -> JeExchange {
    JeExchange::Received { bytes: frame(body.as_bytes()), elapsed_ms: 21 }
}

fn text(s: &str) -> Json {
    Json::Text(s.to_string())
}

fn number(n: i64) -> Json {
    Json::Number(JsonNumber { integer: Some(n), text: n.to_string() })
}

fn object(entries: Vec<(&str, Json)>) -> Json {
    Json::Object(entries.into_iter().map(|(k, v)| (k.to_string(), v)).collect())
}

const FULL: &str = r#"{"version":{"name":"1.20.4","protocol":765},"players":{"max":20,"online":2,"sample":[{"name":"Steve","id":"8667ba71-b85a-4004-af54-457a9734eed7"},{"name":"Alex","id":"ec561538-f3fd-461d-aff5-086b22154bce"}]},"description":"A Minecraft Server","favicon":"data:image/png;base64,iVBORw0KGgo="}"#;

#[test]
fn new_java_info_is_offline_and_empty() {
    assert_je_offline(&MotdJavaInfo::new());
}

#[test]
fn handshake_packet_layout() {
    let packet = handshake_packet("example.com", 25565);
    let mut expected: Vec<u8> = vec![18, 0x00, 0xbf, 0x04, 11];
    expected.extend(b"example.com");
    expected.extend([0x63, 0xdd, 0x01]);
    assert_eq!(packet, expected);
    assert_eq!(PROTOCOL_VERSION, 575);
}

#[test]
fn handshake_port_is_big_endian() {
    let packet = handshake_packet("a", 0x0102);
    assert_eq!(packet, vec![8, 0x00, 0xbf, 0x04, 1, b'a', 0x01, 0x02, 0x01]);
    let packet = handshake_packet("a", 19132);
    assert_eq!(packet, vec![8, 0x00, 0xbf, 0x04, 1, b'a', 0x4a, 0xbc, 0x01]);
}

#[test]
fn handshake_lengths_are_variable_length_integers() {
    let host = "a".repeat(200);
    let packet = handshake_packet(&host, 1);
    assert_eq!(&packet[..2], &[0xd0, 0x01]);
    assert_eq!(&packet[2..7], &[0x00, 0xbf, 0x04, 0xc8, 0x01]);
    assert_eq!(&packet[7..207], host.as_bytes());
    assert_eq!(&packet[207..], &[0x00, 0x01, 0x01]);
}

#[test]
fn handshake_counts_the_host_in_bytes() {
    let packet = handshake_packet("日本", 1);
    let mut expected: Vec<u8> = vec![13, 0x00, 0xbf, 0x04, 6];
    expected.extend("日本".as_bytes());
    expected.extend([0x00, 0x01, 0x01]);
    assert_eq!(packet, expected);
}

#[test]
fn status_request_is_two_bytes() {
    assert_eq!(status_request(), vec![0x01, 0x00]);
}

#[test]
fn request_needs_a_valid_target() {
    let request = je_request("example.com", 25565).unwrap();
    assert_eq!(request.handshake, handshake_packet("example.com", 25565));
    assert_eq!(request.status_request, vec![0x01, 0x00]);
    assert!(je_request("", 25565).is_none());
    assert!(je_request("bad host", 25565).is_none());
    assert!(je_request("example.com", 0).is_none());
    assert_eq!(MAX_HOST_BYTES, 2147483636);
}

#[test]
fn progress_asks_byte_by_byte_for_the_header() {
    assert_eq!(response_progress(&[]), Progress::Need(1));
    assert_eq!(response_progress(&[0x80]), Progress::Need(1));
    assert_eq!(response_progress(&[0x05]), Progress::Need(1));
    assert_eq!(response_progress(&[0x05, 0x00]), Progress::Need(1));
    assert_eq!(response_progress(&[0x85, 0x01, 0x00, 0x80]), Progress::Need(1));
}

#[test]
fn progress_asks_for_the_rest_of_the_body() {
    assert_eq!(response_progress(&[0x05, 0x00, 0x03]), Progress::Need(3));
    assert_eq!(response_progress(&[0x05, 0x00, 0x03, b'{']), Progress::Need(2));
    assert_eq!(response_progress(&[0x05, 0x00, 0x03, b'{', b' ']), Progress::Need(1));
    assert_eq!(response_progress(&[0x00, 0x00, 0xac, 0x02, 1, 2, 3]), Progress::Need(297));
}

#[test]
fn progress_finds_the_body() {
    assert_eq!(
        response_progress(&[0x05, 0x00, 0x03, b'{', b' ', b'}']),
        Progress::Ready { start: 3, len: 3 }
    );
    assert_eq!(
        response_progress(&[0x05, 0x00, 0x03, b'{', b' ', b'}', 0xff, 0xff]),
        Progress::Ready { start: 3, len: 3 }
    );
    assert_eq!(response_progress(&[0x02, 0x00, 0x00]), Progress::Ready { start: 3, len: 0 });
    assert_eq!(
        response_progress(&[0x85, 0x80, 0x00, 0x80, 0x00, 0x81, 0x00, b'x']),
        Progress::Ready { start: 7, len: 1 }
    );
    let packet = frame(FULL.as_bytes());
    assert_eq!(
        response_progress(&packet),
        Progress::Ready { start: packet.len() - FULL.len(), len: FULL.len() }
    );
}

#[test]
fn progress_takes_the_packet_length_and_id_as_they_come() {
    assert_eq!(
        response_progress(&[0x7f, 0x33, 0x01, b'x']),
        Progress::Ready { start: 3, len: 1 }
    );
}

#[test]
fn progress_rejects_overlong_integers_and_negative_lengths() {
    assert_eq!(response_progress(&[0x80, 0x80, 0x80, 0x80, 0x80, 0x00]), Progress::Invalid);
    assert_eq!(
        response_progress(&[0x01, 0xff, 0xff, 0xff, 0xff, 0xff, 0x01]),
        Progress::Invalid
    );
    assert_eq!(
        response_progress(&[0x01, 0x00, 0x80, 0x80, 0x80, 0x80, 0x80]),
        Progress::Invalid
    );
    assert_eq!(
        response_progress(&[0x01, 0x00, 0xff, 0xff, 0xff, 0xff, 0x0f]),
        Progress::Invalid
    );
}

#[test]
fn reads_a_full_status_document() {
    let info = motd_je("mc.example.com", 25566, &received(FULL)).unwrap();
    assert_eq!(info.status, "online");
    assert!(info.is_online());
    assert_eq!(info.host, "mc.example.com");
    assert_eq!(info.motd, "A Minecraft Server");
    assert_eq!(info.agreement, 765);
    assert_eq!(info.version, "1.20.4");
    assert_eq!(info.online, 2);
    assert_eq!(info.max, 20);
    assert_eq!(
        info.sample,
        vec![
            ("8667ba71-b85a-4004-af54-457a9734eed7".to_string(), "Steve".to_string()),
            ("ec561538-f3fd-461d-aff5-086b22154bce".to_string(), "Alex".to_string()),
        ]
    );
    assert_eq!(info.favicon, "data:image/png;base64,iVBORw0KGgo=");
    assert_eq!(info.delay, 21);
}

#[test]
fn description_as_string_and_as_text_component_agree() {
    let plain = motd_je("h", 1, &received(r#"{"description":"Hello §aworld"}"#)).unwrap();
    let rich = motd_je(
        "h",
        1,
        &received(r#"{"description":{"text":"Hello §aworld","color":"red"}}"#),
    )
    .unwrap();
    assert_eq!(plain.motd, "Hello §aworld");
    assert_eq!(rich.motd, plain.motd);
}

#[test]
fn other_descriptions_are_written_out_as_json() {
    let info = motd_je(
        "h",
        1,
        &received(r#"{"description": {"extra": [{"text": "Hi", "bold": true}, 1.5, -3, null]}}"#),
    )
    .unwrap();
    assert_eq!(info.motd, r#"{"extra":[{"bold":true,"text":"Hi"},1.5,-3,null]}"#);
    let info = motd_je("h", 1, &received(r#"{"description": ["a", "b\n"]}"#)).unwrap();
    assert_eq!(info.motd, r#"["a","b\n"]"#);
    let info = motd_je("h", 1, &received(r#"{"description": {"text": 5}}"#)).unwrap();
    assert_eq!(info.motd, r#"{"text":5}"#);
    let info = motd_je("h", 1, &received(r#"{"description": 12}"#)).unwrap();
    assert_eq!(info.motd, "12");
    let info = motd_je("h", 1, &received(r#"{"description": 18446744073709551615}"#)).unwrap();
    assert_eq!(info.motd, "18446744073709551615");
    let info = motd_je("h", 1, &received(r#"{"description": true}"#)).unwrap();
    assert_eq!(info.motd, "true");
}

#[test]
fn a_missing_description_reads_as_null() {
    let info = motd_je("h", 1, &received("{}")).unwrap();
    assert_eq!(info.status, "online");
    assert_eq!(info.motd, "null");
    assert_eq!(info.agreement, 0);
    assert_eq!(info.version, "");
    assert_eq!(info.online, 0);
    assert_eq!(info.max, 0);
    assert!(info.sample.is_empty());
    assert_eq!(info.favicon, "");
    let info = motd_je("h", 1, &received("[1, 2]")).unwrap();
    assert_eq!(info.status, "online");
    assert_eq!(info.motd, "null");
}

#[test]
fn values_of_the_wrong_type_fall_back() {
    let info = motd_je(
        "h",
        1,
        &received(
            r#"{"description":"d","players":{"online":"3","max":2.5,"sample":{"id":"a","name":"b"}},"version":{"protocol":"x","name":7},"favicon":null}"#,
        ),
    )
    .unwrap();
    assert_eq!(info.online, 0);
    assert_eq!(info.max, 0);
    assert!(info.sample.is_empty());
    assert_eq!(info.agreement, 0);
    assert_eq!(info.version, "");
    assert_eq!(info.favicon, "");
    let info = motd_je("h", 1, &received(r#"{"players":[1],"version":"1.8"}"#)).unwrap();
    assert_eq!(info.online, 0);
    assert_eq!(info.version, "");
}

#[test]
fn sample_entries_without_id_or_name_are_dropped() {
    let info = motd_je(
        "h",
        1,
        &received(
            r#"{"players":{"sample":[{"id":"1","name":"a"},{"id":"2"},{"name":"c"},{"id":4,"name":"d"},"e",{"id":"6","name":"f","x":1},{"id":"7","name":null}]}}"#,
        ),
    )
    .unwrap();
    assert_eq!(
        info.sample,
        vec![("1".to_string(), "a".to_string()), ("6".to_string(), "f".to_string())]
    );
}

#[test]
fn integers_keep_their_low_32_bits() {
    let info = motd_je(
        "h",
        1,
        &received(
            r#"{"players":{"online":4294967297,"max":-1},"version":{"protocol":2147483648}}"#,
        ),
    )
    .unwrap();
    assert_eq!(info.online, 1);
    assert_eq!(info.max, -1);
    assert_eq!(info.agreement, -2147483648);
    let info =
        motd_je("h", 1, &received(r#"{"players":{"online":18446744073709551615,"max":1e2}}"#))
            .unwrap();
    assert_eq!(info.online, 0);
    assert_eq!(info.max, 0);
}

#[test]
fn a_repeated_key_keeps_its_last_value() {
    let info = motd_je("h", 1, &received(r#"{"description":"a","description":"b"}"#)).unwrap();
    assert_eq!(info.motd, "b");
}

#[test]
fn a_body_that_is_no_json_is_malformed() {
    assert_eq!(motd_je("h", 1, &received("not json")).err(), Some(ProbeError::Malformed));
    assert_eq!(motd_je("h", 1, &received("")).err(), Some(ProbeError::Malformed));
    assert_eq!(motd_je("h", 1, &received("{\"a\":1} x")).err(), Some(ProbeError::Malformed));
    assert_eq!(decode_status(b"{", "h", 0).err(), Some(ProbeError::Malformed));
}

#[test]
fn body_bytes_that_are_no_utf8_become_replacement_characters() {
    let mut body: Vec<u8> = Vec::new();
    body.extend(b"{\"description\":\"caf");
    body.push(0xff);
    body.extend(b"\"}");
    let info = decode_status(&body, "h", 3).unwrap();
    assert_eq!(info.motd, "caf\u{fffd}");
    assert_eq!(info.delay, 3);
}

#[test]
fn an_incomplete_response_is_malformed() {
    let mut bytes = frame(FULL.as_bytes());
    bytes.pop();
    let exchange = JeExchange::Received { bytes, elapsed_ms: 1 };
    assert_eq!(motd_je("h", 1, &exchange).err(), Some(ProbeError::Malformed));
    let exchange = JeExchange::Received { bytes: Vec::new(), elapsed_ms: 1 };
    assert_eq!(motd_je("h", 1, &exchange).err(), Some(ProbeError::Malformed));
    let exchange = JeExchange::Received { bytes: vec![0x80; 6], elapsed_ms: 1 };
    assert_eq!(motd_je("h", 1, &exchange).err(), Some(ProbeError::Malformed));
}

#[test]
fn bytes_after_the_body_are_left_alone() {
    let mut bytes = frame(br#"{"description":"x"}"#);
    bytes.extend(b"garbage");
    let exchange = JeExchange::Received { bytes, elapsed_ms: 1 };
    assert_eq!(motd_je("h", 1, &exchange).unwrap().motd, "x");
}

#[test]
fn no_connection_gives_the_offline_record() {
    assert_je_offline(&motd_je("example.com", 25565, &JeExchange::NoConnection).unwrap());
}

#[test]
fn a_local_failure_of_the_stream_is_an_error() {
    assert_eq!(
        motd_je("example.com", 25565, &JeExchange::LocalFailure).err(),
        Some(ProbeError::Local)
    );
}

#[test]
fn an_invalid_target_is_offline_whatever_was_received() {
    assert_je_offline(&motd_je("", 25565, &received(FULL)).unwrap());
    assert_je_offline(&motd_je("bad host", 25565, &received(FULL)).unwrap());
    assert_je_offline(&motd_je("example.com", 0, &received(FULL)).unwrap());
    assert_je_offline(&motd_je("example.com", 0, &JeExchange::LocalFailure).unwrap());
}

#[test]
fn status_from_a_document_built_by_hand() {
    let doc = object(vec![
        ("description", object(vec![("text", text("Welcome"))])),
        (
            "players",
            object(vec![
                ("online", number(5)),
                ("max", number(50)),
                (
                    "sample",
                    Json::Array(vec![
                        object(vec![("id", text("i1")), ("name", text("n1"))]),
                        object(vec![("id", text("i2"))]),
                        Json::Null,
                        object(vec![("name", text("n3")), ("id", text("i3"))]),
                    ]),
                ),
            ]),
        ),
        ("version", object(vec![("protocol", number(47)), ("name", text("1.8.9"))])),
        ("favicon", text("data:image/png;base64,AAAA")),
    ]);
    let info = status_from_json(&doc, "host.example", 77);
    assert_eq!(info.status, "online");
    assert_eq!(info.host, "host.example");
    assert_eq!(info.motd, "Welcome");
    assert_eq!(info.online, 5);
    assert_eq!(info.max, 50);
    assert_eq!(
        info.sample,
        vec![("i1".to_string(), "n1".to_string()), ("i3".to_string(), "n3".to_string())]
    );
    assert_eq!(info.agreement, 47);
    assert_eq!(info.version, "1.8.9");
    assert_eq!(info.favicon, "data:image/png;base64,AAAA");
    assert_eq!(info.delay, 77);
}

#[test]
fn a_document_built_by_hand_is_written_out_as_serde_json_writes_it() {
    let description = Json::Array(vec![
        text("a\"b"),
        number(-12),
        Json::Number(JsonNumber { integer: None, text: "2.50".to_string() }),
        Json::Bool(false),
        Json::Null,
        object(vec![("k", Json::Array(Vec::new()))]),
    ]);
    let doc = object(vec![("description", description)]);
    let info = status_from_json(&doc, "h", 0);
    assert_eq!(info.motd, r#"["a\"b",-12,2.5,false,null,{"k":[]}]"#);
}

#[test]
fn json_accessors() {
    let doc = object(vec![("a", number(1)), ("b", text("x")), ("a", number(2))]);
    assert_eq!(doc.member("a").and_then(|j| j.as_int()), Some(1));
    assert_eq!(doc.member("b").and_then(|j| j.as_text()).map(|s| s.as_str()), Some("x"));
    assert!(doc.member("c").is_none());
    assert!(doc.member("").is_none());
    assert!(text("x").member("a").is_none());
    assert!(doc.as_array().is_none());
    assert!(doc.as_text().is_none());
    assert!(doc.as_int().is_none());
    assert_eq!(Json::Array(vec![Json::Null]).as_array().map(|v| v.len()), Some(1));
    assert_eq!(
        Json::Number(JsonNumber { integer: None, text: "1.5".to_string() }).as_int(),
        None
    );
}
