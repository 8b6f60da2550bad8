use mc_motd::motd_be::{
    decode_reply, motd_be, parse_reply, ping_packet, ping_request, BeExchange, MotdBEInfo,
    MAX_REPLY_LEN, MIN_REPLY_FIELDS,
};
use mc_motd::probe::ProbeError;

const REPLY: &str = "MCPE;Dedicated Server;527;1.19.1;3;10;13253860892328930865;Bedrock level;Survival;1;19132;19133;";

fn assert_offline(info: &MotdBEInfo) {
    assert_eq!(info.status, "offline");
    assert_eq!(info.host, "");
    assert_eq!(info.motd, "");
    assert_eq!(info.agreement, 0);
    assert_eq!(info.version, "");
    assert_eq!(info.online, 0);
    assert_eq!(info.max, 0);
    assert_eq!(info.level_name, "");
    assert_eq!(info.game_mode, "");
    assert_eq!(info.server_unique_id, "");
    assert_eq!(info.delay, 0);
    assert!(!info.is_online());
}

#[test]
fn new_be_info_is_offline_and_empty() {
    assert_offline(&MotdBEInfo::new());
}

#[test]
fn ping_packet_layout() {
    let packet = ping_packet(0);
    let mut expected: Vec<u8> = vec![0x01];
    expected.extend([0u8; 8]);
    expected.extend([
        0x00, 0xff, 0xff, 0x00, 0xfe, 0xfe, 0xfe, 0xfe, 0xfd, 0xfd, 0xfd, 0xfd, 0x12, 0x34, 0x56,
        0x78,
    ]);
    expected.extend([0x12, 0x34, 0x56, 0x78]);
    expected.extend([0u8; 8]);
    assert_eq!(packet, expected);
    assert_eq!(packet.len(), 37);
}

#[test]
fn ping_packet_timestamp_is_big_endian() {
    let packet = ping_packet(0x0102_0304_0506_0708);
    assert_eq!(packet[0], 0x01);
    assert_eq!(&packet[1..9], &[0x01, 0x02, 0x03, 0x04, 0x05, 0x06, 0x07, 0x08]);
    assert_eq!(&packet[9..13], &[0x00, 0xff, 0xff, 0x00]);
    let packet = ping_packet(918733457491587);
    assert_eq!(&packet[1..9], &[0x00, 0x03, 0x43, 0x95, 0x4d, 0x60, 0x86, 0x83]);
    let packet = ping_packet(u64::MAX);
    assert_eq!(&packet[1..9], &[0xff; 8]);
    assert_eq!(packet.len(), 37);
}

#[test]
fn ping_request_needs_a_valid_target() {
    assert_eq!(ping_request("example.com", 19132, 7), Some(ping_packet(7)));
    assert_eq!(ping_request("", 19132, 7), None);
    assert_eq!(ping_request("exa mple.com", 19132, 7), None);
    assert_eq!(ping_request("example.com", 0, 7), None);
}

#[test]
fn parses_a_full_reply() {
    let info = parse_reply(REPLY, "play.example.net", 42).unwrap();
    assert_eq!(info.status, "online");
    assert!(info.is_online());
    assert_eq!(info.host, "play.example.net");
    assert_eq!(info.motd, "Dedicated Server");
    assert_eq!(info.agreement, 527);
    assert_eq!(info.version, "1.19.1");
    assert_eq!(info.online, 3);
    assert_eq!(info.max, 10);
    assert_eq!(info.server_unique_id, "13253860892328930865");
    assert_eq!(info.level_name, "Bedrock level");
    assert_eq!(info.game_mode, "Survival");
    assert_eq!(info.delay, 42);
}

#[test]
fn parses_a_reply_of_exactly_nine_fields() {
    let info = parse_reply("a;b;1;c;2;3;d;e;f", "h", 0).unwrap();
    assert_eq!(info.motd, "b");
    assert_eq!(info.agreement, 1);
    assert_eq!(info.version, "c");
    assert_eq!(info.online, 2);
    assert_eq!(info.max, 3);
    assert_eq!(info.server_unique_id, "d");
    assert_eq!(info.level_name, "e");
    assert_eq!(info.game_mode, "f");
    assert_eq!(MIN_REPLY_FIELDS, 9);
}

#[test]
fn empty_fields_count_as_fields() {
    let info = parse_reply(";;;;;;;;", "h", 5).unwrap();
    assert_eq!(info.status, "online");
    assert_eq!(info.motd, "");
    assert_eq!(info.agreement, 0);
    assert_eq!(info.online, 0);
    assert_eq!(info.max, 0);
    assert_eq!(info.game_mode, "");
    assert_eq!(info.delay, 5);
}

#[test]
fn too_few_fields_are_malformed() {
    assert_eq!(parse_reply("", "h", 0).err(), Some(ProbeError::Malformed));
    assert_eq!(parse_reply("MCPE", "h", 0).err(), Some(ProbeError::Malformed));
    assert_eq!(parse_reply("a;b;1;c;2;3;d;e", "h", 0).err(), Some(ProbeError::Malformed));
    assert_eq!(parse_reply(";;;;;;;", "h", 0).err(), Some(ProbeError::Malformed));
}

#[test]
fn numbers_that_do_not_parse_count_as_zero() {
    let info = parse_reply("a;b;x;c;-1;4294967296;d;e;f", "h", 0).unwrap();
    assert_eq!(info.agreement, 0);
    assert_eq!(info.online, 0);
    assert_eq!(info.max, 0);
    let info = parse_reply("a;b; 5;c;5 ;;d;e;f", "h", 0).unwrap();
    assert_eq!(info.agreement, 0);
    assert_eq!(info.online, 0);
    assert_eq!(info.max, 0);
    let info = parse_reply("a;b;+;c;1.5;0x10;d;e;f", "h", 0).unwrap();
    assert_eq!(info.agreement, 0);
    assert_eq!(info.online, 0);
    assert_eq!(info.max, 0);
}

#[test]
fn numbers_parse_as_the_standard_library_parses_them() {
    let info = parse_reply("a;b;+7;c;007;4294967295;d;e;f", "h", 0).unwrap();
    assert_eq!(info.agreement, 7);
    assert_eq!(info.online, 7);
    assert_eq!(info.max, 4294967295);
    for text in ["0", "+0", "12", "+12", "4294967295", "4294967296", "99999999999999999999", "", "+", "-", "-0", "1a", "a1", "++1", "1+", "٣"] {
        let reply = format!("a;b;{};c;0;0;d;e;f", text);
        let info = parse_reply(&reply, "h", 0).unwrap();
        assert_eq!(info.agreement, text.parse::<u32>().unwrap_or(0));
    }
}

#[test]
fn decodes_a_datagram_with_its_binary_header() {
    let mut data: Vec<u8> = vec![0x1c, 0, 0, 0, 0, 0, 0, 0, 1, 0xff, 0xfe, 0x80];
    data.extend(REPLY.as_bytes());
    let info = decode_reply(&data, "example.com", 9).unwrap();
    assert_eq!(info.status, "online");
    assert_eq!(info.host, "example.com");
    assert_eq!(info.motd, "Dedicated Server");
    assert_eq!(info.agreement, 527);
    assert_eq!(info.online, 3);
    assert_eq!(info.max, 10);
    assert_eq!(info.delay, 9);
}

#[test]
fn bytes_that_are_no_utf8_become_replacement_characters() {
    let mut data: Vec<u8> = Vec::new();
    data.extend(b"x;caf");
    data.extend([0xff]);
    data.extend(b";1;v;2;3;id;");
    data.extend("世界".as_bytes());
    data.extend(b";mode");
    let info = decode_reply(&data, "h", 0).unwrap();
    assert_eq!(info.motd, "caf\u{fffd}");
    assert_eq!(info.level_name, "世界");
    assert_eq!(info.game_mode, "mode");
}

#[test]
fn a_datagram_is_read_up_to_the_budget() {
    assert_eq!(MAX_REPLY_LEN, 1024);
    let mut data: Vec<u8> = Vec::new();
    data.extend(b"a;b;1;c;2;3;d;e;");
    while data.len() < MAX_REPLY_LEN {
        data.push(b'm');
    }
    data.extend(b"tail;more");
    let info = decode_reply(&data, "h", 0).unwrap();
    assert_eq!(info.game_mode.len(), MAX_REPLY_LEN - 16);
    assert!(info.game_mode.bytes().all(|b| b == b'm'));
    let mut short: Vec<u8> = vec![b'x'; MAX_REPLY_LEN];
    short.extend(b";b;1;c;2;3;d;e;f");
    assert_eq!(decode_reply(&short, "h", 0).err(), Some(ProbeError::Malformed));
}

#[test]
fn a_short_datagram_is_malformed_not_offline() {
    let exchange = BeExchange::Reply { data: b"MCPE;only;three".to_vec(), elapsed_ms: 3 };
    assert_eq!(motd_be("example.com", 19132, &exchange).err(), Some(ProbeError::Malformed));
    let exchange = BeExchange::Reply { data: Vec::new(), elapsed_ms: 3 };
    assert_eq!(motd_be("example.com", 19132, &exchange).err(), Some(ProbeError::Malformed));
}

#[test]
fn silence_gives_the_offline_record() {
    let info = motd_be("example.com", 19132, &BeExchange::Silent).unwrap();
    assert_offline(&info);
}

#[test]
fn a_local_failure_is_an_error() {
    assert_eq!(
        motd_be("example.com", 19132, &BeExchange::NoSocket).err(),
        Some(ProbeError::Local)
    );
}

#[test]
fn a_reply_gives_the_online_record() {
    let exchange = BeExchange::Reply { data: REPLY.as_bytes().to_vec(), elapsed_ms: 17 };
    let info = motd_be("example.com", 19132, &exchange).unwrap();
    assert!(info.is_online());
    assert_eq!(info.host, "example.com");
    assert_eq!(info.motd, "Dedicated Server");
    assert_eq!(info.delay, 17);
}

#[test]
fn an_invalid_target_is_offline_whatever_came_back() {
    let reply = BeExchange::Reply { data: REPLY.as_bytes().to_vec(), elapsed_ms: 17 };
    assert_offline(&motd_be("", 19132, &reply).unwrap());
    assert_offline(&motd_be("bad host", 19132, &reply).unwrap());
    assert_offline(&motd_be("example.com", 0, &reply).unwrap());
    assert_offline(&motd_be("example.com", 0, &BeExchange::NoSocket).unwrap());
    assert_offline(&motd_be("", 19132, &BeExchange::Silent).unwrap());
}
