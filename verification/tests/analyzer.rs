use chatrans::analyzer::{
    follow, Analyzer, AnalyzerAdapter, AnalyzerSet, Chained, ChatLogger, ChatLoggerBuilder, Report,
};
use chatrans::container::ReplayFile;
use chatrans::framer::{frame, RawPacket};
use chatrans::packet::{ArgValue, EntityData, EntityInfoPacket, EntityMethodPacket, Packet, PacketType, PropertyBlob};
use chatrans::version::Version;
use blowfish::Blowfish;
use cipher::generic_array::GenericArray;
use cipher::{BlockEncrypt, KeyInit};
use serde_pickle::{SerOptions, Value};
use std::collections::{BTreeMap, HashMap};
use std::io::Write;

const VERSION: Version = Version { major: 0, minor: 10, patch: 9, build: 0 };

fn pickled(value: &Value) -> Vec<u8> {
    serde_pickle::value_to_vec(value, SerOptions::new()).unwrap()
}

fn player(id: i64, name: &str) -> Value {
    let property = |key: i64, value: Value| Value::Tuple(vec![Value::I64(key), value]);
    Value::List(vec![
        property(2, Value::I64(500 + id)),
        property(6, Value::Bytes(b"CLAN".to_vec())),
        property(12, Value::I64(id)),
        property(26, Value::I64(42000)),
        property(27, Value::Bytes(name.as_bytes().to_vec())),
        property(35, Value::I64(700 + id)),
        property(37, Value::I64(0)),
        property(38, Value::I64(1)),
    ])
}

fn roster_args(players: &[(i64, &str)]) -> Vec<ArgValue> {
    vec![
        ArgValue::Int64(0),
        ArgValue::Int8(0),
        ArgValue::Blob(pickled(&Value::Dict(BTreeMap::new()))),
        ArgValue::Blob(pickled(&Value::List(players.iter().map(|(id, name)| player(*id, name)).collect()))),
    ]
}

fn chat_args(sender: i32, text: &str) -> Vec<ArgValue> {
    vec![
        ArgValue::Int32(sender),
        ArgValue::Str(b"battle_common".to_vec()),
        ArgValue::Str(text.as_bytes().to_vec()),
    ]
}

fn call(clock: f32, name: &str, args: Vec<ArgValue>) -> Packet {
    Packet {
        packet_type: 8,
        clock: clock.to_bits(),
        payload: PacketType::EntityMethod(EntityMethodPacket { entity_id: 1, method: name.to_string(), args }),
    }
}

fn roster(clock: f32, players: &[(i64, &str)]) -> Packet {
    call(clock, "onArenaStateReceived", roster_args(players))
}

fn chat(clock: f32, sender: i32, text: &str) -> Packet {
    call(clock, "onChatMessageRegular", chat_args(sender, text))
}

fn logger() -> ChatLogger {
    ChatLoggerBuilder::new().build(VERSION)
}

#[test]
fn chat_after_the_roster_names_its_sender() {
    let mut log = logger();
    assert!(matches!(log.process(&roster(1.0, &[(7, "Foo")])), Report::Quiet));
    match log.process(&chat(2.5, 7, "hi")) {
        Report::Chat(m) => {
            assert_eq!(m.sender, "Foo");
            assert_eq!(m.message, "hi");
            assert_eq!(m.audience, "battle_common");
            assert_eq!(f32::from_bits(m.clock), 2.5);
        }
        other => panic!("{:?}", other),
    }
    log.finish();
}

#[test]
fn chat_of_an_unknown_sender_is_dropped() {
    let mut log = logger();
    assert!(matches!(log.process(&chat(1.0, 99, "hello?")), Report::Quiet));
    assert!(matches!(log.process(&roster(2.0, &[(7, "Foo")])), Report::Quiet));
    assert!(matches!(log.process(&chat(3.0, 99, "hello?")), Report::Quiet));
    // What was dropped does not come later.
    assert!(matches!(log.process(&roster(4.0, &[(99, "Late")])), Report::Quiet));
    match log.process(&chat(5.0, 99, "now")) {
        Report::Chat(m) => assert_eq!((m.sender.as_str(), m.message.as_str()), ("Late", "now")),
        other => panic!("{:?}", other),
    }
}

#[test]
fn a_later_roster_replaces_a_name_and_keeps_the_others() {
    let mut log = logger();
    log.process(&roster(1.0, &[(7, "Foo"), (8, "Bar")]));
    log.process(&roster(2.0, &[(7, "Foo the second"), (7, "Foo the third")]));
    assert_eq!(log.sender_name(7).unwrap(), "Foo the third");
    assert_eq!(log.sender_name(8).unwrap(), "Bar");
    assert_eq!(log.sender_name(9), None);
    assert_eq!(log.sender_name(-1), None);
}

#[test]
fn a_player_number_beyond_32_bits_names_no_sender() {
    let mut log = logger();
    log.process(&roster(1.0, &[(1 << 40, "Far"), (-1, "Negative")]));
    assert_eq!(log.sender_name(0), None);
    assert_eq!(log.sender_name(-1).unwrap(), "Negative");
}

#[test]
fn the_entities_of_a_battle_are_a_roster_too() {
    let mut data = HashMap::new();
    for (key, blob) in [
        (27u32, b"Foo".to_vec()),
        (6, b"".to_vec()),
        (2, 1u32.to_le_bytes().to_vec()),
        (35, 2u32.to_le_bytes().to_vec()),
        (12, 7u32.to_le_bytes().to_vec()),
        (38, 0u32.to_le_bytes().to_vec()),
        (26, 100u32.to_le_bytes().to_vec()),
    ] {
        data.insert(key, PropertyBlob { blob });
    }
    let info = Packet {
        packet_type: 0x30,
        clock: 0,
        payload: PacketType::EntityInfo(EntityInfoPacket { entities: vec![EntityData { is_bot: false, data }] }),
    };
    let mut log = logger();
    assert!(matches!(log.process(&info), Report::Quiet));
    match log.process(&chat(2.5, 7, "hi")) {
        Report::Chat(m) => assert_eq!(m.sender, "Foo"),
        other => panic!("{:?}", other),
    }
}

#[test]
fn a_packet_that_cannot_be_decoded_is_reported() {
    let broken = call(3.0, "onChatMessageRegular", vec![ArgValue::Int32(7)]);
    let mut plain = logger();
    plain.process(&roster(1.0, &[(7, "Foo")]));
    assert!(matches!(
        plain.process(&broken),
        Report::Failed(chatrans::decoder::DecodeError::MissingArgument)
    ));
    // The directory is as it was.
    assert_eq!(plain.sender_name(7).unwrap(), "Foo");

    let mut audit = ChatLoggerBuilder::with_audit(true).build(VERSION);
    match audit.process(&broken) {
        Report::Audit(note) => assert_eq!(note, "onChatMessageRegular: an argument is missing"),
        other => panic!("{:?}", other),
    }
}

#[test]
fn other_packets_tell_nothing() {
    let mut log = logger();
    log.process(&roster(1.0, &[(7, "Foo")]));
    let other = Packet { packet_type: 0x27, clock: 0, payload: PacketType::CameraMode(3) };
    assert!(matches!(log.process(&other), Report::Quiet));
    let unknown = call(1.0, "somethingElse", vec![]);
    assert!(matches!(log.process(&unknown), Report::Quiet));
    assert_eq!(log.sender_name(7).unwrap(), "Foo");
}

#[test]
fn analyzers_side_by_side_keep_their_own_state() {
    let mut first = logger();
    first.process(&roster(0.5, &[(7, "Known to the first")]));
    let second = ChatLoggerBuilder::with_audit(true).build(VERSION);
    let mut set = AnalyzerAdapter::new(vec![first, second]);

    let reports = set.process(&chat(1.0, 7, "hi"));
    assert_eq!(reports.len(), 2);
    assert!(matches!(&reports[0], Report::Chat(m) if m.sender == "Known to the first"));
    assert!(matches!(&reports[1], Report::Quiet));

    let reports = set.process(&roster(2.0, &[(7, "Foo")]));
    assert!(matches!(&reports[0], Report::Quiet));
    assert!(matches!(&reports[1], Report::Quiet));

    let reports = set.process(&chat(3.0, 7, "again"));
    assert!(matches!(&reports[0], Report::Chat(m) if m.sender == "Foo"));
    assert!(matches!(&reports[1], Report::Chat(m) if m.sender == "Foo" && m.message == "again"));

    let broken = call(4.0, "onChatMessageRegular", vec![]);
    let reports = set.process(&broken);
    assert!(matches!(&reports[0], Report::Failed(_)));
    assert!(matches!(&reports[1], Report::Audit(_)));
    set.finish();
}

#[test]
fn analyzers_chained_keep_their_own_state() {
    let mut first = logger();
    first.process(&roster(0.5, &[(7, "Known to the first")]));
    let second = ChatLoggerBuilder::with_audit(true).build(VERSION);
    let mut others = logger();
    others.process(&roster(0.5, &[(8, "Known to the last")]));
    let mut set = Chained::new(first, Chained::new(second, AnalyzerAdapter::new(vec![logger(), others])));

    let reports = set.process(&chat(1.0, 7, "hi"));
    assert_eq!(reports.len(), 4);
    assert!(matches!(&reports[0], Report::Chat(m) if m.sender == "Known to the first"));
    assert!(matches!(&reports[1], Report::Quiet));
    assert!(matches!(&reports[2], Report::Quiet));
    assert!(matches!(&reports[3], Report::Quiet));

    let reports = set.process(&chat(2.0, 8, "ho"));
    assert!(matches!(&reports[0], Report::Quiet));
    assert!(matches!(&reports[1], Report::Quiet));
    assert!(matches!(&reports[2], Report::Quiet));
    assert!(matches!(&reports[3], Report::Chat(m) if m.sender == "Known to the last"));

    let broken = call(3.0, "onChatMessageRegular", vec![]);
    let reports = set.process(&broken);
    assert!(matches!(&reports[0], Report::Failed(_)));
    assert!(matches!(&reports[1], Report::Audit(_)));
    assert!(matches!(&reports[2], Report::Failed(_)));
    assert!(matches!(&reports[3], Report::Failed(_)));
    set.finish();
    assert_eq!(set.first.sender_name(7).unwrap(), "Known to the first");
}

#[test]
fn following_stops_at_a_packet_that_cannot_be_decoded() {
    let packets = vec![
        roster(1.0, &[(7, "Foo")]),
        chat(2.0, 7, "hi"),
        call(3.0, "onChatMessageRegular", vec![ArgValue::Int32(7)]),
        chat(4.0, 7, "bye"),
        roster(5.0, &[(7, "Bar")]),
    ];
    let mut plain = logger();
    let followed = follow(&mut plain, &packets);
    assert!(followed.failed);
    assert_eq!(followed.reports.len(), 3);
    assert!(matches!(&followed.reports[0], Report::Quiet));
    assert!(matches!(&followed.reports[1], Report::Chat(m) if m.message == "hi"));
    assert!(matches!(&followed.reports[2], Report::Failed(_)));
    assert_eq!(plain.sender_name(7).unwrap(), "Foo");

    let mut audit = ChatLoggerBuilder::with_audit(true).build(VERSION);
    let followed = follow(&mut audit, &packets);
    assert!(!followed.failed);
    assert_eq!(followed.reports.len(), 5);
    assert!(matches!(&followed.reports[2], Report::Audit(_)));
    assert!(matches!(&followed.reports[3], Report::Chat(m) if m.sender == "Foo" && m.message == "bye"));
    assert_eq!(audit.sender_name(7).unwrap(), "Bar");

    let followed = follow(&mut audit, &vec![]);
    assert!(!followed.failed);
    assert!(followed.reports.is_empty());
}

// A payload of a test's own making: the name of the method, a zero byte,
// then the pickled list of the arguments.
fn payload_of(name: &str, args: &Value) -> Vec<u8> {
    let mut out = name.as_bytes().to_vec();
    out.push(0);
    out.extend_from_slice(&pickled(args));
    out
}

fn packet_of(raw: &RawPacket) -> Packet {
    let zero = raw.payload.iter().position(|b| *b == 0).unwrap();
    let name = String::from_utf8(raw.payload[..zero].to_vec()).unwrap();
    let args = match serde_pickle::value_from_slice(&raw.payload[zero + 1..], Default::default()) {
        Ok(Value::List(items)) => items
            .into_iter()
            .map(|v| match v {
                Value::I64(i) if name == "onChatMessageRegular" => ArgValue::Int32(i as i32),
                Value::I64(i) => ArgValue::Int64(i),
                Value::Bool(b) => ArgValue::Int8(b as i8),
                Value::Bytes(b) => ArgValue::Blob(b),
                Value::String(s) => ArgValue::Str(s.into_bytes()),
                _ => ArgValue::Blob(vec![]),
            })
            .collect(),
        _ => vec![],
    };
    Packet {
        packet_type: raw.packet_type,
        clock: raw.clock,
        payload: PacketType::EntityMethod(EntityMethodPacket { entity_id: 1, method: name, args }),
    }
}

fn record(packet_type: u32, clock: f32, payload: &[u8]) -> Vec<u8> {
    let mut out = Vec::new();
    out.extend_from_slice(&((payload.len() as u32) + 4).to_le_bytes());
    out.extend_from_slice(&packet_type.to_le_bytes());
    out.extend_from_slice(&clock.to_le_bytes());
    out.extend_from_slice(payload);
    out
}

fn sealed(stream: &[u8]) -> Vec<u8> {
    let mut e = flate2::write::ZlibEncoder::new(Vec::new(), flate2::Compression::default());
    e.write_all(stream).unwrap();
    let mut plain = e.finish().unwrap();
    while plain.len() % 8 != 0 {
        plain.push(0);
    }
    let key = [0x29, 0xB7, 0xC9, 0x09, 0x38, 0x3F, 0x84, 0x88, 0xFA, 0x98, 0xEC, 0x4E, 0x13, 0x19, 0x79, 0xFB];
    let cipher: Blowfish = Blowfish::new_from_slice(&key).unwrap();
    let mut out = Vec::new();
    let mut previous = [0u8; 8];
    for chunk in plain.chunks(8) {
        let mut block = [0u8; 8];
        for i in 0..8 {
            block[i] = chunk[i] ^ previous[i];
        }
        let mut b = GenericArray::clone_from_slice(&block);
        cipher.encrypt_block(&mut b);
        out.extend_from_slice(&b);
        previous.copy_from_slice(chunk);
    }
    out
}

#[test]
fn from_a_container_to_the_chat() {
    let meta = br#"{"clientVersionFromExe": "0,10,9,0"}"#;
    let roster_payload = payload_of(
        "onArenaStateReceived",
        &Value::List(vec![
            Value::I64(0),
            Value::Bool(false),
            Value::Bytes(pickled(&Value::Dict(BTreeMap::new()))),
            Value::Bytes(pickled(&Value::List(vec![player(7, "Foo")]))),
        ]),
    );
    let chat_payload = |text: &str| {
        payload_of(
            "onChatMessageRegular",
            &Value::List(vec![
                Value::I64(7),
                Value::String("battle_common".to_string()),
                Value::String(text.to_string()),
            ]),
        )
    };
    let malformed = payload_of("onChatMessageRegular", &Value::List(vec![Value::I64(7)]));
    let mut stream = Vec::new();
    stream.extend_from_slice(&record(8, 1.0, &roster_payload));
    stream.extend_from_slice(&record(8, 2.0, &chat_payload("hi")));
    stream.extend_from_slice(&record(8, 3.0, &malformed));
    stream.extend_from_slice(&record(8, 4.0, &chat_payload("bye")));

    let mut file = vec![0x12, 0x32, 0x34, 0x11];
    file.extend_from_slice(&0u32.to_le_bytes());
    file.extend_from_slice(&(meta.len() as u32).to_le_bytes());
    file.extend_from_slice(meta);
    file.extend_from_slice(&[0; 8]);
    file.extend_from_slice(&sealed(&stream));

    let replay = ReplayFile::from_bytes(&file).unwrap();
    assert_eq!(replay.meta.as_bytes(), meta);
    let framed = frame(&replay.packet_data);
    assert_eq!(framed.packets.len(), 4);
    assert_eq!(framed.consumed, stream.len());

    assert_eq!(replay.client_version, "0,10,9,0");
    let version = Version::from_client_exe(&replay.client_version);
    let mut log = ChatLoggerBuilder::with_audit(true).build(version);
    let packets: Vec<Packet> = framed.packets.iter().map(packet_of).collect();
    let followed = follow(&mut log, &packets);
    assert!(!followed.failed);
    assert_eq!(followed.reports.len(), 4);
    let mut chats = Vec::new();
    let mut notes = Vec::new();
    for report in followed.reports {
        match report {
            Report::Chat(m) => chats.push(m),
            Report::Audit(note) => notes.push(note),
            Report::Failed(e) => panic!("{:?}", e),
            Report::Quiet => {}
        }
    }
    assert_eq!(chats.len(), 2);
    assert_eq!((chats[0].sender.as_str(), chats[0].message.as_str()), ("Foo", "hi"));
    assert_eq!((chats[1].sender.as_str(), chats[1].message.as_str()), ("Foo", "bye"));
    assert!(f32::from_bits(chats[0].clock) <= f32::from_bits(chats[1].clock));
    assert_eq!(notes, vec!["onChatMessageRegular: an argument is missing".to_string()]);
}
