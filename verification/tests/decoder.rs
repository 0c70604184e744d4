use chatrans::decoder::{
    CameraMode, CruiseState, DecodeError, DecodedPacket, DecodedPacketPayload, ReplayPlayerProperty,
};
use chatrans::packet::{
    ArgValue, CruiseStatePacket, EntityData, EntityInfoPacket, EntityMethodPacket, MapPacket, Packet,
    PacketType, PropertyBlob, RawPayload,
};
use chatrans::version::Version;
use serde_pickle::{HashableValue, SerOptions, Value};
use std::collections::{BTreeMap, HashMap};

const VERSION: Version = Version { major: 0, minor: 10, patch: 9, build: 0 };

fn packet(packet_type: u32, clock: f32, payload: PacketType) -> Packet {
    Packet { packet_type, clock: clock.to_bits(), payload }
}

fn pickled(value: &Value) -> Vec<u8> {
    serde_pickle::value_to_vec(value, SerOptions::new()).unwrap()
}

fn method(name: &str, args: Vec<ArgValue>) -> PacketType {
    PacketType::EntityMethod(EntityMethodPacket { entity_id: 576258, method: name.to_string(), args })
}

fn chat(sender: i32, audience: &[u8], text: &[u8]) -> PacketType {
    method(
        "onChatMessageRegular",
        vec![ArgValue::Int32(sender), ArgValue::Str(audience.to_vec()), ArgValue::Str(text.to_vec())],
    )
}

fn property(key: ReplayPlayerProperty, value: Value) -> Value {
    Value::Tuple(vec![Value::I64(key.key()), value])
}

fn player(id: i64, name: &str) -> Value {
    Value::List(vec![
        property(ReplayPlayerProperty::AccountId, Value::I64(1000 + id)),
        property(ReplayPlayerProperty::AvatarId, Value::I64(500 + id)),
        property(ReplayPlayerProperty::ClanTag, Value::Bytes(b"CLAN".to_vec())),
        property(ReplayPlayerProperty::Id, Value::I64(id)),
        property(ReplayPlayerProperty::MaxHealth, Value::I64(42000)),
        property(ReplayPlayerProperty::Name, Value::Bytes(name.as_bytes().to_vec())),
        property(ReplayPlayerProperty::ShipId, Value::I64(700 + id)),
        property(ReplayPlayerProperty::SkinId, Value::I64(0)),
        property(ReplayPlayerProperty::TeamId, Value::I64(1)),
    ])
}

fn arena_state(players: Value) -> Value {
    let mut fields = BTreeMap::new();
    fields.insert(HashableValue::Bytes(b"hasInvaders".to_vec()), Value::I64(1));
    fields.insert(HashableValue::Bytes(b"name".to_vec()), Value::Bytes(b"A".to_vec()));
    let mut state = BTreeMap::new();
    state.insert(HashableValue::I64(5), Value::List(vec![Value::Dict(fields), Value::None]));
    state.insert(HashableValue::I64(2), Value::List(vec![]));
    let _ = &players;
    Value::Dict(state)
}

fn roster(players: Value) -> PacketType {
    method(
        "onArenaStateReceived",
        vec![
            ArgValue::Int64(77),
            ArgValue::Int8(-3),
            ArgValue::Blob(pickled(&arena_state(Value::None))),
            ArgValue::Blob(pickled(&players)),
        ],
    )
}

fn decode(audit: bool, p: &Packet) -> Result<DecodedPacket<'_>, DecodeError> {
    DecodedPacket::from(&VERSION, audit, p)
}

#[test]
fn an_unknown_camera_mode_is_kept() {
    let p = packet(0x27, 3.0, PacketType::CameraMode(255));
    let d = decode(false, &p).unwrap();
    assert_eq!(d.packet_type, 0x27);
    assert_eq!(f32::from_bits(d.clock), 3.0);
    assert!(matches!(d.payload, DecodedPacketPayload::CameraMode(CameraMode::Unknown(255))));
}

#[test]
fn an_unknown_camera_mode_is_kept_under_audit_too() {
    for code in [255, 0, 4, u32::MAX] {
        let p = packet(0x27, 3.0, PacketType::CameraMode(code));
        for audit in [false, true] {
            match decode(audit, &p).unwrap().payload {
                DecodedPacketPayload::CameraMode(mode) => assert_eq!(mode, CameraMode::Unknown(code)),
                other => panic!("{:?}", other),
            }
        }
    }
}

#[test]
fn the_known_camera_modes() {
    let known = [
        (3, CameraMode::OverheadMap),
        (5, CameraMode::FollowingShells),
        (6, CameraMode::FollowingPlanes),
        (8, CameraMode::FollowingShip),
        (9, CameraMode::FreeFlying),
        (11, CameraMode::FollowingSubmarine),
    ];
    for (code, mode) in known {
        assert_eq!(CameraMode::from_code(code), mode);
        for audit in [false, true] {
            let p = packet(1, 0.0, PacketType::CameraMode(code));
            match decode(audit, &p).unwrap().payload {
                DecodedPacketPayload::CameraMode(m) => assert_eq!(m, mode),
                other => panic!("{:?}", other),
            }
        }
    }
    for code in [0, 1, 2, 4, 7, 10, 12, u32::MAX] {
        assert_eq!(CameraMode::from_code(code), CameraMode::Unknown(code));
    }
}

#[test]
fn the_free_look() {
    let off = packet(1, 0.0, PacketType::CameraFreeLook(0));
    let on = packet(1, 0.0, PacketType::CameraFreeLook(1));
    let odd = packet(1, 0.0, PacketType::CameraFreeLook(9));
    for audit in [false, true] {
        assert!(matches!(decode(audit, &off).unwrap().payload, DecodedPacketPayload::CameraFreeLook(false)));
        assert!(matches!(decode(audit, &on).unwrap().payload, DecodedPacketPayload::CameraFreeLook(true)));
    }
    assert!(matches!(decode(false, &odd).unwrap().payload, DecodedPacketPayload::CameraFreeLook(true)));
    match decode(true, &odd).unwrap().payload {
        DecodedPacketPayload::Audit(note) => assert_eq!(note, "CameraFreeLook(9)"),
        other => panic!("{:?}", other),
    }
}

#[test]
fn the_cruise_states() {
    let known = [(0, CruiseState::Throttle), (1, CruiseState::Rudder), (2, CruiseState::DiveDepth)];
    for (key, state) in known {
        let p = packet(1, 0.0, PacketType::CruiseState(CruiseStatePacket { key, value: -2 }));
        for audit in [false, true] {
            match decode(audit, &p).unwrap().payload {
                DecodedPacketPayload::CruiseState { state: s, value } => {
                    assert_eq!(s, state);
                    assert_eq!(value, -2);
                }
                other => panic!("{:?}", other),
            }
        }
    }
    let p = packet(1, 0.0, PacketType::CruiseState(CruiseStatePacket { key: 17, value: -4 }));
    for audit in [false, true] {
        match decode(audit, &p).unwrap().payload {
            DecodedPacketPayload::CruiseState { state, value } => {
                assert_eq!(state, CruiseState::Unknown(17));
                assert_eq!(value, -4);
            }
            other => panic!("{:?}", other),
        }
    }
    assert_eq!(CruiseState::from_code(3), CruiseState::Unknown(3));
    assert_eq!(CruiseState::from_code(u32::MAX), CruiseState::Unknown(u32::MAX));
}

fn unit_matrix() -> Vec<u8> {
    let mut m = Vec::new();
    for row in 0..4 {
        for column in 0..4 {
            let value: f32 = if row == column { 1.0 } else { 0.0 };
            m.extend_from_slice(&value.to_le_bytes());
        }
    }
    m
}

#[test]
fn the_map() {
    let good = packet(
        1,
        0.0,
        PacketType::GameMap(MapPacket { name: "spaces/16_OC_bees_to_honey".to_string(), matrix: unit_matrix(), unknown: 1 }),
    );
    for audit in [false, true] {
        match decode(audit, &good).unwrap().payload {
            DecodedPacketPayload::GameMap(m) => assert_eq!(m.name, "spaces/16_OC_bees_to_honey"),
            other => panic!("{:?}", other),
        }
    }
    let flag = packet(1, 0.0, PacketType::GameMap(MapPacket { name: "m".to_string(), matrix: unit_matrix(), unknown: 2 }));
    assert!(matches!(decode(false, &flag).unwrap().payload, DecodedPacketPayload::GameMap(_)));
    match decode(true, &flag).unwrap().payload {
        DecodedPacketPayload::Audit(note) => assert_eq!(note, "Map: Unknown bool is not a bool (is 2)"),
        other => panic!("{:?}", other),
    }
    let matrix = packet(1, 0.0, PacketType::GameMap(MapPacket { name: "m".to_string(), matrix: vec![0, 128, 63], unknown: 0 }));
    assert!(matches!(decode(false, &matrix).unwrap().payload, DecodedPacketPayload::GameMap(_)));
    match decode(true, &matrix).unwrap().payload {
        DecodedPacketPayload::Audit(note) => {
            assert_eq!(note, "Map: Unit matrix is not a unit matrix (is [0, 128, 63])")
        }
        other => panic!("{:?}", other),
    }
}

#[test]
fn a_packet_of_an_unknown_kind() {
    let mut usual = vec![0u8; 40];
    for _ in 0..3 {
        usual.extend_from_slice(&(-1.0f32).to_le_bytes());
    }
    let p = packet(0x18, 0.0, PacketType::Unknown(usual.clone()));
    for audit in [false, true] {
        match decode(audit, &p).unwrap().payload {
            DecodedPacketPayload::Unknown(bytes) => assert_eq!(bytes, &usual),
            other => panic!("{:?}", other),
        }
    }
    let odd = packet(0x18, 0.0, PacketType::Unknown(vec![1, 2, 3]));
    assert!(matches!(decode(false, &odd).unwrap().payload, DecodedPacketPayload::Unknown(_)));
    match decode(true, &odd).unwrap().payload {
        DecodedPacketPayload::Audit(note) => assert_eq!(note, "Camera18 unexpected value!"),
        other => panic!("{:?}", other),
    }
    let other_type = packet(0x19, 0.0, PacketType::Unknown(vec![1, 2, 3]));
    assert!(matches!(decode(true, &other_type).unwrap().payload, DecodedPacketPayload::Unknown(_)));
}

#[test]
fn what_is_handed_on_as_it_came() {
    let raw = || RawPayload { bytes: vec![1, 2, 3] };
    let p = packet(1, 0.0, PacketType::Position(raw()));
    assert!(matches!(decode(true, &p).unwrap().payload, DecodedPacketPayload::Position(r) if r.bytes == [1, 2, 3]));
    let p = packet(1, 0.0, PacketType::PlayerOrientation(raw()));
    assert!(matches!(decode(true, &p).unwrap().payload, DecodedPacketPayload::PlayerOrientation(_)));
    let p = packet(1, 0.0, PacketType::EntityProperty(raw()));
    assert!(matches!(decode(true, &p).unwrap().payload, DecodedPacketPayload::EntityProperty(_)));
    let p = packet(1, 0.0, PacketType::BasePlayerCreate(raw()));
    assert!(matches!(decode(true, &p).unwrap().payload, DecodedPacketPayload::BasePlayerCreate(_)));
    let p = packet(1, 0.0, PacketType::CellPlayerCreate(raw()));
    assert!(matches!(decode(true, &p).unwrap().payload, DecodedPacketPayload::CellPlayerCreate(_)));
    let p = packet(1, 0.0, PacketType::EntityEnter(raw()));
    assert!(matches!(decode(true, &p).unwrap().payload, DecodedPacketPayload::EntityEnter(_)));
    let p = packet(1, 0.0, PacketType::EntityLeave(raw()));
    assert!(matches!(decode(true, &p).unwrap().payload, DecodedPacketPayload::EntityLeave(_)));
    let p = packet(1, 0.0, PacketType::EntityCreate(raw()));
    assert!(matches!(decode(true, &p).unwrap().payload, DecodedPacketPayload::EntityCreate(_)));
    let p = packet(1, 0.0, PacketType::PropertyUpdate(raw()));
    assert!(matches!(decode(true, &p).unwrap().payload, DecodedPacketPayload::PropertyUpdate(_)));
    let p = packet(1, 0.0, PacketType::Camera(raw()));
    assert!(matches!(decode(true, &p).unwrap().payload, DecodedPacketPayload::Camera(_)));
    let p = packet(1, 0.0, PacketType::Invalid(raw()));
    assert!(matches!(decode(true, &p).unwrap().payload, DecodedPacketPayload::Invalid(_)));
    let p = packet(1, 0.0, PacketType::Version("0,10,9,0".to_string()));
    assert!(matches!(decode(true, &p).unwrap().payload, DecodedPacketPayload::Version(v) if v == "0,10,9,0"));
}

#[test]
fn a_method_without_a_reading_is_handed_on() {
    let p = packet(8, 1.0, method("receiveDamageStat", vec![ArgValue::Blob(vec![1, 2])]));
    for audit in [false, true] {
        match decode(audit, &p).unwrap().payload {
            DecodedPacketPayload::EntityMethod(m) => {
                assert_eq!(m.method, "receiveDamageStat");
                assert_eq!(m.entity_id, 576258);
                assert_eq!(m.args.len(), 1);
            }
            other => panic!("{:?}", other),
        }
    }
}

#[test]
fn a_chat_message() {
    let p = packet(8, 61.5, chat(7, b"battle_team", "gl hf \u{1F600}".as_bytes()));
    let d = decode(false, &p).unwrap();
    assert_eq!(f32::from_bits(d.clock), 61.5);
    match d.payload {
        DecodedPacketPayload::Chat { entity_id, sender_id, audience, message } => {
            assert_eq!(entity_id, 576258);
            assert_eq!(sender_id, 7);
            assert_eq!(audience, "battle_team");
            assert_eq!(message, "gl hf \u{1F600}");
        }
        other => panic!("{:?}", other),
    }
}

#[test]
fn chat_with_malformed_arguments_fails() {
    let missing = packet(8, 0.0, method("onChatMessageRegular", vec![ArgValue::Int32(7), ArgValue::Str(vec![])]));
    assert_eq!(decode(false, &missing).unwrap_err(), DecodeError::MissingArgument);
    let wrong = packet(
        8,
        0.0,
        method("onChatMessageRegular", vec![ArgValue::Int64(7), ArgValue::Str(vec![]), ArgValue::Str(vec![])]),
    );
    assert_eq!(decode(false, &wrong).unwrap_err(), DecodeError::ArgumentType);
    let blob = packet(
        8,
        0.0,
        method("onChatMessageRegular", vec![ArgValue::Int32(7), ArgValue::Blob(vec![]), ArgValue::Str(vec![])]),
    );
    assert_eq!(decode(false, &blob).unwrap_err(), DecodeError::ArgumentType);
    let text = packet(8, 0.0, chat(7, b"all", &[0xFF, 0xFE]));
    assert_eq!(decode(false, &text).unwrap_err(), DecodeError::ArgumentText);
    let audience = packet(8, 0.0, chat(7, &[0xC0], b"hi"));
    assert_eq!(decode(false, &audience).unwrap_err(), DecodeError::ArgumentText);
}

#[test]
fn malformed_arguments_are_a_note_under_audit() {
    let missing = packet(8, 0.0, method("onChatMessageRegular", vec![]));
    match decode(true, &missing).unwrap().payload {
        DecodedPacketPayload::Audit(note) => {
            assert_eq!(note, "onChatMessageRegular: an argument is missing")
        }
        other => panic!("{:?}", other),
    }
    let text = packet(8, 0.0, chat(7, b"all", &[0xFF]));
    match decode(true, &text).unwrap().payload {
        DecodedPacketPayload::Audit(note) => {
            assert_eq!(note, "onChatMessageRegular: a string argument is not UTF-8")
        }
        other => panic!("{:?}", other),
    }
    let shape = packet(8, 0.0, roster(Value::List(vec![Value::I64(1)])));
    match decode(true, &shape).unwrap().payload {
        DecodedPacketPayload::Audit(note) => {
            assert_eq!(note, "onArenaStateReceived: a value tree has the wrong shape")
        }
        other => panic!("{:?}", other),
    }
}

#[test]
fn the_error_texts() {
    assert_eq!(DecodeError::MissingArgument.describe(), "an argument is missing");
    assert_eq!(DecodeError::ArgumentType.describe(), "an argument has the wrong type");
    assert_eq!(DecodeError::ArgumentText.describe(), "a string argument is not UTF-8");
    assert_eq!(DecodeError::ValueTree.describe(), "a blob argument is not a pickle");
    assert_eq!(DecodeError::TreeShape.describe(), "a value tree has the wrong shape");
    assert_eq!(DecodeError::Property.describe(), "a player property is missing or malformed");
}

#[test]
fn a_roster() {
    let p = packet(8, 2.0, roster(Value::List(vec![player(7, "Foo"), player(9, "B\u{e4}r")])));
    match decode(false, &p).unwrap().payload {
        DecodedPacketPayload::OnArenaStateReceived { arg0, arg1, arg2, players } => {
            assert_eq!(arg0, 77);
            assert_eq!(arg1, -3);
            assert_eq!(arg2.len(), 2);
            assert!(arg2[&2].is_empty());
            assert_eq!(arg2[&5].len(), 2);
            let fields = arg2[&5][0].as_ref().unwrap();
            assert_eq!(fields.len(), 2);
            assert_eq!((fields[0].name.as_str(), fields[0].text.as_str()), ("hasInvaders", "I64(1)"));
            assert_eq!((fields[1].name.as_str(), fields[1].text.as_str()), ("name", "Bytes([65])"));
            assert!(arg2[&5][1].is_none());

            assert_eq!(players.len(), 2);
            let foo = &players[0];
            assert_eq!(foo.username, "Foo");
            assert_eq!(foo.clan, "CLAN");
            assert_eq!(foo.avatarid, 507);
            assert_eq!(foo.shipid, 707);
            assert_eq!(foo.playerid, 7);
            assert_eq!(foo.teamid, 1);
            assert_eq!(foo.health, 42000);
            assert_eq!(foo.raw.len(), 9);
            assert_eq!(foo.raw[&27], "String(\"Foo\")");
            assert_eq!(foo.raw[&0], "I64(1007)");
            assert_eq!(players[1].username, "B\u{e4}r");
            assert_eq!(players[1].playerid, 9);
        }
        other => panic!("{:?}", other),
    }
}

#[test]
fn the_state_of_the_arena_from_its_tree() {
    let tree = chatrans::pickle::PickleValue::from_bytes(&pickled(&arena_state(Value::None))).unwrap();
    let state = chatrans::arena::arena_from_tree(&tree).unwrap();
    assert_eq!(state.len(), 2);
    assert_eq!(state[&5][0].as_ref().unwrap()[1].name, "name");

    let out_of_shape = |value: Value| {
        let tree = chatrans::pickle::PickleValue::from_bytes(&pickled(&value)).unwrap();
        chatrans::arena::arena_from_tree(&tree).is_none()
    };
    assert!(out_of_shape(Value::List(vec![])));
    assert!(out_of_shape(Value::None));
    let entry = |key: HashableValue, value: Value| {
        let mut d = BTreeMap::new();
        d.insert(key, value);
        Value::Dict(d)
    };
    assert!(!out_of_shape(entry(HashableValue::I64(1), Value::List(vec![Value::None]))));
    assert!(out_of_shape(entry(HashableValue::Bytes(vec![1]), Value::List(vec![]))));
    assert!(out_of_shape(entry(HashableValue::I64(1), Value::Tuple(vec![]))));
    assert!(out_of_shape(entry(HashableValue::I64(1), Value::List(vec![Value::I64(1)]))));
    let named = |key: HashableValue| entry(HashableValue::I64(1), Value::List(vec![entry(key, Value::None)]));
    assert!(!out_of_shape(named(HashableValue::Bytes(b"ok".to_vec()))));
    assert!(out_of_shape(named(HashableValue::Bytes(vec![0xFF]))));
    assert!(out_of_shape(named(HashableValue::String("text".to_string()))));
}

#[test]
fn a_later_property_replaces_an_earlier_one() {
    let mut p = match player(7, "Foo") {
        Value::List(items) => items,
        _ => unreachable!(),
    };
    p.push(property(ReplayPlayerProperty::Name, Value::Bytes(b"Bar".to_vec())));
    p.push(Value::I64(5));
    let p = packet(8, 0.0, roster(Value::List(vec![Value::List(p)])));
    match decode(false, &p).unwrap().payload {
        DecodedPacketPayload::OnArenaStateReceived { players, .. } => {
            assert_eq!(players[0].username, "Bar");
            assert_eq!(players[0].raw.len(), 9);
        }
        other => panic!("{:?}", other),
    }
}

#[test]
fn a_roster_that_is_no_list_has_no_players() {
    let p = packet(8, 0.0, roster(Value::None));
    match decode(false, &p).unwrap().payload {
        DecodedPacketPayload::OnArenaStateReceived { players, .. } => assert!(players.is_empty()),
        other => panic!("{:?}", other),
    }
}

#[test]
fn a_roster_with_malformed_arguments_fails() {
    let few = packet(8, 0.0, method("onArenaStateReceived", vec![ArgValue::Int64(1), ArgValue::Int8(1)]));
    assert_eq!(decode(false, &few).unwrap_err(), DecodeError::MissingArgument);
    let types = packet(
        8,
        0.0,
        method(
            "onArenaStateReceived",
            vec![ArgValue::Int32(1), ArgValue::Int8(1), ArgValue::Blob(vec![]), ArgValue::Blob(vec![])],
        ),
    );
    assert_eq!(decode(false, &types).unwrap_err(), DecodeError::ArgumentType);
    let blobs = packet(
        8,
        0.0,
        method(
            "onArenaStateReceived",
            vec![
                ArgValue::Int64(1),
                ArgValue::Int8(1),
                ArgValue::Blob(b"no pickle".to_vec()),
                ArgValue::Blob(pickled(&Value::List(vec![]))),
            ],
        ),
    );
    assert_eq!(decode(false, &blobs).unwrap_err(), DecodeError::ValueTree);
    let state = packet(
        8,
        0.0,
        method(
            "onArenaStateReceived",
            vec![
                ArgValue::Int64(1),
                ArgValue::Int8(1),
                ArgValue::Blob(pickled(&Value::List(vec![]))),
                ArgValue::Blob(pickled(&Value::List(vec![]))),
            ],
        ),
    );
    assert_eq!(decode(false, &state).unwrap_err(), DecodeError::TreeShape);
}

#[test]
fn a_player_out_of_shape_fails_the_roster() {
    let without_name = Value::List(vec![
        property(ReplayPlayerProperty::AvatarId, Value::I64(1)),
        property(ReplayPlayerProperty::ClanTag, Value::Bytes(vec![])),
        property(ReplayPlayerProperty::Id, Value::I64(1)),
        property(ReplayPlayerProperty::MaxHealth, Value::I64(1)),
        property(ReplayPlayerProperty::ShipId, Value::I64(1)),
        property(ReplayPlayerProperty::SkinId, Value::I64(1)),
        property(ReplayPlayerProperty::TeamId, Value::I64(1)),
    ]);
    let p = packet(8, 0.0, roster(Value::List(vec![player(7, "Foo"), without_name])));
    assert_eq!(decode(false, &p).unwrap_err(), DecodeError::TreeShape);

    let mut wrong = match player(7, "Foo") {
        Value::List(items) => items,
        _ => unreachable!(),
    };
    wrong.push(property(ReplayPlayerProperty::TeamId, Value::Bytes(b"one".to_vec())));
    let p = packet(8, 0.0, roster(Value::List(vec![Value::List(wrong)])));
    assert_eq!(decode(false, &p).unwrap_err(), DecodeError::TreeShape);

    let short = Value::List(vec![Value::Tuple(vec![Value::I64(27)])]);
    let p = packet(8, 0.0, roster(Value::List(vec![short])));
    assert_eq!(decode(false, &p).unwrap_err(), DecodeError::TreeShape);

    let keyed = Value::List(vec![Value::Tuple(vec![Value::Bytes(b"27".to_vec()), Value::I64(1)])]);
    let p = packet(8, 0.0, roster(Value::List(vec![keyed])));
    assert_eq!(decode(false, &p).unwrap_err(), DecodeError::TreeShape);

    let no_list = packet(8, 0.0, roster(Value::List(vec![Value::I64(3)])));
    assert_eq!(decode(false, &no_list).unwrap_err(), DecodeError::TreeShape);
}

fn entity(is_bot: bool, id: u32, name: &[u8]) -> EntityData {
    let mut data = HashMap::new();
    let mut put = |key: ReplayPlayerProperty, blob: Vec<u8>| {
        data.insert(key.id(), PropertyBlob { blob });
    };
    put(ReplayPlayerProperty::Name, name.to_vec());
    put(ReplayPlayerProperty::ClanTag, b"TAG".to_vec());
    put(ReplayPlayerProperty::AvatarId, (500 + id).to_le_bytes().to_vec());
    put(ReplayPlayerProperty::ShipId, (700 + id).to_le_bytes().to_vec());
    put(ReplayPlayerProperty::Id, id.to_le_bytes().to_vec());
    put(ReplayPlayerProperty::TeamId, 1u32.to_le_bytes().to_vec());
    put(ReplayPlayerProperty::MaxHealth, 0xFFFF_FFFFu32.to_le_bytes().to_vec());
    EntityData { is_bot, data }
}

#[test]
fn the_players_among_the_entities() {
    let info = EntityInfoPacket {
        entities: vec![entity(false, 7, b"Foo"), entity(true, 8, &[0xFF]), entity(false, 9, b"Bar")],
    };
    let p = packet(0x30, 0.0, PacketType::EntityInfo(info));
    match decode(false, &p).unwrap().payload {
        DecodedPacketPayload::EntityInfo { players } => {
            assert_eq!(players.len(), 2);
            assert_eq!(players[0].username, "Foo");
            assert_eq!(players[0].clan, "TAG");
            assert_eq!(players[0].avatarid, 507);
            assert_eq!(players[0].shipid, 707);
            assert_eq!(players[0].playerid, 7);
            assert_eq!(players[0].teamid, 1);
            assert_eq!(players[0].health, 4294967295);
            assert!(players[0].raw.is_empty());
            assert_eq!(players[1].username, "Bar");
        }
        other => panic!("{:?}", other),
    }
}

#[test]
fn an_entity_out_of_shape_fails() {
    let mut broken = entity(false, 7, b"Foo");
    broken.data.remove(&ReplayPlayerProperty::TeamId.id());
    let p = packet(0x30, 0.0, PacketType::EntityInfo(EntityInfoPacket { entities: vec![broken] }));
    assert_eq!(decode(false, &p).unwrap_err(), DecodeError::Property);
    match decode(true, &p).unwrap().payload {
        DecodedPacketPayload::Audit(note) => {
            assert_eq!(note, "EntityInfo: a player property is missing or malformed")
        }
        other => panic!("{:?}", other),
    }
    let mut short = entity(false, 7, b"Foo");
    short.data.insert(ReplayPlayerProperty::Id.id(), PropertyBlob { blob: vec![7, 0] });
    let p = packet(0x30, 0.0, PacketType::EntityInfo(EntityInfoPacket { entities: vec![short] }));
    assert_eq!(decode(false, &p).unwrap_err(), DecodeError::Property);
    let name = entity(false, 7, &[0xFF]);
    let p = packet(0x30, 0.0, PacketType::EntityInfo(EntityInfoPacket { entities: vec![name] }));
    assert_eq!(decode(false, &p).unwrap_err(), DecodeError::Property);
}

#[test]
fn property_blobs() {
    assert_eq!(PropertyBlob { blob: vec![0x78, 0x56, 0x34, 0x12] }.as_u32(), Some(0x12345678));
    assert_eq!(PropertyBlob { blob: vec![1, 0, 0] }.as_u32(), None);
    assert_eq!(PropertyBlob { blob: vec![1, 0, 0, 0, 0] }.as_u32(), None);
    assert_eq!(PropertyBlob { blob: b"Foo".to_vec() }.as_string().unwrap(), "Foo");
    assert_eq!(PropertyBlob { blob: vec![0xFF] }.as_string(), None);
}

#[test]
fn the_numbers_of_the_properties() {
    assert_eq!(ReplayPlayerProperty::AccountId.id(), 0);
    assert_eq!(ReplayPlayerProperty::AvatarId.id(), 2);
    assert_eq!(ReplayPlayerProperty::ClanTag.id(), 6);
    assert_eq!(ReplayPlayerProperty::FragsCount.id(), 10);
    assert_eq!(ReplayPlayerProperty::Id.id(), 12);
    assert_eq!(ReplayPlayerProperty::MaxHealth.id(), 26);
    assert_eq!(ReplayPlayerProperty::Name.id(), 27);
    assert_eq!(ReplayPlayerProperty::ShipId.id(), 35);
    assert_eq!(ReplayPlayerProperty::SkinId.id(), 37);
    assert_eq!(ReplayPlayerProperty::TeamId.id(), 38);
    assert_eq!(ReplayPlayerProperty::TtkStatus.id(), 39);
    assert_eq!(ReplayPlayerProperty::TtkStatus.key(), 39i64);
}

#[test]
fn the_version_does_not_change_the_result() {
    let p = packet(8, 61.5, chat(7, b"battle_team", b"hi"));
    let old = Version { major: 0, minor: 1, patch: 0, build: 0 };
    let new = Version { major: 99, minor: 0, patch: 0, build: 0 };
    let a = format!("{:?}", DecodedPacket::from(&old, false, &p));
    let b = format!("{:?}", DecodedPacket::from(&new, false, &p));
    assert_eq!(a, b);
}

#[test]
fn the_numbers_of_the_properties_by_conversion() {
    assert_eq!(i64::from(ReplayPlayerProperty::Name), 27);
    assert_eq!(u32::from(ReplayPlayerProperty::Name), 27);
    assert_eq!(i64::from(ReplayPlayerProperty::AccountId), 0);
    assert_eq!(u32::from(ReplayPlayerProperty::TtkStatus), 39);
    let id: i64 = ReplayPlayerProperty::Id.into();
    assert_eq!(id, 12);
}
