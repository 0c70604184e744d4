use blowfish::Blowfish;
use chatrans::error::ErrorKind;
use chatrans::monitor::{is_leftover, Action, Event, LiveMonitor, Phase, POLL_SECONDS};
use chatrans::version::Version;
use cipher::generic_array::GenericArray;
use cipher::{BlockEncrypt, KeyInit};
use std::io::Write;

fn record(packet_type: u32, clock: f32, payload: &[u8]) -> Vec<u8> {
    let mut out = Vec::new();
    out.extend_from_slice(&((payload.len() as u32) + 4).to_le_bytes());
    out.extend_from_slice(&packet_type.to_le_bytes());
    out.extend_from_slice(&clock.to_le_bytes());
    out.extend_from_slice(payload);
    out
}

fn container(meta: &str, stream: &[u8]) -> Vec<u8> {
    let mut e = flate2::write::ZlibEncoder::new(Vec::new(), flate2::Compression::default());
    e.write_all(stream).unwrap();
    let mut plain = e.finish().unwrap();
    while plain.len() % 8 != 0 {
        plain.push(0);
    }
    let key = [0x29, 0xB7, 0xC9, 0x09, 0x38, 0x3F, 0x84, 0x88, 0xFA, 0x98, 0xEC, 0x4E, 0x13, 0x19, 0x79, 0xFB];
    let cipher: Blowfish = Blowfish::new_from_slice(&key).unwrap();
    let mut out = vec![0x12, 0x32, 0x34, 0x11];
    out.extend_from_slice(&0u32.to_le_bytes());
    out.extend_from_slice(&(meta.len() as u32).to_le_bytes());
    out.extend_from_slice(meta.as_bytes());
    out.extend_from_slice(&[0; 8]);
    let mut previous = [0u8; 8];
    for chunk in plain.chunks(8) {
        let mut block = [0u8; 8];
        for i in 0..8 {
            block[i] = chunk[i] ^ previous[i];
        }
        let mut b = GenericArray::clone_from_slice(&block);
        cipher.encrypt_block(&mut b);
        out.extend_from_slice(&b);
        previous.copy_from_slice(chunk);
    }
    out
}

const META: &str = r#"{"clientVersionFromExe": "0,10,9,0"}"#;

fn in_match(stream: &[u8]) -> (LiveMonitor, u64) {
    let mut m = LiveMonitor::new();
    assert_eq!(m.step(Event::MarkerCreated).action, Action::Open);
    let contents = container(META, stream);
    let len = contents.len() as u64;
    let turn = m.step(Event::Opened { contents, marker_present: true });
    assert_eq!(turn.action, Action::Poll { offset: len, seconds: 2 });
    (m, len)
}

#[test]
fn a_new_monitor_waits() {
    let m = LiveMonitor::new();
    assert_eq!(m.phase(), Phase::Waiting);
    assert_eq!(m.offset(), 0);
    assert_eq!(POLL_SECONDS, 2);
}

#[test]
fn without_a_marker_the_monitor_stays_waiting() {
    let mut m = LiveMonitor::new();
    for _ in 0..3 {
        let turn = m.step(Event::MarkerAbsent);
        assert_eq!(turn.action, Action::Watch);
        assert!(turn.packets.is_empty());
        assert!(turn.meta.is_none());
        assert!(turn.failure.is_none());
        assert_eq!(m.phase(), Phase::Waiting);
        let turn = m.step(Event::OtherChange);
        assert_eq!(turn.action, Action::Watch);
        assert_eq!(m.phase(), Phase::Waiting);
    }
}

#[test]
fn the_marker_starts_a_battle_and_its_removal_ends_it() {
    let mut m = LiveMonitor::new();
    assert_eq!(m.step(Event::MarkerAbsent).action, Action::Watch);

    let turn = m.step(Event::MarkerCreated);
    assert_eq!(turn.action, Action::Open);
    assert_eq!(m.phase(), Phase::InMatch);
    assert_eq!(m.offset(), 0);

    let a = record(1, 1.0, b"one");
    let b = record(2, 2.0, b"two");
    let c = record(3, 3.0, b"three");
    let mut first = a.clone();
    first.extend_from_slice(&b[..5]);
    let contents = container(META, &first);
    let opened = contents.len() as u64;
    let turn = m.step(Event::Opened { contents, marker_present: true });
    assert_eq!(turn.action, Action::Poll { offset: opened, seconds: 2 });
    assert_eq!(turn.meta.as_deref(), Some(META));
    assert_eq!(turn.version, Some(Version { major: 0, minor: 10, patch: 9, build: 0 }));
    assert!(turn.failure.is_none());
    assert_eq!(turn.packets.len(), 1);
    assert_eq!(turn.packets[0].payload, b"one");
    assert_eq!(m.phase(), Phase::InMatch);
    assert_eq!(m.offset(), opened);

    let turn = m.step(Event::Read { bytes: vec![], marker_present: true });
    assert_eq!(turn.action, Action::Poll { offset: opened, seconds: 2 });
    assert!(turn.packets.is_empty());
    assert!(turn.meta.is_none());
    assert!(turn.version.is_none());

    let mut second = b[5..].to_vec();
    second.extend_from_slice(&c[..1]);
    let turn = m.step(Event::Read { bytes: second.clone(), marker_present: true });
    assert_eq!(turn.action, Action::Poll { offset: opened + second.len() as u64, seconds: 2 });
    assert_eq!(turn.packets.len(), 1);
    assert_eq!(turn.packets[0].payload, b"two");

    // The marker goes while the file is read: the read is still framed.
    let turn = m.step(Event::Read { bytes: c[1..].to_vec(), marker_present: false });
    assert_eq!(turn.action, Action::Watch);
    assert!(turn.failure.is_none());
    assert_eq!(turn.packets.len(), 1);
    assert_eq!(turn.packets[0].packet_type, 3);
    assert_eq!(turn.packets[0].payload, b"three");
    assert_eq!(m.phase(), Phase::Waiting);
    assert_eq!(m.offset(), 0);

    // The next battle starts from nothing.
    assert_eq!(m.step(Event::MarkerCreated).action, Action::Open);
    let turn = m.step(Event::Opened { contents: container(META, &a), marker_present: true });
    assert_eq!(turn.packets.len(), 1);
    assert_eq!(turn.packets[0].payload, b"one");
}

#[test]
fn a_replay_file_that_does_not_unwrap_ends_the_battle() {
    let mut m = LiveMonitor::new();
    m.step(Event::MarkerCreated);
    let turn = m.step(Event::Opened { contents: b"not a replay".to_vec(), marker_present: true });
    assert_eq!(turn.action, Action::Watch);
    assert!(turn.packets.is_empty());
    assert!(turn.meta.is_none());
    assert!(matches!(turn.failure, Some(ErrorKind::InvalidReplayHeader(_))));
    assert_eq!(m.phase(), Phase::Waiting);
    // The next battle is still picked up.
    assert_eq!(m.step(Event::MarkerCreated).action, Action::Open);
    assert_eq!(m.phase(), Phase::InMatch);
}

#[test]
fn metadata_that_names_no_version_ends_the_battle() {
    for meta in [r#"{"clientVersionFromExe": "0.10.9"}"#, r#"{"clientVersionFromExe": ""}"#, "{}"] {
        let mut m = LiveMonitor::new();
        m.step(Event::MarkerCreated);
        let contents = container(meta, &record(1, 1.0, b"one"));
        let turn = m.step(Event::Opened { contents, marker_present: true });
        assert_eq!(turn.action, Action::Watch);
        assert!(turn.packets.is_empty());
        assert!(turn.meta.is_none());
        assert!(turn.version.is_none());
        assert!(matches!(turn.failure, Some(ErrorKind::MetadataDecodeError)));
        assert_eq!(m.phase(), Phase::Waiting);
    }
}

#[test]
fn the_marker_may_go_during_the_first_read() {
    let mut m = LiveMonitor::new();
    m.step(Event::MarkerCreated);
    let stream = record(1, 1.0, b"one");
    let turn = m.step(Event::Opened { contents: container(META, &stream), marker_present: false });
    assert_eq!(turn.action, Action::Watch);
    assert_eq!(turn.meta.as_deref(), Some(META));
    assert_eq!(turn.packets.len(), 1);
    assert_eq!(m.phase(), Phase::Waiting);
}

#[test]
fn a_failure_ends_the_battle() {
    let (mut m, _) = in_match(&[1, 2, 3]);
    let turn = m.step(Event::Failed);
    assert_eq!(turn.action, Action::Watch);
    assert!(turn.packets.is_empty());
    assert_eq!(m.phase(), Phase::Waiting);
    assert_eq!(m.offset(), 0);

    let mut before = LiveMonitor::new();
    before.step(Event::MarkerCreated);
    assert_eq!(before.step(Event::Failed).action, Action::Watch);
    assert_eq!(before.phase(), Phase::Waiting);
}

#[test]
fn a_malformed_stream_ends_the_battle() {
    let (mut m, _) = in_match(&[]);
    let mut bytes = record(1, 1.0, b"fine");
    bytes.extend_from_slice(&[2, 0, 0, 0, 0, 0]);
    let turn = m.step(Event::Read { bytes: bytes.clone(), marker_present: true });
    assert_eq!(turn.action, Action::Watch);
    assert_eq!(turn.packets.len(), 1);
    assert!(matches!(turn.failure, Some(ErrorKind::MalformedRecord)));
    assert_eq!(m.phase(), Phase::Waiting);

    // It is an error also where the marker goes with the same read.
    let (mut m, _) = in_match(&[]);
    let turn = m.step(Event::Read { bytes, marker_present: false });
    assert!(matches!(turn.failure, Some(ErrorKind::MalformedRecord)));
    assert_eq!(m.phase(), Phase::Waiting);

    // And where the first stream of the battle holds it.
    let mut m = LiveMonitor::new();
    m.step(Event::MarkerCreated);
    let turn = m.step(Event::Opened { contents: container(META, &[0, 0, 0, 0]), marker_present: true });
    assert_eq!(turn.action, Action::Watch);
    assert_eq!(turn.meta.as_deref(), Some(META));
    assert!(matches!(turn.failure, Some(ErrorKind::MalformedRecord)));
    assert_eq!(m.phase(), Phase::Waiting);
}

#[test]
fn what_is_out_of_turn_changes_nothing() {
    let mut m = LiveMonitor::new();
    let turn = m.step(Event::Read { bytes: record(1, 1.0, b"x"), marker_present: true });
    assert_eq!(turn.action, Action::Watch);
    assert!(turn.packets.is_empty());
    assert_eq!(m.phase(), Phase::Waiting);
    assert_eq!(m.step(Event::Failed).action, Action::Watch);
    let turn = m.step(Event::Opened { contents: container(META, b""), marker_present: true });
    assert_eq!(turn.action, Action::Watch);
    assert!(turn.meta.is_none());

    // Before the file is opened, only its opening counts.
    m.step(Event::MarkerCreated);
    for event in [
        Event::MarkerCreated,
        Event::MarkerAbsent,
        Event::OtherChange,
        Event::Read { bytes: record(1, 1.0, b"x"), marker_present: true },
    ] {
        let turn = m.step(event);
        assert_eq!(turn.action, Action::Open);
        assert!(turn.packets.is_empty());
        assert_eq!(m.phase(), Phase::InMatch);
        assert_eq!(m.offset(), 0);
    }

    // Once it is opened, it is not opened again.
    let contents = container(META, &[9, 0, 0, 0, 1, 2, 3]);
    let len = contents.len() as u64;
    m.step(Event::Opened { contents, marker_present: true });
    for event in [
        Event::MarkerCreated,
        Event::MarkerAbsent,
        Event::OtherChange,
        Event::Opened { contents: container(META, &record(1, 1.0, b"x")), marker_present: true },
    ] {
        let turn = m.step(event);
        assert_eq!(turn.action, Action::Poll { offset: len, seconds: 2 });
        assert!(turn.packets.is_empty());
        assert!(turn.meta.is_none());
        assert_eq!(m.phase(), Phase::InMatch);
        assert_eq!(m.offset(), len);
    }
}

#[test]
fn reads_in_pieces_find_what_one_read_finds() {
    let mut stream = Vec::new();
    for i in 0..5u32 {
        stream.extend_from_slice(&record(i, i as f32, &vec![i as u8; (i * 3) as usize]));
    }
    for piece in 1..=stream.len() {
        let (mut m, opened) = in_match(&[]);
        let mut types = Vec::new();
        for chunk in stream.chunks(piece) {
            let turn = m.step(Event::Read { bytes: chunk.to_vec(), marker_present: true });
            types.extend(turn.packets.iter().map(|p| p.packet_type));
        }
        assert_eq!(types, vec![0, 1, 2, 3, 4]);
        assert_eq!(m.offset(), opened + stream.len() as u64);
    }
}

#[test]
fn only_temp_files_are_leftovers() {
    assert!(is_leftover(Some("temp")));
    assert!(!is_leftover(Some("tmp")));
    assert!(!is_leftover(Some("TEMP")));
    assert!(!is_leftover(Some("")));
    assert!(!is_leftover(None));
}
