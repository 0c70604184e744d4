//! The monitor of a live battle, as a state machine.
//!
//! The game sets a marker file when a battle starts and takes it away when
//! the battle ends; in between it appends to the replay file. The monitor
//! decides what to do next from what has just happened. Whoever runs it does
//! the waiting and the reading, and tells the monitor of each outcome.

use crate::container::{unwrapped, unwrapped_view, ReplayFile, ReplayView};
use crate::error::{ErrorKind, ErrorView};
use crate::framer::{
    consumed, frame, has_record, lemma_consumed_within, lemma_framing_continues, packet_views,
    records, starts_malformed, RawPacket, RawPacketView,
};
use crate::text::same_text;
use crate::version::{version_of, Version};
use crate::wire::{append_range, copy_range};
use vstd::prelude::*;
use vstd::string::*;
use vstd::utf8::encode_utf8;

verus! {

/// How long to sleep between two reads of the replay file, in seconds.
pub const POLL_SECONDS: u64 = 2;

/// Where the monitor stands.
#[derive(Debug, Clone, Copy, PartialEq, Eq, Structural)]
pub enum Phase {
    /// No battle is on: the marker is not there.
    Waiting,
    /// A battle is on: the replay file is being followed.
    InMatch,
}

/// What has just happened.
#[derive(Debug)]
pub enum Event {
    /// A look for the marker found none.
    MarkerAbsent,
    /// The marker is there: a look found it, or the directory told of its
    /// creation.
    MarkerCreated,
    /// The directory told of something else.
    OtherChange,
    /// The replay file was opened and read from its start to its end, for the
    /// first time in this battle. `contents` is what was read;
    /// `marker_present` tells whether the marker was still there after the
    /// read.
    Opened { contents: Vec<u8>, marker_present: bool },
    /// The replay file was read from the place asked for to its end. `bytes`
    /// is what was read; `marker_present` tells whether the marker was still
    /// there after the read.
    Read { bytes: Vec<u8>, marker_present: bool },
    /// The battle cannot be followed any further: the replay file could not
    /// be read, or a packet of it could not be decoded.
    Failed,
}

/// What to do next.
#[derive(Debug, Clone, Copy, PartialEq, Eq, Structural)]
pub enum Action {
    /// Wait until the directory tells of a change.
    Watch,
    /// A battle has started: open the replay file and read it from its
    /// start to its end.
    Open,
    /// Sleep for so many seconds, then read the replay file from the place
    /// given to its end.
    Poll { offset: u64, seconds: u64 },
}

/// What a step of the monitor gives.
#[derive(Debug)]
pub struct Turn {
    pub action: Action,
    /// The records that the step has found complete, in their order.
    pub packets: Vec<RawPacket>,
    /// After the first read of a battle: the metadata of the battle, the
    /// text of a JSON document.
    pub meta: Option<String>,
    /// After the first read of a battle: the version of the client, as the
    /// metadata names it. A fresh analyzer is to be made for it before the
    /// records are looked at.
    pub version: Option<Version>,
    /// Why the battle was given up, where the step has given it up for an
    /// error.
    pub failure: Option<ErrorKind>,
}

/// The monitor of one replay directory.
#[derive(Debug)]
pub struct LiveMonitor {
    phase: Phase,
    /// Whether the replay file of this battle has been unwrapped.
    opened: bool,
    /// How much of the replay file has been read.
    offset: u64,
    /// What has been read and belongs to no complete record yet.
    buffer: Vec<u8>,
}

/// The mathematical model of a monitor.
pub struct MonitorView {
    pub phase: Phase,
    /// Whether the replay file of this battle has been unwrapped.
    pub opened: bool,
    /// How much of the replay file has been read.
    pub offset: u64,
    /// What has been read and belongs to no complete record yet.
    pub buffer: Seq<u8>,
}

/// The mathematical model of a step.
pub struct TurnView {
    pub next: MonitorView,
    pub action: Action,
    pub packets: Seq<RawPacketView>,
    pub meta: Option<Seq<char>>,
    pub version: Option<Version>,
    pub failure: Option<ErrorView>,
}

/// A monitor that waits for a battle.
pub open spec fn waiting() -> MonitorView {
    MonitorView { phase: Phase::Waiting, opened: false, offset: 0, buffer: Seq::empty() }
}

/// A step back to waiting, with nothing found.
pub open spec fn back_to_waiting() -> TurnView {
    TurnView {
        next: waiting(),
        action: Action::Watch,
        packets: Seq::empty(),
        meta: None,
        version: None,
        failure: None,
    }
}

/// The step that framing gives during a battle: `stream` is what the packet
/// stream has grown by, and `read` the bytes of the file that were read for
/// it.
///
/// What has come goes behind what was kept; the complete records at the
/// start of that are handed out, and the rest is kept. The battle is given up
/// for an error where the rest can never become a record, or the file has
/// grown beyond what an offset can count. Else the battle goes on if the
/// marker is still there; if it is gone, the monitor waits for the next
/// battle, with the records of this last read handed out.
pub open spec fn framed_turn(m: MonitorView, stream: Seq<u8>, read: nat, marker_present: bool)
    -> TurnView {
    let grown = m.buffer + stream;
    let rest = grown.skip(consumed(grown));
    if starts_malformed(rest) {
        given_up(records(grown), Some(ErrorView::MalformedRecord))
    } else if m.offset + read > u64::MAX {
        given_up(records(grown), Some(ErrorView::FileTooLong))
    } else if !marker_present {
        given_up(records(grown), None)
    } else {
        let offset = (m.offset + read) as u64;
        TurnView {
            next: MonitorView { phase: Phase::InMatch, opened: true, offset, buffer: rest },
            action: Action::Poll { offset, seconds: POLL_SECONDS },
            packets: records(grown),
            meta: None,
            version: None,
            failure: None,
        }
    }
}

/// A step back to waiting, with the records found and the error, if it was
/// one, that ends the battle.
pub open spec fn given_up(packets: Seq<RawPacketView>, failure: Option<ErrorView>) -> TurnView {
    TurnView { next: waiting(), action: Action::Watch, packets, meta: None, version: None, failure }
}

/// The step that a read of the replay file gives during a battle: what was
/// read is what the packet stream has grown by.
pub open spec fn read_turn(m: MonitorView, bytes: Seq<u8>, marker_present: bool) -> TurnView {
    framed_turn(m, bytes, bytes.len(), marker_present)
}

/// The step that the first read of the replay file gives.
///
/// The file is unwrapped, once. Where that fails, or the metadata names a
/// version of the client that is none, the file is refused, and the monitor
/// waits for the next battle. Else the metadata and the version are handed
/// out, and the packet stream of the file is framed as the first of the
/// battle.
pub open spec fn opened_turn(m: MonitorView, contents: Seq<u8>, marker_present: bool) -> TurnView {
    match unwrapped(contents) {
        Err(e) => given_up(Seq::empty(), Some(e)),
        Ok(replay) => match version_of(encode_utf8(replay.client_version)) {
            None => given_up(Seq::empty(), Some(ErrorView::MetadataDecodeError)),
            Some(version) => {
                let turn = framed_turn(m, replay.packet_data, contents.len(), marker_present);
                TurnView {
                    next: turn.next,
                    action: turn.action,
                    packets: turn.packets,
                    meta: Some(replay.meta),
                    version: Some(version),
                    failure: turn.failure,
                }
            },
        },
    }
}

/// The step of the monitor: from where it stands and what has happened to
/// where it stands next, what to do, and what was found.
///
/// While it waits, only the marker starts a battle; whatever else happens,
/// it goes on waiting. A battle starts with the replay file being opened and
/// unwrapped; from then on each read is framed. A failure ends the battle.
/// Whatever else happens during a battle changes nothing: the file is asked
/// for again.
pub open spec fn turn_of(m: MonitorView, event: Event) -> TurnView {
    match m.phase {
        Phase::Waiting => match event {
            Event::MarkerCreated => TurnView {
                next: MonitorView {
                    phase: Phase::InMatch,
                    opened: false,
                    offset: 0,
                    buffer: Seq::empty(),
                },
                action: Action::Open,
                packets: Seq::empty(),
                meta: None,
                version: None,
                failure: None,
            },
            _ => back_to_waiting(),
        },
        Phase::InMatch => match event {
            Event::Opened { contents, marker_present } => if m.opened {
                unchanged(m)
            } else {
                opened_turn(m, contents@, marker_present)
            },
            Event::Read { bytes, marker_present } => if m.opened {
                read_turn(m, bytes@, marker_present)
            } else {
                unchanged(m)
            },
            Event::Failed => back_to_waiting(),
            _ => unchanged(m),
        },
    }
}

/// A step that changes nothing during a battle: the file is asked for again,
/// from its start if it has not been opened yet.
pub open spec fn unchanged(m: MonitorView) -> TurnView {
    TurnView {
        next: m,
        action: if m.opened {
            Action::Poll { offset: m.offset, seconds: POLL_SECONDS }
        } else {
            Action::Open
        },
        packets: Seq::empty(),
        meta: None,
        version: None,
        failure: None,
    }
}

/// Two reads in a row find what one read of both finds.
///
/// Let a battle be on, and let a read of `a` leave it on. Then a read of `b`
/// behind it leaves the monitor where one read of `a` and `b` together would
/// have left it, and the records of the two reads, one behind the other, are
/// the records of that one read: none is lost and none comes twice.
pub proof fn lemma_reads_add_up(m: MonitorView, a: Seq<u8>, b: Seq<u8>, marker_present: bool)
    requires
        m.phase == Phase::InMatch,
        read_turn(m, a, true).next.phase == Phase::InMatch,
    ensures
        read_turn(read_turn(m, a, true).next, b, marker_present).next == read_turn(
            m,
            a + b,
            marker_present,
        ).next,
        read_turn(m, a, true).packets + read_turn(
            read_turn(m, a, true).next,
            b,
            marker_present,
        ).packets == read_turn(m, a + b, marker_present).packets,
{
    let grown = m.buffer + a;
    let rest = grown.skip(consumed(grown));
    lemma_framing_continues(grown, b);
    assert(grown + b =~= m.buffer + (a + b));
    let all = grown + b;
    lemma_consumed_within(rest + b);
    lemma_consumed_within(all);
    assert(all.skip(consumed(all)) =~= (rest + b).skip(consumed(rest + b)));
}

/// The monitor always comes back to waiting: whatever the step, a failure
/// after it leaves the monitor waiting for the next battle.
pub proof fn lemma_failure_leads_to_waiting(m: MonitorView, event: Event)
    ensures
        turn_of(turn_of(m, event).next, Event::Failed).next == waiting(),
        turn_of(turn_of(m, event).next, Event::Failed).action == Action::Watch,
{
}

/// Without the marker the monitor stays waiting, and with it a battle
/// starts.
pub proof fn lemma_marker_starts_the_battle(m: MonitorView)
    requires
        m.phase == Phase::Waiting,
    ensures
        turn_of(m, Event::MarkerAbsent).next.phase == Phase::Waiting,
        turn_of(m, Event::OtherChange).next.phase == Phase::Waiting,
        turn_of(m, Event::MarkerCreated).next.phase == Phase::InMatch,
        turn_of(m, Event::MarkerCreated).action == Action::Open,
{
}

impl View for LiveMonitor {
    type V = MonitorView;

    closed spec fn view(&self) -> MonitorView {
        MonitorView {
            phase: self.phase,
            opened: self.opened,
            offset: self.offset,
            buffer: self.buffer@,
        }
    }
}

/// The model of what a step has given, with the monitor as it is after the
/// step.
pub open spec fn turn_view(next: MonitorView, turn: Turn) -> TurnView {
    TurnView {
        next,
        action: turn.action,
        packets: packet_views(turn.packets@),
        meta: match turn.meta {
            Some(t) => Some(t@),
            None => None,
        },
        version: turn.version,
        failure: match turn.failure {
            Some(e) => Some(e@),
            None => None,
        },
    }
}

impl LiveMonitor {
    /// A monitor that waits for a battle.
    pub fn new() -> (r: LiveMonitor)
        ensures
            r@ == waiting(),
    {
        LiveMonitor { phase: Phase::Waiting, opened: false, offset: 0, buffer: Vec::new() }
    }

    /// Where the monitor stands.
    pub fn phase(&self) -> (r: Phase)
        ensures
            r == self@.phase,
    {
        self.phase
    }

    /// How much of the replay file has been read.
    pub fn offset(&self) -> (r: u64)
        ensures
            r == self@.offset,
    {
        self.offset
    }

    /// Goes back to waiting for a battle.
    fn give_up(&mut self)
        ensures
            final(self)@ == waiting(),
    {
        self.phase = Phase::Waiting;
        self.opened = false;
        self.offset = 0;
        self.buffer = Vec::new();
    }

    /// A step that finds nothing.
    fn quiet(action: Action) -> (turn: Turn)
        ensures
            turn.action == action,
            packet_views(turn.packets@) == Seq::<RawPacketView>::empty(),
            turn.meta is None,
            turn.version is None,
            turn.failure is None,
    {
        let packets: Vec<RawPacket> = Vec::new();
        assert(packet_views(packets@) =~= Seq::empty());
        Turn { action, packets, meta: None, version: None, failure: None }
    }

    /// Gives the battle up for an error, with nothing found.
    fn refuse(&mut self, failure: ErrorKind) -> (turn: Turn)
        ensures
            turn_view(final(self)@, turn) == given_up(Seq::empty(), Some(failure@)),
    {
        self.give_up();
        let packets: Vec<RawPacket> = Vec::new();
        assert(packet_views(packets@) =~= Seq::empty());
        Turn { action: Action::Watch, packets, meta: None, version: None, failure: Some(failure) }
    }

    /// A step that changes nothing during a battle.
    fn ask_again(&self) -> (turn: Turn)
        requires
            self@.phase == Phase::InMatch,
        ensures
            turn_view(self@, turn) == unchanged(self@),
    {
        if self.opened {
            LiveMonitor::quiet(Action::Poll { offset: self.offset, seconds: POLL_SECONDS })
        } else {
            LiveMonitor::quiet(Action::Open)
        }
    }

    /// Frames what the packet stream has grown by.
    fn take_stream(&mut self, stream: &Vec<u8>, read: usize, marker_present: bool) -> (turn: Turn)
        requires
            old(self)@.phase == Phase::InMatch,
        ensures
            turn_view(final(self)@, turn) == framed_turn(
                old(self)@,
                stream@,
                read as nat,
                marker_present,
            ),
    {
        append_range(&mut self.buffer, stream.as_slice(), 0, stream.len());
        assert(self.buffer@ =~= old(self).buffer@ + stream@) by {
            assert(stream@.subrange(0, stream@.len() as int) =~= stream@);
        }
        let framed = frame(self.buffer.as_slice());
        let grown: u64 = read as u64;
        if framed.malformed {
            self.give_up();
            Turn {
                action: Action::Watch,
                packets: framed.packets,
                meta: None,
                version: None,
                failure: Some(ErrorKind::MalformedRecord),
            }
        } else if grown > u64::MAX - self.offset {
            self.give_up();
            Turn {
                action: Action::Watch,
                packets: framed.packets,
                meta: None,
                version: None,
                failure: Some(ErrorKind::FileTooLong),
            }
        } else if !marker_present {
            self.give_up();
            Turn {
                action: Action::Watch,
                packets: framed.packets,
                meta: None,
                version: None,
                failure: None,
            }
        } else {
            let rest = copy_range(self.buffer.as_slice(), framed.consumed, self.buffer.len());
            assert(rest@ =~= self.buffer@.skip(framed.consumed as int));
            self.buffer = rest;
            self.offset = self.offset + grown;
            self.opened = true;
            Turn {
                action: Action::Poll { offset: self.offset, seconds: POLL_SECONDS },
                packets: framed.packets,
                meta: None,
                version: None,
                failure: None,
            }
        }
    }

    /// Takes the first read of the replay file of a battle.
    fn take_opening(&mut self, contents: &Vec<u8>, marker_present: bool) -> (turn: Turn)
        requires
            old(self)@.phase == Phase::InMatch,
        ensures
            turn_view(final(self)@, turn) == opened_turn(old(self)@, contents@, marker_present),
    {
        match ReplayFile::from_bytes(contents.as_slice()) {
            Err(e) => self.refuse(e),
            Ok(replay) => {
                let ReplayFile { meta, client_version, unknown: _, packet_data } = replay;
                match Version::parse(client_version.as_str()) {
                    None => self.refuse(ErrorKind::MetadataDecodeError),
                    Some(version) => {
                        let turn = self.take_stream(&packet_data, contents.len(), marker_present);
                        Turn {
                            action: turn.action,
                            packets: turn.packets,
                            meta: Some(meta),
                            version: Some(version),
                            failure: turn.failure,
                        }
                    },
                }
            },
        }
    }

    /// Takes what has just happened, and tells what to do next.
    pub fn step(&mut self, event: Event) -> (turn: Turn)
        ensures
            turn_view(final(self)@, turn) == turn_of(old(self)@, event),
    {
        match self.phase {
            Phase::Waiting => match event {
                Event::MarkerCreated => {
                    self.phase = Phase::InMatch;
                    self.opened = false;
                    self.offset = 0;
                    self.buffer = Vec::new();
                    LiveMonitor::quiet(Action::Open)
                },
                _ => {
                    self.give_up();
                    LiveMonitor::quiet(Action::Watch)
                },
            },
            Phase::InMatch => match event {
                Event::Opened { contents, marker_present } => {
                    if self.opened {
                        self.ask_again()
                    } else {
                        self.take_opening(&contents, marker_present)
                    }
                },
                Event::Read { bytes, marker_present } => {
                    if self.opened {
                        self.take_stream(&bytes, bytes.len(), marker_present)
                    } else {
                        self.ask_again()
                    }
                },
                Event::Failed => {
                    self.give_up();
                    LiveMonitor::quiet(Action::Watch)
                },
                _ => self.ask_again(),
            },
        }
    }
}

/// Whether a file of the replay directory is a leftover to be removed when
/// the monitor stops: one whose name ends in `.temp`. `extension` is the
/// extension of the file's name, if it has one.
pub fn is_leftover(extension: Option<&str>) -> (r: bool)
    ensures
        r == (extension matches Some(e) && e@ == "temp"@),
{
    match extension {
        Some(e) => same_text(e, "temp"),
        None => false,
    }
}

} // verus!
