//! Analyzers: what looks at the packets of a battle in their order and keeps
//! its own notes. The one of this library follows the chat.

use crate::decoder::{payload_decoded, DecodeError, DecodedPacket, DecodedPacketPayload, DecodedView};
use crate::packet::Packet;
use crate::roster::{player_views, texts_of, PlayerView, ReceivedPlayer};
use crate::version::Version;
use std::collections::HashMap;
use vstd::prelude::*;
use vstd::string::*;

verus! {

broadcast use vstd::std_specs::hash::group_hash_axioms;

/// A chat message with the name of its sender.
#[derive(Debug, Clone)]
pub struct ChatMessage {
    /// Seconds since the start of the battle: a 32-bit float, by its bit
    /// pattern.
    pub clock: u32,
    pub sender: String,
    pub audience: String,
    pub message: String,
}

/// The mathematical model of a chat message.
pub struct ChatMessageView {
    pub clock: u32,
    pub sender: Seq<char>,
    pub audience: Seq<char>,
    pub message: Seq<char>,
}

impl View for ChatMessage {
    type V = ChatMessageView;

    open spec fn view(&self) -> ChatMessageView {
        ChatMessageView {
            clock: self.clock,
            sender: self.sender@,
            audience: self.audience@,
            message: self.message@,
        }
    }
}

/// What an analyzer has to tell of one packet.
#[derive(Debug)]
pub enum Report {
    /// Nothing: the packet is no chat, or chat of a sender of whom no roster
    /// has told.
    Quiet,
    /// A chat message of a known sender.
    Chat(ChatMessage),
    /// Under audit: a note on a packet that deserves a look.
    Audit(String),
    /// The packet could not be decoded.
    Failed(DecodeError),
}

/// The mathematical model of a report.
pub enum ReportView {
    Quiet,
    Chat(ChatMessageView),
    Audit(Seq<char>),
    Failed(DecodeError),
}

impl View for Report {
    type V = ReportView;

    open spec fn view(&self) -> ReportView {
        match self {
            Report::Quiet => ReportView::Quiet,
            Report::Chat(m) => ReportView::Chat(m@),
            Report::Audit(t) => ReportView::Audit(t@),
            Report::Failed(e) => ReportView::Failed(*e),
        }
    }
}

impl Report {
    /// Whether the report ends the following of the battle: a packet that
    /// could not be decoded does.
    pub fn is_fatal(&self) -> (r: bool)
        ensures
            r == (self@ is Failed),
    {
        match self {
            Report::Failed(_) => true,
            _ => false,
        }
    }
}

/// The directory of a battle: the name of each player under the number that
/// chat names the player by.
pub type Directory = Map<i64, Seq<char>>;

/// The directory with the first `n` players of a roster entered: each under
/// its number, in place of whoever stood there.
pub open spec fn entered(directory: Directory, players: Seq<PlayerView>, n: nat) -> Directory
    decreases n,
{
    if n == 0 || n > players.len() {
        directory
    } else {
        entered(directory, players, (n - 1) as nat).insert(
            players[n - 1].playerid,
            players[n - 1].username,
        )
    }
}

/// The directory after a packet: with its players entered where it is a
/// roster, unchanged else.
pub open spec fn directory_after(directory: Directory, said: Result<DecodedView, DecodeError>)
    -> Directory {
    match said {
        Ok(DecodedView::OnArenaStateReceived { players, .. }) => entered(
            directory,
            players,
            players.len(),
        ),
        Ok(DecodedView::EntityInfo { players }) => entered(directory, players, players.len()),
        _ => directory,
    }
}

/// What there is to tell of a packet. Chat of a sender whom the directory
/// knows is told with the sender's name; chat of anyone else is dropped.
pub open spec fn report_of(directory: Directory, clock: u32, said: Result<DecodedView, DecodeError>)
    -> ReportView {
    match said {
        Err(e) => ReportView::Failed(e),
        Ok(DecodedView::Chat { sender_id, audience, message, .. }) => {
            if directory.contains_key(sender_id as i64) {
                ReportView::Chat(
                    ChatMessageView {
                        clock,
                        sender: directory[sender_id as i64],
                        audience,
                        message,
                    },
                )
            } else {
                ReportView::Quiet
            }
        },
        Ok(DecodedView::Audit(note)) => ReportView::Audit(note),
        Ok(_) => ReportView::Quiet,
    }
}

/// Entering players leaves everyone else as they were: a number that none
/// of the players has is known after them if and only if it was known before,
/// and by the same name.
pub proof fn lemma_entered_keeps_others(
    directory: Directory,
    players: Seq<PlayerView>,
    n: nat,
    number: i64,
)
    requires
        n <= players.len(),
        forall|j: int| 0 <= j < n ==> players[j].playerid != number,
    ensures
        entered(directory, players, n).contains_key(number) == directory.contains_key(number),
        entered(directory, players, n)[number] == directory[number],
    decreases n,
{
    if n > 0 {
        lemma_entered_keeps_others(directory, players, (n - 1) as nat, number);
    }
}

/// A player entered is known by its number, under the name that the last
/// player of that number has in the roster.
pub proof fn lemma_entered_knows_the_last(
    directory: Directory,
    players: Seq<PlayerView>,
    n: nat,
    i: int,
)
    requires
        0 <= i < n <= players.len(),
        forall|j: int| i < j < n ==> players[j].playerid != players[i].playerid,
    ensures
        entered(directory, players, n).contains_key(players[i].playerid),
        entered(directory, players, n)[players[i].playerid] == players[i].username,
    decreases n,
{
    if i < n - 1 {
        lemma_entered_knows_the_last(directory, players, (n - 1) as nat, i);
    }
}

/// The directory only grows: whoever is known before a packet is known after
/// it.
pub proof fn lemma_directory_only_grows(
    directory: Directory,
    said: Result<DecodedView, DecodeError>,
    number: i64,
)
    requires
        directory.contains_key(number),
    ensures
        directory_after(directory, said).contains_key(number),
{
    match said {
        Ok(DecodedView::OnArenaStateReceived { players, .. }) => {
            lemma_entered_only_grows(directory, players, players.len(), number);
        },
        Ok(DecodedView::EntityInfo { players }) => {
            lemma_entered_only_grows(directory, players, players.len(), number);
        },
        _ => {},
    }
}

/// Whoever is known before players are entered is known after.
proof fn lemma_entered_only_grows(
    directory: Directory,
    players: Seq<PlayerView>,
    n: nat,
    number: i64,
)
    requires
        n <= players.len(),
        directory.contains_key(number),
    ensures
        entered(directory, players, n).contains_key(number),
    decreases n,
{
    if n > 0 {
        lemma_entered_only_grows(directory, players, (n - 1) as nat, number);
    }
}

/// Chat that follows a roster is told with the name that the roster gives
/// its sender.
///
/// Let a roster list `players`, and let `sender_id` be the number of one of
/// them. After the roster, whatever the directory held before, a chat message
/// of that sender is told, with the name of the last player of that number in
/// the roster.
pub proof fn lemma_chat_after_its_roster(
    directory: Directory,
    players: Seq<PlayerView>,
    i: int,
    clock: u32,
    entity_id: u32,
    sender_id: i32,
    audience: Seq<char>,
    message: Seq<char>,
)
    requires
        0 <= i < players.len(),
        players[i].playerid == sender_id as i64,
        forall|j: int| i < j < players.len() ==> players[j].playerid != sender_id as i64,
    ensures
        report_of(
            directory_after(directory, Ok(DecodedView::EntityInfo { players })),
            clock,
            Ok(DecodedView::Chat { entity_id, sender_id, audience, message }),
        ) == ReportView::Chat(
            ChatMessageView { clock, sender: players[i].username, audience, message },
        ),
{
    lemma_entered_knows_the_last(directory, players, players.len(), i);
}

/// Chat of a sender of whom no roster has told is dropped: nothing is told,
/// and the directory stays as it is.
pub proof fn lemma_chat_without_a_roster(
    directory: Directory,
    clock: u32,
    entity_id: u32,
    sender_id: i32,
    audience: Seq<char>,
    message: Seq<char>,
)
    requires
        !directory.contains_key(sender_id as i64),
    ensures
        report_of(
            directory,
            clock,
            Ok(DecodedView::Chat { entity_id, sender_id, audience, message }),
        ) == ReportView::Quiet,
        directory_after(
            directory,
            Ok(DecodedView::Chat { entity_id, sender_id, audience, message }),
        ) == directory,
{
}

/// A note does not end the chat. After a roster, a chat message of one of
/// its players is told with the player's name; a note that follows is told as
/// a note and changes nothing; and a chat message of the same player behind
/// the note is told with the same name.
///
/// `players` is the roster and `sender_id` the number of its player `i`, the
/// last of that number; `first` and `second` are the texts of the two chat
/// messages, and `note` is the note between them.
pub proof fn lemma_chat_goes_on_after_a_note(
    directory: Directory,
    players: Seq<PlayerView>,
    i: int,
    sender_id: i32,
    clock: u32,
    first: Seq<char>,
    note: Seq<char>,
    second: Seq<char>,
    audience: Seq<char>,
)
    requires
        0 <= i < players.len(),
        players[i].playerid == sender_id as i64,
        forall|j: int| i < j < players.len() ==> players[j].playerid != sender_id as i64,
    ensures
        ({
            let roster: Result<DecodedView, DecodeError> = Ok(DecodedView::EntityInfo { players });
            let hi: Result<DecodedView, DecodeError> = Ok(
                DecodedView::Chat { entity_id: 0, sender_id, audience, message: first },
            );
            let odd: Result<DecodedView, DecodeError> = Ok(DecodedView::Audit(note));
            let bye: Result<DecodedView, DecodeError> = Ok(
                DecodedView::Chat { entity_id: 0, sender_id, audience, message: second },
            );
            let known = directory_after(directory, roster);
            &&& report_of(directory, clock, roster) == ReportView::Quiet
            &&& report_of(known, clock, hi) == ReportView::Chat(
                ChatMessageView { clock, sender: players[i].username, audience, message: first },
            )
            &&& directory_after(known, hi) == known
            &&& report_of(known, clock, odd) == ReportView::Audit(note)
            &&& directory_after(known, odd) == known
            &&& report_of(known, clock, bye) == ReportView::Chat(
                ChatMessageView { clock, sender: players[i].username, audience, message: second },
            )
        }),
{
    lemma_entered_knows_the_last(directory, players, players.len(), i);
}

/// What looks at the packets of a battle in their order.
///
/// An analyzer has a state of its own. Each packet takes the state to the
/// next and gives a report; both depend on the state before and on the
/// packet alone.
pub trait Analyzer: Sized {
    /// The state of the analyzer.
    type State;

    /// The state that the analyzer is in.
    spec fn state(&self) -> Self::State;

    /// The state after a packet.
    spec fn state_after(state: Self::State, packet: Packet) -> Self::State;

    /// The report on a packet.
    spec fn report_on(state: Self::State, packet: Packet) -> ReportView;

    /// Takes the next packet of the battle.
    fn process(&mut self, packet: &Packet) -> (report: Report)
        ensures
            final(self).state() == Self::state_after(old(self).state(), *packet),
            report@ == Self::report_on(old(self).state(), *packet),
    ;

    /// Ends the battle: no packet follows. The state stays as it is.
    fn finish(&self);
}

/// What following a run of packets gives.
#[derive(Debug)]
pub struct Followed {
    /// The reports on the packets that were looked at, in their order.
    pub reports: Vec<Report>,
    /// Whether a packet could not be decoded. It is the last one looked at;
    /// the packets behind it were left.
    pub failed: bool,
}

/// The mathematical model of what following a run of packets gives, with the
/// state of the analyzer after it.
pub struct FollowedView<S> {
    pub state: S,
    pub reports: Seq<ReportView>,
    pub failed: bool,
}

/// What following the first `n` packets of a run gives, from a state on.
///
/// The packets are looked at in their order, each in the state that the one
/// before it left. A packet that cannot be decoded ends it: its report is the
/// last, and the packets behind it are not looked at. Under audit no packet
/// does, since what cannot be decoded becomes a note.
pub open spec fn followed<A: Analyzer>(state: A::State, packets: Seq<Packet>, n: nat)
    -> FollowedView<A::State>
    decreases n,
{
    if n == 0 || n > packets.len() {
        FollowedView { state, reports: Seq::empty(), failed: false }
    } else {
        let before = followed::<A>(state, packets, (n - 1) as nat);
        if before.failed {
            before
        } else {
            let report = A::report_on(before.state, packets[n - 1]);
            FollowedView {
                state: A::state_after(before.state, packets[n - 1]),
                reports: before.reports.push(report),
                failed: report is Failed,
            }
        }
    }
}

/// Once a packet could not be decoded, more packets change nothing.
proof fn lemma_followed_stays<A: Analyzer>(state: A::State, packets: Seq<Packet>, n: nat, m: nat)
    requires
        n <= m <= packets.len(),
        followed::<A>(state, packets, n).failed,
    ensures
        followed::<A>(state, packets, m) == followed::<A>(state, packets, n),
    decreases m,
{
    if n < m {
        lemma_followed_stays::<A>(state, packets, n, (m - 1) as nat);
    }
}

/// Hands a run of packets to an analyzer, in their order, up to the first
/// that cannot be decoded.
pub fn follow<A: Analyzer>(analyzer: &mut A, packets: &Vec<Packet>) -> (r: Followed)
    ensures
        final(analyzer).state() == followed::<A>(
            old(analyzer).state(),
            packets@,
            packets@.len(),
        ).state,
        report_views(r.reports@) == followed::<A>(
            old(analyzer).state(),
            packets@,
            packets@.len(),
        ).reports,
        r.failed == followed::<A>(old(analyzer).state(), packets@, packets@.len()).failed,
{
    let mut reports: Vec<Report> = Vec::new();
    let mut i: usize = 0;
    assert(report_views(reports@) =~= Seq::empty());
    while i < packets.len()
        invariant
            i <= packets@.len(),
            analyzer.state() == followed::<A>(old(analyzer).state(), packets@, i as nat).state,
            report_views(reports@) == followed::<A>(
                old(analyzer).state(),
                packets@,
                i as nat,
            ).reports,
            !followed::<A>(old(analyzer).state(), packets@, i as nat).failed,
        decreases packets@.len() - i,
    {
        let ghost before = report_views(reports@);
        let report = analyzer.process(&packets[i]);
        let failed = report.is_fatal();
        reports.push(report);
        assert(report_views(reports@) =~= before.push(report@));
        i += 1;
        if failed {
            proof {
                lemma_followed_stays::<A>(
                    old(analyzer).state(),
                    packets@,
                    i as nat,
                    packets@.len(),
                );
            }
            return Followed { reports, failed: true };
        }
    }
    Followed { reports, failed: false }
}

/// Under audit every packet of a run is looked at: none ends the run.
pub proof fn lemma_audit_follows_to_the_end(
    state: ChatLoggerState,
    packets: Seq<Packet>,
    n: nat,
)
    requires
        state.audit,
        n <= packets.len(),
    ensures
        !followed::<ChatLogger>(state, packets, n).failed,
        followed::<ChatLogger>(state, packets, n).reports.len() == n,
        followed::<ChatLogger>(state, packets, n).state.audit,
    decreases n,
{
    if n > 0 {
        lemma_audit_follows_to_the_end(state, packets, (n - 1) as nat);
    }
}

/// The models of a run of reports.
pub open spec fn report_views(reports: Seq<Report>) -> Seq<ReportView> {
    Seq::new(reports.len(), |i: int| reports[i]@)
}

/// Analyzers that look at the same packets side by side, each with a state
/// of its own.
///
/// Each packet goes to every analyzer, in their order. Each analyzer goes
/// from its own state to its own next one, as it would alone: none sees what
/// another keeps. The reports come in the order of the analyzers.
pub trait AnalyzerSet: Sized {
    /// The states of the analyzers.
    type States;

    /// The states that the analyzers are in.
    spec fn states(&self) -> Self::States;

    /// The states after a packet.
    spec fn states_after(states: Self::States, packet: Packet) -> Self::States;

    /// The reports on a packet, in the order of the analyzers.
    spec fn reports_on(states: Self::States, packet: Packet) -> Seq<ReportView>;

    /// Hands the next packet of the battle to every analyzer.
    fn process(&mut self, packet: &Packet) -> (reports: Vec<Report>)
        ensures
            final(self).states() == Self::states_after(old(self).states(), *packet),
            report_views(reports@) == Self::reports_on(old(self).states(), *packet),
    ;

    /// Ends the battle for every analyzer. The states stay as they are.
    fn finish(&self);
}

/// Analyzers of one kind, side by side.
pub struct AnalyzerAdapter<A: Analyzer> {
    analyzers: Vec<A>,
}

impl<A: Analyzer> AnalyzerAdapter<A> {
    /// Sets analyzers of one kind side by side.
    pub fn new(analyzers: Vec<A>) -> (r: AnalyzerAdapter<A>)
        ensures
            r.states() == Seq::new(analyzers@.len(), |i: int| analyzers@[i].state()),
    {
        AnalyzerAdapter { analyzers }
    }
}

impl<A: Analyzer> AnalyzerSet for AnalyzerAdapter<A> {
    type States = Seq<A::State>;

    closed spec fn states(&self) -> Seq<A::State> {
        Seq::new(self.analyzers@.len(), |i: int| self.analyzers@[i].state())
    }

    open spec fn states_after(states: Seq<A::State>, packet: Packet) -> Seq<A::State> {
        Seq::new(states.len(), |i: int| A::state_after(states[i], packet))
    }

    open spec fn reports_on(states: Seq<A::State>, packet: Packet) -> Seq<ReportView> {
        Seq::new(states.len(), |i: int| A::report_on(states[i], packet))
    }

    fn process(&mut self, packet: &Packet) -> (reports: Vec<Report>) {
        let mut reports: Vec<Report> = Vec::new();
        let mut i: usize = 0;
        while i < self.analyzers.len()
            invariant
                i <= self.analyzers@.len(),
                self.analyzers@.len() == old(self).analyzers@.len(),
                reports@.len() == i,
                forall|j: int|
                    0 <= j < i ==> (#[trigger] self.analyzers@[j]).state() == A::state_after(
                        old(self).analyzers@[j].state(),
                        *packet,
                    ),
                forall|j: int|
                    i <= j < self.analyzers@.len() ==> #[trigger] self.analyzers@[j] == old(
                        self,
                    ).analyzers@[j],
                forall|j: int|
                    0 <= j < i ==> (#[trigger] reports@[j])@ == A::report_on(
                        old(self).analyzers@[j].state(),
                        *packet,
                    ),
            decreases self.analyzers@.len() - i,
        {
            let report = self.analyzers[i].process(packet);
            reports.push(report);
            i += 1;
        }
        proof {
            assert(self.states() =~= Self::states_after(old(self).states(), *packet));
            assert(report_views(reports@) =~= Self::reports_on(old(self).states(), *packet));
        }
        reports
    }

    fn finish(&self) {
        let mut i: usize = 0;
        while i < self.analyzers.len()
            invariant
                i <= self.analyzers@.len(),
            decreases self.analyzers@.len() - i,
        {
            self.analyzers[i].finish();
            i += 1;
        }
    }
}

/// An analyzer with further analyzers behind it, of whatever kinds: the way
/// to set analyzers of different kinds side by side.
pub struct Chained<A: Analyzer, S: AnalyzerSet> {
    pub first: A,
    pub rest: S,
}

impl<A: Analyzer, S: AnalyzerSet> Chained<A, S> {
    /// Sets an analyzer before others.
    pub fn new(first: A, rest: S) -> (r: Chained<A, S>)
        ensures
            r.first == first,
            r.rest == rest,
    {
        Chained { first, rest }
    }
}

impl<A: Analyzer, S: AnalyzerSet> AnalyzerSet for Chained<A, S> {
    type States = (A::State, S::States);

    open spec fn states(&self) -> (A::State, S::States) {
        (self.first.state(), self.rest.states())
    }

    open spec fn states_after(states: (A::State, S::States), packet: Packet) -> (
        A::State,
        S::States,
    ) {
        (A::state_after(states.0, packet), S::states_after(states.1, packet))
    }

    open spec fn reports_on(states: (A::State, S::States), packet: Packet) -> Seq<ReportView> {
        seq![A::report_on(states.0, packet)] + S::reports_on(states.1, packet)
    }

    fn process(&mut self, packet: &Packet) -> (reports: Vec<Report>) {
        let report = self.first.process(packet);
        let mut behind = self.rest.process(packet);
        let ghost told = behind@;
        let mut reports: Vec<Report> = Vec::new();
        reports.push(report);
        reports.append(&mut behind);
        proof {
            assert(reports@ =~= seq![report] + told);
            assert(report_views(reports@) =~= seq![report@] + report_views(told));
        }
        reports
    }

    fn finish(&self) {
        self.first.finish();
        self.rest.finish();
    }
}

/// Makes the analyzer that follows the chat.
#[derive(Debug, Clone, Copy)]
pub struct ChatLoggerBuilder {
    audit: bool,
}

/// Follows the chat: keeps the directory of the battle and tells each chat
/// message with the name of its sender.
#[derive(Debug)]
pub struct ChatLogger {
    usernames: HashMap<i64, String>,
    version: Version,
    audit: bool,
}

/// The state of a chat logger: the directory, and how it decodes.
pub struct ChatLoggerState {
    pub directory: Directory,
    pub version: Version,
    pub audit: bool,
}

impl ChatLoggerBuilder {
    /// Whether the analyzers made will decode under audit.
    pub closed spec fn audits(self) -> bool {
        self.audit
    }

    /// A builder of chat loggers that do not decode under audit: a packet
    /// that cannot be decoded is reported as failed.
    pub fn new() -> (r: ChatLoggerBuilder)
        ensures
            !r.audits(),
    {
        ChatLoggerBuilder { audit: false }
    }

    /// A builder of chat loggers that decode under audit, or not.
    pub fn with_audit(audit: bool) -> (r: ChatLoggerBuilder)
        ensures
            r.audits() == audit,
    {
        ChatLoggerBuilder { audit }
    }

    /// A chat logger for one battle of the given version, with an empty
    /// directory.
    pub fn build(&self, version: Version) -> (r: ChatLogger)
        ensures
            r.state() == (ChatLoggerState {
                directory: Map::empty(),
                version,
                audit: self.audits(),
            }),
    {
        let logger = ChatLogger { usernames: HashMap::new(), version, audit: self.audit };
        assert(texts_of(logger.usernames@) =~= Map::empty());
        logger
    }
}

impl ChatLogger {
    /// Enters the players of a roster into the directory.
    fn enter(&mut self, players: &Vec<ReceivedPlayer>)
        ensures
            texts_of(final(self).usernames@) == entered(
                texts_of(old(self).usernames@),
                player_views(players@),
                players@.len(),
            ),
            final(self).version == old(self).version,
            final(self).audit == old(self).audit,
    {
        let ghost views = player_views(players@);
        let ghost start = texts_of(self.usernames@);
        let mut i: usize = 0;
        while i < players.len()
            invariant
                i <= players.len(),
                views == player_views(players@),
                texts_of(self.usernames@) == entered(start, views, i as nat),
                self.version == old(self).version,
                self.audit == old(self).audit,
            decreases players.len() - i,
        {
            let ghost before = texts_of(self.usernames@);
            self.usernames.insert(players[i].playerid, players[i].username.clone());
            assert(texts_of(self.usernames@) =~= before.insert(
                players[i as int].playerid,
                players[i as int].username@,
            ));
            i += 1;
        }
    }

    /// The name under which the directory knows a sender.
    pub fn sender_name(&self, sender_id: i32) -> (r: Option<String>)
        ensures
            match r {
                Some(name) => self.state().directory.contains_key(sender_id as i64) && name@
                    == self.state().directory[sender_id as i64],
                None => !self.state().directory.contains_key(sender_id as i64),
            },
    {
        match self.usernames.get(&(sender_id as i64)) {
            Some(name) => Some(name.clone()),
            None => None,
        }
    }
}

/// Under audit a packet that cannot be decoded is a note and nothing more:
/// the chat logger tells the note and stays in its state, so the packets
/// behind it are looked at as if it had not been there.
pub proof fn lemma_audit_keeps_the_stream_going(state: ChatLoggerState, packet: Packet)
    requires
        state.audit,
        payload_decoded(false, packet.payload, packet.packet_type) is Err,
    ensures
        ChatLogger::report_on(state, packet) is Audit,
        ChatLogger::state_after(state, packet) == state,
{
}

impl Analyzer for ChatLogger {
    type State = ChatLoggerState;

    closed spec fn state(&self) -> ChatLoggerState {
        ChatLoggerState {
            directory: texts_of(self.usernames@),
            version: self.version,
            audit: self.audit,
        }
    }

    open spec fn state_after(state: ChatLoggerState, packet: Packet) -> ChatLoggerState {
        ChatLoggerState {
            directory: directory_after(
                state.directory,
                payload_decoded(state.audit, packet.payload, packet.packet_type),
            ),
            version: state.version,
            audit: state.audit,
        }
    }

    open spec fn report_on(state: ChatLoggerState, packet: Packet) -> ReportView {
        report_of(
            state.directory,
            packet.clock,
            payload_decoded(state.audit, packet.payload, packet.packet_type),
        )
    }

    /// Takes the next packet of the battle. A roster enters its players into
    /// the directory, each under its number and in place of whoever stood
    /// there. A chat message is told if the directory knows its sender, and
    /// dropped if not. Nothing else changes the directory or is told, but
    /// for the notes of a decoding under audit and for a failure to decode.
    fn process(&mut self, packet: &Packet) -> (report: Report) {
        match DecodedPacket::from(&self.version, self.audit, packet) {
            Err(e) => Report::Failed(e),
            Ok(decoded) => match decoded.payload {
                DecodedPacketPayload::Chat { sender_id, audience, message, .. } => {
                    match self.sender_name(sender_id) {
                        Some(sender) => Report::Chat(
                            ChatMessage {
                                clock: decoded.clock,
                                sender,
                                audience: String::from_str(audience),
                                message: String::from_str(message),
                            },
                        ),
                        None => Report::Quiet,
                    }
                },
                DecodedPacketPayload::OnArenaStateReceived { players, .. } => {
                    self.enter(&players);
                    Report::Quiet
                },
                DecodedPacketPayload::EntityInfo { players } => {
                    self.enter(&players);
                    Report::Quiet
                },
                DecodedPacketPayload::Audit(note) => Report::Audit(note),
                _ => Report::Quiet,
            },
        }
    }

    fn finish(&self) {
    }
}

} // verus!
