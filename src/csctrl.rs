//! The supervisor: owns the authoritative per-server state, routes UI
//! commands, applies ingested log batches and worker status reports, and
//! tells the UI when its snapshot is stale.
use vstd::prelude::*;
use crate::classifier::{
    classify_line, regex_compiles, EventView, LogClassifier, LogEvent, PLAYER_SAY_PATTERN, PLAYER_SWITCH_TEAM_PATTERN,
};
use crate::commands::{
    CsctrlGenerateMatch, CsctrlGenerateServer, Rcon, ServerMatchSetupLoad, ServerMatchStart, TerminalServerSelect,
    generate_match_outcome, generate_server_outcome, match_setup_load_outcome, match_start_outcome, rcon_outcome,
    server_select_outcome,
};
use crate::frames::{command_frame, lemma_command_frame_round_trip, lemma_record_round_trip, parse_command_frame, parse_record, record, sep};
use crate::log_events::{
    ct_after_say, ct_after_switch, player_say, player_switch_team, t_after_say, t_after_switch,
};
use crate::text::{
    chars_of, contains, find_from, join_from, join_words, lines, matches_at, occurs_at, slice_chars, split_lines,
    split_words, str_eq, string_of, string_views, views, words,
};
use crate::types::{
    address_position, lemma_address_position, status_named, CsctrlConfig, CsctrlDataParent, CsctrlDataServer,
    CsctrlMatchStatus, CsctrlServerSetup, MatchSetup, PlayerView, MAX_LOG_LINES,
};

verus! {

/// The text a worker's follow-up command echoes back; a log line holding it
/// ends the batch it is in.
pub const TERMINATING_MARKER: &'static str = "CsctrlTerminatingRconCommand";

/// What starts a worker's status report.
pub const MATCH_STATUS_PREFIX: &'static str = "CsctrlMatchStatus:";

/// Work the supervisor hands to its surroundings.
pub enum CsctrlAction {
    /// Put `message` in the mailbox of the worker at `address`.
    SendToWorker { address: String, message: String },
    /// Read `matches/<file_name>.json` and put its text in the mailbox of the
    /// worker at `address`.
    SendMatchSetupFile { address: String, file_name: String },
    /// Write a blank match setup to `matches/<file_name>`, unless that file exists.
    CreateMatchSetupFile { file_name: String },
    /// Persist the configuration.
    WriteConfig,
    /// Make `address` the UI's selected server.
    SelectServer { address: String },
}

pub enum CsctrlError {
    /// A command frame without its two separators.
    MalformedFrame,
    UnknownCommand { name: String },
    UnknownServer { address: String },
    WrongArgumentCount { expected: usize, given: usize },
    /// A configured address that is already registered.
    DuplicateServer { address: String },
}

pub enum ActionView {
    SendToWorker { address: Seq<char>, message: Seq<char> },
    SendMatchSetupFile { address: Seq<char>, file_name: Seq<char> },
    CreateMatchSetupFile { file_name: Seq<char> },
    WriteConfig,
    SelectServer { address: Seq<char> },
}

pub enum ErrorView {
    MalformedFrame,
    UnknownCommand { name: Seq<char> },
    UnknownServer { address: Seq<char> },
    WrongArgumentCount { expected: nat, given: nat },
    DuplicateServer { address: Seq<char> },
}

impl View for CsctrlAction {
    type V = ActionView;

    open spec fn view(&self) -> ActionView {
        match self {
            CsctrlAction::SendToWorker { address, message } => ActionView::SendToWorker {
                address: address@,
                message: message@,
            },
            CsctrlAction::SendMatchSetupFile { address, file_name } => ActionView::SendMatchSetupFile {
                address: address@,
                file_name: file_name@,
            },
            CsctrlAction::CreateMatchSetupFile { file_name } => ActionView::CreateMatchSetupFile { file_name: file_name@ },
            CsctrlAction::WriteConfig => ActionView::WriteConfig,
            CsctrlAction::SelectServer { address } => ActionView::SelectServer { address: address@ },
        }
    }
}

impl View for CsctrlError {
    type V = ErrorView;

    open spec fn view(&self) -> ErrorView {
        match self {
            CsctrlError::MalformedFrame => ErrorView::MalformedFrame,
            CsctrlError::UnknownCommand { name } => ErrorView::UnknownCommand { name: name@ },
            CsctrlError::UnknownServer { address } => ErrorView::UnknownServer { address: address@ },
            CsctrlError::WrongArgumentCount { expected, given } => ErrorView::WrongArgumentCount {
                expected: *expected as nat,
                given: *given as nat,
            },
            CsctrlError::DuplicateServer { address } => ErrorView::DuplicateServer { address: address@ },
        }
    }
}

/// The view of a command's outcome.
pub open spec fn outcome_view(r: Result<CsctrlAction, CsctrlError>) -> Result<ActionView, ErrorView> {
    match r {
        Ok(a) => Ok(a@),
        Err(e) => Err(e@),
    }
}

/// The outcome of the command `name` with `args` aimed at `target`.
pub open spec fn dispatch(data: CsctrlDataParent, target: Seq<char>, name: Seq<char>, args: Seq<char>) -> Result<
    ActionView,
    ErrorView,
> {
    if name == "rcon"@ {
        rcon_outcome(data, target, args)
    } else if name == "csctrl.generate.server"@ {
        generate_server_outcome(args)
    } else if name == "csctrl.generate.match"@ {
        generate_match_outcome(args)
    } else if name == "terminal.server.select"@ {
        server_select_outcome(data, args)
    } else if name == "server.match.setup.load"@ {
        match_setup_load_outcome(data, target, args)
    } else if name == "server.match.start"@ {
        match_start_outcome(data, target)
    } else {
        Err(ErrorView::UnknownCommand { name })
    }
}

/// The outcome of a UI command frame: its text's first word names the
/// command, the other words joined by single spaces are its arguments.
pub open spec fn command_outcome(data: CsctrlDataParent, frame: Seq<char>) -> Result<ActionView, ErrorView> {
    match command_frame(frame) {
        None => Err(ErrorView::MalformedFrame),
        Some((target, text)) => {
            let ws = words(text);
            if ws.len() == 0 {
                Err(ErrorView::UnknownCommand { name: Seq::empty() })
            } else {
                dispatch(data, target, ws[0], join_words(ws.subrange(1, ws.len() as int)))
            }
        },
    }
}

/// An `rcon` command typed with a registered server selected yields one
/// action: the message `rcon <arguments>` for that server's worker, and for
/// no other.
pub proof fn lemma_rcon_relay(data: CsctrlDataParent, address: Seq<char>, text: Seq<char>)
    requires
        !contains(address, sep()),
        data.index_of(address) is Some,
        words(text).len() > 0,
        words(text)[0] == "rcon"@,
    ensures
        command_outcome(data, sep() + address + sep() + text) == Ok::<ActionView, ErrorView>(
            ActionView::SendToWorker {
                address,
                message: "rcon "@ + join_words(words(text).subrange(1, words(text).len() as int)),
            },
        ),
{
    lemma_command_frame_round_trip(address, text);
}

/// Whether a UI command frame adds a server to the configuration, and the
/// words naming it.
pub open spec fn added_server(frame: Seq<char>) -> Option<Seq<Seq<char>>> {
    match command_frame(frame) {
        None => None,
        Some((target, text)) => {
            let ws = words(text);
            if ws.len() > 0 && ws[0] == "csctrl.generate.server"@ {
                let args = words(join_words(ws.subrange(1, ws.len() as int)));
                if args.len() == 3 {
                    Some(args)
                } else {
                    None
                }
            } else {
                None
            }
        },
    }
}

/// The index of the first line holding the terminating marker at or after
/// `from`, or the number of lines.
pub open spec fn marker_line(ls: Seq<Seq<char>>, from: int) -> int
    decreases ls.len() - from,
{
    if from < 0 || from >= ls.len() {
        ls.len() as int
    } else if contains(ls[from], TERMINATING_MARKER@) {
        from
    } else {
        marker_line(ls, from + 1)
    }
}

proof fn lemma_marker_line_bound(ls: Seq<Seq<char>>, from: int)
    requires
        0 <= from,
    ensures
        marker_line(ls, from) <= ls.len(),
        from <= ls.len() ==> from <= marker_line(ls, from),
    decreases ls.len() - from,
{
    if from < ls.len() && !contains(ls[from], TERMINATING_MARKER@) {
        lemma_marker_line_bound(ls, from + 1);
    }
}

/// The lines of a batch body that are applied: those before the first line
/// holding the terminating marker.
pub open spec fn accepted_lines(body: Seq<char>) -> Seq<Seq<char>> {
    let ls = lines(body);
    ls.subrange(0, marker_line(ls, 0))
}

proof fn lemma_marker_line_first(ls: Seq<Seq<char>>, from: int, k: int)
    requires
        0 <= from <= k < ls.len(),
        contains(ls[k], TERMINATING_MARKER@),
        forall|j: int| from <= j < k ==> !contains(#[trigger] ls[j], TERMINATING_MARKER@),
    ensures
        marker_line(ls, from) == k,
    decreases k - from,
{
    if from < k {
        lemma_marker_line_first(ls, from + 1, k);
    }
}

/// A batch is cut at its first line that holds the terminating marker:
/// exactly the lines before it are applied.
pub proof fn lemma_batch_cut_at_marker(body: Seq<char>, k: int)
    requires
        0 <= k < lines(body).len(),
        contains(lines(body)[k], TERMINATING_MARKER@),
        forall|j: int| 0 <= j < k ==> !contains(#[trigger] lines(body)[j], TERMINATING_MARKER@),
    ensures
        accepted_lines(body) == lines(body).subrange(0, k),
{
    lemma_marker_line_first(lines(body), 0, k);
}

/// Both rosters after one log line.
pub open spec fn rosters_after_line(ct: Seq<PlayerView>, t: Seq<PlayerView>, line: Seq<char>) -> (
    Seq<PlayerView>,
    Seq<PlayerView>,
) {
    match classify_line(line) {
        EventView::PlayerSay { steam_id, chat, .. } => (
            ct_after_say(ct, t, steam_id, chat),
            t_after_say(ct, t, steam_id, chat),
        ),
        EventView::PlayerSwitchTeam { username, steam_id, team_to, .. } => (
            ct_after_switch(ct, t, username, steam_id, team_to),
            t_after_switch(ct, t, username, steam_id, team_to),
        ),
        EventView::Unclassified => (ct, t),
    }
}

/// Both rosters after the lines, in order.
pub open spec fn rosters_after_lines(ct: Seq<PlayerView>, t: Seq<PlayerView>, ls: Seq<Seq<char>>) -> (
    Seq<PlayerView>,
    Seq<PlayerView>,
)
    decreases ls.len(),
{
    if ls.len() == 0 {
        (ct, t)
    } else {
        let (c1, t1) = rosters_after_line(ct, t, ls[0]);
        rosters_after_lines(c1, t1, ls.drop_first())
    }
}

/// The kept log after one more line: the oldest line goes once the log is full.
pub open spec fn log_after_line(log: Seq<Seq<char>>, line: Seq<char>) -> Seq<Seq<char>> {
    if log.len() >= MAX_LOG_LINES {
        log.drop_first().push(line)
    } else {
        log.push(line)
    }
}

/// The kept log after the lines, in order.
pub open spec fn log_after_lines(log: Seq<Seq<char>>, ls: Seq<Seq<char>>) -> Seq<Seq<char>>
    decreases ls.len(),
{
    if ls.len() == 0 {
        log
    } else {
        log_after_lines(log_after_line(log, ls[0]), ls.drop_first())
    }
}

/// The server and status named by a worker's report, if it is one and names
/// a real status.
pub open spec fn status_report(message: Seq<char>) -> Option<(Seq<char>, CsctrlMatchStatus)> {
    match record(message) {
        Some((address, payload)) => {
            let n = MATCH_STATUS_PREFIX@.len() as int;
            if occurs_at(payload, MATCH_STATUS_PREFIX@, 0) && status_named(payload.subrange(n, payload.len() as int))
                != CsctrlMatchStatus::Invalid {
                Some((address, status_named(payload.subrange(n, payload.len() as int))))
            } else {
                None
            }
        },
        None => None,
    }
}

/// A worker's report whose status name is not a real status changes no
/// server: the state after it is the state before.
pub proof fn lemma_invalid_status_ignored(
    d0: CsctrlDataParent,
    address: Seq<char>,
    name: Seq<char>,
    d1: CsctrlDataParent,
)
    requires
        !contains(address, sep()),
        status_named(name) == CsctrlMatchStatus::Invalid,
        status_effect(d0, address + sep() + (MATCH_STATUS_PREFIX@ + name), d1),
    ensures
        d1 == d0,
        !status_touches(d0, address + sep() + (MATCH_STATUS_PREFIX@ + name)),
{
    let payload = MATCH_STATUS_PREFIX@ + name;
    lemma_record_round_trip(address, payload);
    let n = MATCH_STATUS_PREFIX@.len() as int;
    assert(payload.subrange(n, payload.len() as int) =~= name);
}

/// Whether two server lists hold the same addresses in the same order.
pub open spec fn same_addresses(a: Seq<CsctrlDataServer>, b: Seq<CsctrlDataServer>) -> bool {
    &&& a.len() == b.len()
    &&& forall|i: int| 0 <= i < a.len() ==> #[trigger] a[i].config.address@ == b[i].config.address@
}

pub proof fn lemma_same_addresses(a: Seq<CsctrlDataServer>, b: Seq<CsctrlDataServer>, address: Seq<char>, from: int)
    requires
        same_addresses(a, b),
    ensures
        address_position(a, address, from) == address_position(b, address, from),
    decreases a.len() - from,
{
    if 0 <= from < a.len() {
        lemma_same_addresses(a, b, address, from + 1);
    }
}

/// Whether a server holds what registration gives it.
pub open spec fn is_fresh(s: CsctrlDataServer, config: CsctrlServerSetup, match_setup: MatchSetup) -> bool {
    &&& s.wf()
    &&& s.config == config
    &&& s.match_setup == match_setup
    &&& !s.is_online
    &&& s.team_ct.roster().len() == 0
    &&& s.team_t.roster().len() == 0
    &&& s.team_ct.score == 0
    &&& s.team_t.score == 0
    &&& s.team_ct.name@.len() == 0
    &&& s.team_t.name@.len() == 0
    &&& s.status == CsctrlMatchStatus::NoHook
    &&& s.player_ready_amount == 0
    &&& s.logs@.len() == 0
}

/// Positions of the setups whose address no earlier setup has.
pub open spec fn first_of_each_address(setups: Seq<CsctrlServerSetup>) -> Seq<int>
    decreases setups.len(),
{
    if setups.len() == 0 {
        Seq::empty()
    } else {
        let before = first_of_each_address(setups.drop_last());
        if is_first_address(setups, setups.len() - 1) {
            before.push(setups.len() - 1)
        } else {
            before
        }
    }
}

/// Whether no setup before `k` has the address of setup `k`.
pub open spec fn is_first_address(setups: Seq<CsctrlServerSetup>, k: int) -> bool {
    forall|j: int| 0 <= j < k ==> setups[j].address@ != setups[k].address@
}

/// Whether a server is registered under this address.
pub open spec fn registered_address(ss: Seq<CsctrlDataServer>, a: Seq<char>) -> bool {
    exists|i: int| 0 <= i < ss.len() && ss[i].config.address@ == a
}

/// Whether one of the first `k` setups has this address.
pub open spec fn configured_before(setups: Seq<CsctrlServerSetup>, k: int, a: Seq<char>) -> bool {
    exists|j: int| 0 <= j < k && setups[j].address@ == a
}

/// The views of a log.
pub open spec fn log_view(logs: Vec<String>) -> Seq<Seq<char>> {
    string_views(logs@)
}

/// The server a batch record is for, with the batch's body.
pub open spec fn weblog_target(data: CsctrlDataParent, rec: Seq<char>) -> Option<(int, Seq<char>)> {
    match record(rec) {
        Some((a, body)) => match data.index_of(a) {
            Some(k) => Some((k, body)),
            None => None,
        },
        None => None,
    }
}

/// Whether a batch record applies at least one line.
pub open spec fn weblog_touches(data: CsctrlDataParent, rec: Seq<char>) -> bool {
    weblog_target(data, rec) matches Some((k, body)) && accepted_lines(body).len() > 0
}

/// Whether a worker's report writes a status.
pub open spec fn status_touches(data: CsctrlDataParent, message: Seq<char>) -> bool {
    status_report(message) matches Some((a, st)) && data.index_of(a) is Some
}

/// How a batch record changes the servers: see `Csctrl::process_weblog`.
pub open spec fn weblog_effect(d0: CsctrlDataParent, rec: Seq<char>, d1: CsctrlDataParent) -> bool {
    &&& same_addresses(d1.servers@, d0.servers@)
    &&& weblog_target(d0, rec) is None ==> d1 == d0
    &&& weblog_target(d0, rec) matches Some((k, body)) ==> ({
        let ls = accepted_lines(body);
        let s0 = d0.servers@[k];
        let s1 = d1.servers@[k];
        &&& d1.servers@.len() == d0.servers@.len()
        &&& forall|i: int| 0 <= i < d0.servers@.len() && i != k ==> d1.servers@[i] == d0.servers@[i]
        &&& (s1.team_ct.roster(), s1.team_t.roster()) == rosters_after_lines(
            s0.team_ct.roster(),
            s0.team_t.roster(),
            ls,
        )
        &&& log_view(s1.logs) == log_after_lines(log_view(s0.logs), ls)
        &&& s1.is_online == (s0.is_online || ls.len() > 0)
        &&& s1.config == s0.config
        &&& s1.status == s0.status
        &&& s1.match_setup == s0.match_setup
    })
}

/// How a worker's report changes the servers: see `Csctrl::process_server_message`.
pub open spec fn status_effect(d0: CsctrlDataParent, message: Seq<char>, d1: CsctrlDataParent) -> bool {
    &&& same_addresses(d1.servers@, d0.servers@)
    &&& !status_touches(d0, message) ==> d1 == d0
    &&& status_touches(d0, message) ==> ({
        let (a, st) = status_report(message)->0;
        let k = d0.index_of(a)->0;
        &&& d1.servers@.len() == d0.servers@.len()
        &&& forall|i: int| 0 <= i < d0.servers@.len() && i != k ==> d1.servers@[i] == d0.servers@[i]
        &&& d1.servers@[k].status == st
        &&& d1.servers@[k].team_ct == d0.servers@[k].team_ct
        &&& d1.servers@[k].team_t == d0.servers@[k].team_t
        &&& d1.servers@[k].logs == d0.servers@[k].logs
        &&& d1.servers@[k].config == d0.servers@[k].config
        &&& d1.servers@[k].is_online == d0.servers@[k].is_online
        &&& d1.servers@[k].match_setup == d0.servers@[k].match_setup
        &&& d1.servers@[k].player_ready_amount == d0.servers@[k].player_ready_amount
    })
}

/// The servers after an optional batch record.
pub open spec fn weblog_step(d0: CsctrlDataParent, weblog: Option<String>, d1: CsctrlDataParent) -> bool {
    match weblog {
        Some(w) => weblog_effect(d0, w@, d1),
        None => d1 == d0,
    }
}

/// The servers after an optional worker report.
pub open spec fn status_step(d0: CsctrlDataParent, message: Option<String>, d1: CsctrlDataParent) -> bool {
    match message {
        Some(m) => status_effect(d0, m@, d1),
        None => d1 == d0,
    }
}

/// Appends a line to a log, dropping the oldest line once the log is full.
fn push_log(logs: &mut Vec<String>, line: String)
    requires
        old(logs)@.len() <= MAX_LOG_LINES,
    ensures
        final(logs)@.len() <= MAX_LOG_LINES,
        log_view(*final(logs)) == log_after_line(log_view(*old(logs)), line@),
{
    let ghost v0 = log_view(*logs);
    if logs.len() >= MAX_LOG_LINES {
        logs.remove(0);
        assert(log_view(*logs) =~= v0.drop_first());
    }
    let ghost v1 = log_view(*logs);
    logs.push(line);
    assert(log_view(*logs) =~= v1.push(line@));
}

/// Applies one raw log line to a server: it comes online, the line is
/// classified and handled, and the line is logged.
fn apply_line(classifier: &LogClassifier, server: &mut CsctrlDataServer, line: String)
    requires
        classifier.wf(),
        old(server).wf(),
    ensures
        final(server).wf(),
        (final(server).team_ct.roster(), final(server).team_t.roster()) == rosters_after_line(
            old(server).team_ct.roster(),
            old(server).team_t.roster(),
            line@,
        ),
        log_view(final(server).logs) == log_after_line(log_view(old(server).logs), line@),
        final(server).is_online,
        final(server).config == old(server).config,
        final(server).status == old(server).status,
        final(server).match_setup == old(server).match_setup,
{
    server.is_online = true;
    match classifier.classify(line.as_str()) {
        LogEvent::PlayerSay { steam_id, chat, .. } => {
            player_say(server, steam_id.as_str(), chat.as_str());
        },
        LogEvent::PlayerSwitchTeam { username, steam_id, team_to, .. } => {
            player_switch_team(server, username.as_str(), steam_id.as_str(), team_to.as_str());
        },
        LogEvent::Unclassified => {},
    }
    push_log(&mut server.logs, line);
}

/// How many lines come before the first one holding the terminating marker.
fn accepted_count(ls: &Vec<Vec<char>>) -> (m: usize)
    ensures
        m == marker_line(views(ls@), 0),
{
    let marker = chars_of(TERMINATING_MARKER);
    let mut m: usize = 0;
    while m < ls.len()
        invariant
            m <= ls@.len(),
            marker@ == TERMINATING_MARKER@,
            marker_line(views(ls@), 0) == marker_line(views(ls@), m as int),
        decreases ls@.len() - m,
    {
        assert(views(ls@)[m as int] == ls@[m as int]@);
        if find_from(&ls[m], &marker, 0).is_some() {
            return m;
        }
        m = m + 1;
    }
    m
}

/// What `tick` hands back: the outcome of the command it routed, and a
/// snapshot of the state when the UI's copy is stale.
pub struct TickReport {
    pub command: Option<Result<CsctrlAction, CsctrlError>>,
    pub snapshot: Option<CsctrlDataParent>,
}

/// The supervisor.
pub struct Csctrl {
    pub requested_exit: bool,
    pub csctrl_config: CsctrlConfig,
    pub data: CsctrlDataParent,
    pub is_data_dirty: bool,
    pub classifier: LogClassifier,
}

impl Csctrl {
    pub open spec fn wf(&self) -> bool {
        &&& self.data.wf()
        &&& self.classifier_ready()
    }

    pub open spec fn classifier_ready(&self) -> bool {
        self.classifier.wf()
    }

    /// Whether the state changed since the UI last got a snapshot.
    pub open spec fn is_dirty(&self) -> bool {
        self.is_data_dirty
    }

    pub open spec fn exit_requested(&self) -> bool {
        self.requested_exit
    }

    /// A supervisor for this configuration, with no server registered yet;
    /// `None` if the log patterns do not compile.
    pub fn csctrl(csctrl_config: CsctrlConfig) -> (r: Option<Csctrl>)
        ensures
            r is Some <==> (regex_compiles(PLAYER_SAY_PATTERN@) && regex_compiles(PLAYER_SWITCH_TEAM_PATTERN@)),
            r matches Some(c) ==> c.wf() && c.csctrl_config == csctrl_config && c.data.servers@.len() == 0
                && !c.is_dirty() && !c.exit_requested(),
    {
        match LogClassifier::new() {
            Some(classifier) => Some(
                Csctrl {
                    requested_exit: false,
                    csctrl_config,
                    data: CsctrlDataParent { servers: Vec::new() },
                    is_data_dirty: false,
                    classifier,
                },
            ),
            None => None,
        }
    }

    pub fn set_data_dirty(&mut self)
        ensures
            final(self).is_dirty(),
            final(self).wf() == old(self).wf(),
            final(self).data == old(self).data,
            final(self).csctrl_config == old(self).csctrl_config,
            final(self).exit_requested() == old(self).exit_requested(),
    {
        self.is_data_dirty = true;
    }

    pub fn has_requested_exit(&self) -> (r: bool)
        ensures
            r == self.exit_requested(),
    {
        self.requested_exit
    }

    /// Appends a server to the configuration.
    pub fn push_server_setup(&mut self, setup: CsctrlServerSetup)
        ensures
            final(self).wf() == old(self).wf(),
            final(self).csctrl_config.servers@ == old(self).csctrl_config.servers@.push(setup),
            final(self).csctrl_config.chat_signature == old(self).csctrl_config.chat_signature,
            final(self).data == old(self).data,
            final(self).is_dirty() == old(self).is_dirty(),
            final(self).exit_requested() == old(self).exit_requested(),
    {
        self.csctrl_config.servers.push(setup);
    }

    /// Registers a server under its address with this match setup; an
    /// address that is already registered is refused.
    pub fn register_server(&mut self, setup: CsctrlServerSetup, match_setup: MatchSetup) -> (r: Result<(), CsctrlError>)
        requires
            old(self).wf(),
        ensures
            final(self).wf(),
            final(self).csctrl_config == old(self).csctrl_config,
            final(self).exit_requested() == old(self).exit_requested(),
            old(self).data.index_of(setup.address@) is Some ==> final(self).data == old(self).data
                && final(self).is_dirty() == old(self).is_dirty() && (r matches Err(e) && e@
                == (ErrorView::DuplicateServer { address: setup.address@ })),
            old(self).data.index_of(setup.address@) is None ==> r is Ok && final(self).is_dirty()
                && final(self).data.servers@.len() == old(self).data.servers@.len() + 1
                && final(self).data.servers@.drop_last() == old(self).data.servers@
                && is_fresh(final(self).data.servers@.last(), setup, match_setup),
    {
        let ghost ss = self.data.servers@;
        proof {
            lemma_address_position(ss, setup.address@, 0);
        }
        if self.data.server_index(setup.address.as_str()).is_some() {
            return Err(CsctrlError::DuplicateServer { address: setup.address.clone() });
        }
        let server = CsctrlDataServer::registered(setup, match_setup);
        self.data.servers.push(server);
        assert(self.data.servers@.drop_last() =~= ss);
        self.is_data_dirty = true;
        Ok(())
    }

    /// Registers every configured server in order, each with the match setup
    /// at the same position; a repeated address is skipped. Returns, for each
    /// configured server, whether it was registered (and so needs a worker).
    pub fn reset_registered_servers(&mut self, match_setups: Vec<MatchSetup>) -> (spawned: Vec<bool>)
        requires
            old(self).wf(),
            match_setups@.len() == old(self).csctrl_config.servers@.len(),
        ensures
            final(self).wf(),
            final(self).csctrl_config == old(self).csctrl_config,
            final(self).exit_requested() == old(self).exit_requested(),
            spawned@.len() == old(self).csctrl_config.servers@.len(),
            final(self).is_dirty() == (old(self).is_dirty() || final(self).data.servers@.len() > 0),
            forall|k: int|
                0 <= k < spawned@.len() ==> spawned@[k] == is_first_address(old(self).csctrl_config.servers@, k),
            ({
                let kept = first_of_each_address(old(self).csctrl_config.servers@);
                &&& final(self).data.servers@.len() == kept.len()
                &&& forall|i: int|
                    0 <= i < kept.len() ==> is_fresh(
                        #[trigger] final(self).data.servers@[i],
                        old(self).csctrl_config.servers@[kept[i]],
                        match_setups@[kept[i]],
                    )
            }),
    {
        let ghost setups = self.csctrl_config.servers@;
        self.data.servers = Vec::new();
        let mut spawned: Vec<bool> = Vec::new();
        let n = self.csctrl_config.servers.len();
        let mut k: usize = 0;
        while k < n
            invariant
                self.wf(),
                n == setups.len(),
                match_setups@.len() == n,
                k <= n,
                self.csctrl_config.servers@ == setups,
                self.csctrl_config == old(self).csctrl_config,
                self.exit_requested() == old(self).exit_requested(),
                self.is_dirty() == (old(self).is_dirty() || self.data.servers@.len() > 0),
                spawned@.len() == k,
                forall|j: int| 0 <= j < k ==> spawned@[j] == is_first_address(setups, j),
                self.data.servers@.len() == first_of_each_address(setups.subrange(0, k as int)).len(),
                forall|i: int|
                    0 <= i < self.data.servers@.len() ==> is_fresh(
                        #[trigger] self.data.servers@[i],
                        setups[first_of_each_address(setups.subrange(0, k as int))[i]],
                        match_setups@[first_of_each_address(setups.subrange(0, k as int))[i]],
                    ),
                forall|i: int|
                    0 <= i < first_of_each_address(setups.subrange(0, k as int)).len() ==> 0 <= #[trigger] first_of_each_address(
                        setups.subrange(0, k as int),
                    )[i] < k,
                forall|a: Seq<char>|
                    #[trigger] registered_address(self.data.servers@, a) == configured_before(setups, k as int, a),
            decreases n - k,
        {
            let ghost before = self.data.servers@;
            let ghost prefix = setups.subrange(0, k as int);
            let ghost next = setups.subrange(0, k + 1);
            let ghost old_kept = first_of_each_address(prefix);
            let ghost a = setups[k as int].address@;
            assert(next.drop_last() =~= prefix);
            assert(next[k as int] == setups[k as int]);
            assert(is_first_address(next, k as int) == is_first_address(setups, k as int)) by {
                assert forall|j: int| 0 <= j < k implies next[j] == setups[j] by {}
            }
            proof {
                lemma_address_position(before, a, 0);
                assert(registered_address(before, a) == configured_before(setups, k as int, a));
                if address_position(before, a, 0) is Some {
                    let i = address_position(before, a, 0)->0;
                    assert(registered_address(before, a));
                    let j = choose|j: int| 0 <= j < k && setups[j].address@ == a;
                    assert(!is_first_address(setups, k as int));
                } else {
                    assert(!registered_address(before, a));
                    assert(is_first_address(setups, k as int));
                }
            }
            let setup = self.csctrl_config.servers[k].duplicate();
            let ms = match_setups[k].duplicate();
            let result = self.register_server(setup, ms);
            assert(result.is_ok() == is_first_address(setups, k as int));
            spawned.push(result.is_ok());
            k = k + 1;
            proof {
                let kept = first_of_each_address(setups.subrange(0, k as int));
                assert(setups.subrange(0, k as int) =~= next);
                if result.is_ok() {
                    assert(kept == old_kept.push(k - 1));
                    assert forall|i: int| 0 <= i < self.data.servers@.len() implies is_fresh(
                        #[trigger] self.data.servers@[i],
                        setups[kept[i]],
                        match_setups@[kept[i]],
                    ) by {
                        if i < before.len() {
                            assert(self.data.servers@[i] == before[i]);
                            assert(kept[i] == old_kept[i]);
                        } else {
                            assert(kept[i] == k - 1);
                        }
                    }
                    assert forall|a2: Seq<char>|
                        #[trigger] registered_address(self.data.servers@, a2) == configured_before(setups, k as int, a2) by {
                        assert(registered_address(before, a2) == configured_before(setups, k - 1, a2));
                        if configured_before(setups, k as int, a2) {
                            let j = choose|j: int| 0 <= j < k && setups[j].address@ == a2;
                            if j == k - 1 {
                                assert(self.data.servers@[before.len() as int].config.address@ == a2);
                            } else {
                                let i = choose|i: int| 0 <= i < before.len() && before[i].config.address@ == a2;
                                assert(self.data.servers@[i] == before[i]);
                            }
                        }
                        if registered_address(self.data.servers@, a2) {
                            let i = choose|i: int| 0 <= i < self.data.servers@.len() && self.data.servers@[i].config.address@ == a2;
                            if i < before.len() {
                                assert(self.data.servers@[i] == before[i]);
                            }
                        }
                    }
                } else {
                    assert(kept == old_kept);
                    assert forall|a2: Seq<char>|
                        #[trigger] registered_address(self.data.servers@, a2) == configured_before(setups, k as int, a2) by {
                        assert(registered_address(before, a2) == configured_before(setups, k - 1, a2));
                        if configured_before(setups, k as int, a2) && !configured_before(setups, k - 1, a2) {
                            let j = choose|j: int| 0 <= j < k && setups[j].address@ == a2;
                            assert(j == k - 1);
                        }
                    }
                }
            }
        }
        assert(setups.subrange(0, n as int) =~= setups);
        spawned
    }

    /// Routes a UI command frame to its command.
    pub fn handle_command(&mut self, command_string: &str) -> (r: Result<CsctrlAction, CsctrlError>)
        requires
            old(self).wf(),
        ensures
            final(self).wf(),
            outcome_view(r) == command_outcome(old(self).data, command_string@),
            final(self).data == old(self).data,
            final(self).is_dirty() == old(self).is_dirty(),
            final(self).exit_requested() == old(self).exit_requested(),
            added_server(command_string@) is None ==> final(self).csctrl_config == old(self).csctrl_config,
            added_server(command_string@) matches Some(ws) ==> ({
                let s = final(self).csctrl_config.servers@.last();
                &&& final(self).csctrl_config.servers@.len() == old(self).csctrl_config.servers@.len() + 1
                &&& final(self).csctrl_config.servers@.drop_last() == old(self).csctrl_config.servers@
                &&& s.name@ == ws[0]
                &&& s.address@ == ws[1]
                &&& s.rcon_password@ == ws[2]
                &&& s.match_setup@.len() == 0
            }),
    {
        let (target, text) = match parse_command_frame(command_string) {
            Some(parts) => parts,
            None => {
                return Err(CsctrlError::MalformedFrame);
            },
        };
        let ws = split_words(&chars_of(text.as_str()));
        if ws.len() == 0 {
            return Err(CsctrlError::UnknownCommand { name: String::new() });
        }
        let name = string_of(&ws[0]);
        let arguments = string_of(&join_from(&ws, 1));
        proof {
            reveal_strlit("rcon");
            reveal_strlit("csctrl.generate.server");
            reveal_strlit("csctrl.generate.match");
            reveal_strlit("terminal.server.select");
            reveal_strlit("server.match.setup.load");
            reveal_strlit("server.match.start");
            assert("rcon"@.len() != "csctrl.generate.server"@.len());
            assert("csctrl.generate.match"@.len() != "csctrl.generate.server"@.len());
            assert("terminal.server.select"@[0] != "csctrl.generate.server"@[0]);
            assert("server.match.setup.load"@.len() != "csctrl.generate.server"@.len());
            assert("server.match.start"@.len() != "csctrl.generate.server"@.len());
        }
        let name = name.as_str();
        let target = target.as_str();
        let arguments = arguments.as_str();
        if str_eq(name, "rcon") {
            Rcon.exec(self, target, arguments)
        } else if str_eq(name, "csctrl.generate.server") {
            CsctrlGenerateServer.exec(self, arguments)
        } else if str_eq(name, "csctrl.generate.match") {
            CsctrlGenerateMatch.exec(arguments)
        } else if str_eq(name, "terminal.server.select") {
            TerminalServerSelect.exec(self, arguments)
        } else if str_eq(name, "server.match.setup.load") {
            ServerMatchSetupLoad.exec(self, target, arguments)
        } else if str_eq(name, "server.match.start") {
            ServerMatchStart.exec(self, target)
        } else {
            Err(CsctrlError::UnknownCommand { name: name.to_owned() })
        }
    }

    /// Applies a status report from a worker: a real status named after the
    /// prefix becomes the status of the server at the report's address.
    /// Returns whether a server's status was written.
    pub fn process_server_message(&mut self, message: &str) -> (changed: bool)
        requires
            old(self).wf(),
        ensures
            final(self).wf(),
            final(self).csctrl_config == old(self).csctrl_config,
            final(self).exit_requested() == old(self).exit_requested(),
            changed == status_touches(old(self).data, message@),
            final(self).is_dirty() == (old(self).is_dirty() || changed),
            status_effect(old(self).data, message@, final(self).data),
    {
        let (address, payload) = match parse_record(message) {
            Some(parts) => parts,
            None => {
                return false;
            },
        };
        let p = chars_of(payload.as_str());
        let prefix = chars_of(MATCH_STATUS_PREFIX);
        if !matches_at(&p, &prefix, 0) {
            return false;
        }
        let rest = string_of(&slice_chars(&p, prefix.len(), p.len()));
        let status = CsctrlMatchStatus::string_to_enum(rest.as_str());
        if status == CsctrlMatchStatus::Invalid {
            return false;
        }
        let k = match self.data.server_index(address.as_str()) {
            Some(k) => k,
            None => {
                return false;
            },
        };
        let ghost before = self.data.servers@;
        let mut server = self.data.servers.remove(k);
        server.status = status;
        self.data.servers.insert(k, server);
        assert forall|i: int| 0 <= i < before.len() && i != k implies self.data.servers@[i] == before[i] by {}
        assert forall|i: int| 0 <= i < before.len() implies #[trigger] self.data.servers@[i].config.address@
            == before[i].config.address@ by {}
        self.is_data_dirty = true;
        true
    }

    /// Applies a batch record `address<SEP>body` from the log ingestor: the
    /// body's lines before the first one holding the terminating marker are
    /// applied in order to the server at that address; a record for an
    /// unknown address is dropped. Returns whether a line was applied.
    pub fn process_weblog(&mut self, rec: &str) -> (changed: bool)
        requires
            old(self).wf(),
        ensures
            final(self).wf(),
            final(self).csctrl_config == old(self).csctrl_config,
            final(self).exit_requested() == old(self).exit_requested(),
            changed == weblog_touches(old(self).data, rec@),
            final(self).is_dirty() == (old(self).is_dirty() || changed),
            weblog_effect(old(self).data, rec@, final(self).data),
    {
        let (address, body) = match parse_record(rec) {
            Some(parts) => parts,
            None => {
                return false;
            },
        };
        let k = match self.data.server_index(address.as_str()) {
            Some(k) => k,
            None => {
                return false;
            },
        };
        let ls = split_lines(&chars_of(body.as_str()));
        let m = accepted_count(&ls);
        proof {
            lemma_marker_line_bound(views(ls@), 0);
        }
        let ghost acc = views(ls@).subrange(0, m as int);
        assert(acc == accepted_lines(body@));
        if m == 0 {
            return false;
        }
        let ghost before = self.data.servers@;
        let ghost s0 = before[k as int];
        let mut server = self.data.servers.remove(k);
        assert(server == s0);
        assert(acc.subrange(0, m as int) =~= acc);
        let mut i: usize = 0;
        while i < m
            invariant
                i <= m <= ls@.len(),
                acc == views(ls@).subrange(0, m as int),
                self.classifier.wf(),
                server.wf(),
                rosters_after_lines(server.team_ct.roster(), server.team_t.roster(), acc.subrange(i as int, m as int))
                    == rosters_after_lines(s0.team_ct.roster(), s0.team_t.roster(), acc),
                log_after_lines(log_view(server.logs), acc.subrange(i as int, m as int)) == log_after_lines(
                    log_view(s0.logs),
                    acc,
                ),
                server.is_online == (s0.is_online || i > 0),
                server.config == s0.config,
                server.status == s0.status,
                server.match_setup == s0.match_setup,
            decreases m - i,
        {
            let ghost rest = acc.subrange(i as int, m as int);
            assert(rest.drop_first() =~= acc.subrange(i + 1, m as int));
            assert(rest[0] == ls@[i as int]@);
            let line = string_of(&ls[i]);
            apply_line(&self.classifier, &mut server, line);
            i = i + 1;
        }
        assert(acc.subrange(m as int, m as int) =~= Seq::<Seq<char>>::empty());
        self.data.servers.insert(k, server);
        assert forall|j: int| 0 <= j < before.len() && j != k implies self.data.servers@[j] == before[j] by {}
        assert forall|j: int| 0 <= j < before.len() implies #[trigger] self.data.servers@[j].config.address@
            == before[j].config.address@ by {}
        self.is_data_dirty = true;
        true
    }

    /// One round of the supervisor: note whether the UI is still open, route
    /// at most one command, apply at most one log batch and at most one
    /// worker report, and hand back a snapshot if the state changed.
    pub fn tick(
        &mut self,
        terminal_active: bool,
        command: Option<String>,
        weblog: Option<String>,
        worker_message: Option<String>,
    ) -> (r: TickReport)
        requires
            old(self).wf(),
        ensures
            final(self).wf(),
            !final(self).is_dirty(),
            final(self).exit_requested() == (old(self).exit_requested() || !terminal_active),
            r.command is Some == command is Some,
            r.snapshot matches Some(s) ==> s@ == final(self).data@,
            command matches Some(c) ==> outcome_view(r.command->0) == command_outcome(old(self).data, c@),
            r.snapshot is Some == (old(self).is_dirty() || (weblog matches Some(w) && weblog_touches(
                old(self).data,
                w@,
            )) || (worker_message matches Some(m) && status_touches(old(self).data, m@))),
            match command {
                Some(c) => match added_server(c@) {
                    Some(ws) => ({
                        let s = final(self).csctrl_config.servers@.last();
                        &&& final(self).csctrl_config.servers@.len() == old(self).csctrl_config.servers@.len() + 1
                        &&& final(self).csctrl_config.servers@.drop_last() == old(self).csctrl_config.servers@
                        &&& s.name@ == ws[0]
                        &&& s.address@ == ws[1]
                        &&& s.rcon_password@ == ws[2]
                        &&& s.match_setup@.len() == 0
                    }),
                    None => final(self).csctrl_config == old(self).csctrl_config,
                },
                None => final(self).csctrl_config == old(self).csctrl_config,
            },
            exists|mid: CsctrlDataParent|
                #[trigger] weblog_step(old(self).data, weblog, mid) && status_step(mid, worker_message, final(self).data),
    {
        if !terminal_active {
            self.requested_exit = true;
        }
        let routed = match command {
            Some(c) => Some(self.handle_command(c.as_str())),
            None => None,
        };
        let ghost d1 = self.data;
        let ghost cfg1 = self.csctrl_config;
        if let Some(w) = weblog {
            self.process_weblog(w.as_str());
        }
        let ghost mid = self.data;
        if let Some(m) = worker_message {
            proof {
                match status_report(m@) {
                    Some((a, st)) => {
                        lemma_same_addresses(self.data.servers@, d1.servers@, a, 0);
                    },
                    None => {},
                }
            }
            self.process_server_message(m.as_str());
        }
        assert(weblog_step(d1, weblog, mid) && status_step(mid, worker_message, self.data));
        assert(self.csctrl_config == cfg1);
        let snapshot = if self.is_data_dirty {
            self.is_data_dirty = false;
            Some(self.data.duplicate())
        } else {
            None
        };
        TickReport { command: routed, snapshot }
    }
}

} // verus!
