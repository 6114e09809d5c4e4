//! A server's worker: reads its mailbox messages, plans the RCON commands
//! they call for, and reports back to the supervisor.
use vstd::prelude::*;
use crate::connection::{step_spec, ExchangeAction, ExchangeEvent, RconConnection, RconExchange};
use crate::csctrl::MATCH_STATUS_PREFIX;
use crate::frames::{sep, FORMAT_SEPARATOR};
use crate::text::{append_str, chars_of, is_space, lines, slice_chars, split_lines, str_eq, string_of, views};
use crate::types::{CsctrlServerSetup, MatchSetup};

verus! {

/// The message that starts a match.
pub const SERVER_MATCH_START: &'static str = "server.match.start";

/// What the worker does for a message.
pub enum WorkerAction {
    /// Issue these commands in order, each over its own exchange; stop at
    /// the first that fails.
    Rcon { commands: Vec<String> },
    /// Read `cfg/<file_name>.cfg` and hand its text to `match_start_commands`.
    ReadMatchCfg { file_name: String },
    /// No verb of the grammar; the message may be a match setup.
    Unrecognized,
}

/// A chat line in the server's name.
pub open spec fn say_line(signature: Seq<char>, text: Seq<char>) -> Seq<char> {
    "say ["@ + signature + "] "@ + text
}

/// `s` without one trailing carriage return.
pub open spec fn strip_cr(s: Seq<char>) -> Seq<char> {
    if s.len() > 0 && s.last() == '\r' {
        s.drop_last()
    } else {
        s
    }
}

/// Line `i` of a cfg file with CRLF read as LF.
pub open spec fn cfg_piece(ls: Seq<Seq<char>>, i: int) -> Seq<char> {
    if i < ls.len() - 1 {
        strip_cr(ls[i])
    } else {
        ls[i]
    }
}

/// The non-empty lines among the first `i`.
pub open spec fn cfg_commands_upto(ls: Seq<Seq<char>>, i: int) -> Seq<Seq<char>>
    decreases i,
{
    if i <= 0 {
        Seq::empty()
    } else {
        let before = cfg_commands_upto(ls, i - 1);
        let p = cfg_piece(ls, i - 1);
        if p.len() > 0 {
            before.push(p)
        } else {
            before
        }
    }
}

/// The commands of a cfg file: its non-empty lines, CRLF read as LF.
pub open spec fn cfg_commands(text: Seq<char>) -> Seq<Seq<char>> {
    cfg_commands_upto(lines(text), lines(text).len() as int)
}

/// The commands that start a match, in order.
pub open spec fn match_start_plan(signature: Seq<char>, team_a: Seq<char>, team_b: Seq<char>, cfg: Seq<char>) -> Seq<
    Seq<char>,
> {
    seq![
        say_line(signature, "Loading match..."@),
        "mp_teamname_1 \""@ + team_a + "\""@,
        "mp_teamname_2 \""@ + team_b + "\""@,
    ] + cfg_commands(cfg) + seq![
        "mp_warmup_pausetimer 1"@,
        "mp_warmup_start"@,
        say_line(signature, "WARMUP START"@),
        say_line(signature, "Type '.ready' or '.unready' to change your readiness status"@),
    ]
}

/// The views of a list of strings.
pub open spec fn command_views(cs: Seq<String>) -> Seq<Seq<char>> {
    cs.map_values(|c: String| c@)
}

/// What a mailbox message asks for.
pub enum MessageView {
    Rcon { command: Seq<char> },
    MatchStart,
    Unrecognized,
}

/// The first position at or after `i` that is not whitespace.
pub open spec fn skip_spaces(s: Seq<char>, i: int) -> int
    decreases s.len() - i,
{
    if 0 <= i < s.len() && is_space(s[i]) {
        skip_spaces(s, i + 1)
    } else {
        i
    }
}

/// The first position at or after `i` that is whitespace.
pub open spec fn skip_word(s: Seq<char>, i: int) -> int
    decreases s.len() - i,
{
    if 0 <= i < s.len() && !is_space(s[i]) {
        skip_word(s, i + 1)
    } else {
        i
    }
}

/// The end of `s[lo..j]` once trailing whitespace is dropped.
pub open spec fn trim_end_at(s: Seq<char>, lo: int, j: int) -> int
    decreases j - lo,
{
    if lo < j && j <= s.len() && is_space(s[j - 1]) {
        trim_end_at(s, lo, j - 1)
    } else {
        j
    }
}

/// The first word of a message.
pub open spec fn verb(s: Seq<char>) -> Seq<char> {
    s.subrange(skip_spaces(s, 0), skip_word(s, skip_spaces(s, 0)))
}

/// What follows the first word, without whitespace at either end; inner
/// spacing is kept.
pub open spec fn arguments_of(s: Seq<char>) -> Seq<char> {
    let a = skip_spaces(s, skip_word(s, skip_spaces(s, 0)));
    s.subrange(a, trim_end_at(s, a, s.len() as int))
}

/// How a mailbox message reads: its first word is the verb.
pub open spec fn message_kind(message: Seq<char>) -> MessageView {
    if verb(message) == "rcon"@ {
        MessageView::Rcon { command: arguments_of(message) }
    } else if verb(message) == SERVER_MATCH_START@ {
        MessageView::MatchStart
    } else {
        MessageView::Unrecognized
    }
}

/// The position after the run of whitespace (or, with `spaces` false, of
/// other characters) that starts at `i`.
fn skip_run(s: &Vec<char>, i: usize, spaces: bool) -> (r: usize)
    requires
        i <= s@.len(),
    ensures
        spaces ==> r == skip_spaces(s@, i as int),
        !spaces ==> r == skip_word(s@, i as int),
        i <= r <= s@.len(),
{
    let mut j = i;
    while j < s.len() && ((s[j] == ' ' || s[j] == '\t' || s[j] == '\n' || s[j] == '\r') == spaces)
        invariant
            i <= j <= s@.len(),
            spaces ==> skip_spaces(s@, i as int) == skip_spaces(s@, j as int),
            !spaces ==> skip_word(s@, i as int) == skip_word(s@, j as int),
        decreases s@.len() - j,
    {
        j = j + 1;
    }
    j
}

/// The end of `s[lo..]` once trailing whitespace is dropped.
fn trim_end(s: &Vec<char>, lo: usize) -> (r: usize)
    requires
        lo <= s@.len(),
    ensures
        r == trim_end_at(s@, lo as int, s@.len() as int),
        lo <= r <= s@.len(),
{
    let mut j = s.len();
    while lo < j && (s[j - 1] == ' ' || s[j - 1] == '\t' || s[j - 1] == '\n' || s[j - 1] == '\r')
        invariant
            lo <= j <= s@.len(),
            trim_end_at(s@, lo as int, s@.len() as int) == trim_end_at(s@, lo as int, j as int),
        decreases j,
    {
        j = j - 1;
    }
    j
}

/// What to do next while issuing a list of commands in order.
pub enum CommandRunStep {
    /// Issue the command at this position.
    Execute(usize),
    /// Stop: whether every command succeeded.
    Finished(bool),
}

/// The step after `done` of `total` commands have been issued, the last of
/// them with outcome `last_succeeded`: a failure stops the run.
pub fn next_command_step(total: usize, done: usize, last_succeeded: bool) -> (r: CommandRunStep)
    requires
        done <= total,
    ensures
        !last_succeeded ==> (r matches CommandRunStep::Finished(ok) && !ok),
        last_succeeded && done == total ==> (r matches CommandRunStep::Finished(ok) && ok),
        last_succeeded && done < total ==> (r matches CommandRunStep::Execute(i) && i == done),
{
    if !last_succeeded {
        CommandRunStep::Finished(false)
    } else if done == total {
        CommandRunStep::Finished(true)
    } else {
        CommandRunStep::Execute(done)
    }
}

pub struct CsctrlServer {
    address: String,
    rcon_connection: RconConnection,
    match_setup: MatchSetup,
    chat_signature: String,
    last_rcon_success: bool,
}

impl CsctrlServer {
    pub closed spec fn address(&self) -> Seq<char> {
        self.address@
    }

    pub closed spec fn signature(&self) -> Seq<char> {
        self.chat_signature@
    }

    /// The match setup a later match start uses.
    pub closed spec fn setup(&self) -> MatchSetup {
        self.match_setup
    }

    pub closed spec fn connection(&self) -> RconConnection {
        self.rcon_connection
    }

    pub closed spec fn last_success(&self) -> bool {
        self.last_rcon_success
    }

    pub open spec fn wf(&self) -> bool {
        self.connection().wf()
    }

    /// The worker of a server, with a blank match setup.
    pub fn csctrl_server(setup: &CsctrlServerSetup, chat_signature: &str) -> (r: CsctrlServer)
        ensures
            r.wf(),
            r.address() == setup.address@,
            r.signature() == chat_signature@,
            r.setup().is_blank(),
            r.connection().address() == setup.address@,
            r.connection().password() == setup.rcon_password@,
            r.connection().last_id() == -1,
            !r.last_success(),
    {
        CsctrlServer {
            address: setup.address.clone(),
            rcon_connection: RconConnection::create_rcon_connection(
                setup.address.as_str(),
                setup.rcon_password.as_str(),
            ),
            match_setup: MatchSetup::blank(),
            chat_signature: chat_signature.to_owned(),
            last_rcon_success: false,
        }
    }

    /// The address of the server this worker drives.
    pub fn server_address(&self) -> (r: &str)
        ensures
            r@ == self.address(),
    {
        self.address.as_str()
    }

    /// Makes `setup` the one a later match start uses.
    pub fn adopt_match_setup(&mut self, setup: MatchSetup)
        ensures
            final(self).setup() == setup,
            final(self).address() == old(self).address(),
            final(self).signature() == old(self).signature(),
            final(self).connection() == old(self).connection(),
            final(self).last_success() == old(self).last_success(),
    {
        self.match_setup = setup;
    }

    /// A chat line in the server's name.
    pub fn generate_say_command(&self, say_text: &str) -> (r: String)
        ensures
            r@ == say_line(self.signature(), say_text@),
    {
        let mut r = "say [".to_owned();
        append_str(&mut r, self.chat_signature.as_str());
        append_str(&mut r, "] ");
        append_str(&mut r, say_text);
        r
    }

    /// A message for the supervisor, framed with this server's address.
    pub fn message_to_main_thread(&self, message: &str) -> (r: String)
        ensures
            r@ == self.address() + sep() + message@,
    {
        let mut r = self.address.clone();
        append_str(&mut r, FORMAT_SEPARATOR);
        append_str(&mut r, message);
        r
    }

    /// Decides what a mailbox message calls for.
    pub fn handle_thread_message(&self, message: &str) -> (r: WorkerAction)
        ensures
            match message_kind(message@) {
                MessageView::Rcon { command } => r matches WorkerAction::Rcon { commands } && command_views(
                    commands@,
                ) == seq![command],
                MessageView::MatchStart => r matches WorkerAction::ReadMatchCfg { file_name } && file_name@
                    == self.setup().cfg_filename@,
                MessageView::Unrecognized => r is Unrecognized,
            },
    {
        let m = chars_of(message);
        let v0 = skip_run(&m, 0, true);
        let v1 = skip_run(&m, v0, false);
        let verb_text = string_of(&slice_chars(&m, v0, v1));
        if str_eq(verb_text.as_str(), "rcon") {
            let a = skip_run(&m, v1, true);
            let b = trim_end(&m, a);
            let command = string_of(&slice_chars(&m, a, b));
            let mut commands: Vec<String> = Vec::new();
            commands.push(command);
            assert(command_views(commands@) =~= seq![command@]);
            WorkerAction::Rcon { commands }
        } else if str_eq(verb_text.as_str(), SERVER_MATCH_START) {
            WorkerAction::ReadMatchCfg { file_name: self.match_setup.cfg_filename.clone() }
        } else {
            WorkerAction::Unrecognized
        }
    }

    /// The commands that start a match with the adopted setup, given the
    /// text of its cfg file.
    pub fn match_start_commands(&self, cfg_text: &str) -> (r: Vec<String>)
        ensures
            command_views(r@) == match_start_plan(
                self.signature(),
                self.setup().team_a_name@,
                self.setup().team_b_name@,
                cfg_text@,
            ),
    {
        let mut out: Vec<String> = Vec::new();
        out.push(self.generate_say_command("Loading match..."));
        let mut a = "mp_teamname_1 \"".to_owned();
        append_str(&mut a, self.match_setup.team_a_name.as_str());
        append_str(&mut a, "\"");
        out.push(a);
        let mut b = "mp_teamname_2 \"".to_owned();
        append_str(&mut b, self.match_setup.team_b_name.as_str());
        append_str(&mut b, "\"");
        out.push(b);
        let ghost head = command_views(out@);
        assert(head =~= seq![
            say_line(self.signature(), "Loading match..."@),
            "mp_teamname_1 \""@ + self.setup().team_a_name@ + "\""@,
            "mp_teamname_2 \""@ + self.setup().team_b_name@ + "\""@,
        ]);
        let ls = split_lines(&chars_of(cfg_text));
        let ghost lv = views(ls@);
        assert(lv == lines(cfg_text@));
        let n = ls.len();
        let mut i: usize = 0;
        while i < n
            invariant
                n == ls@.len(),
                lv == views(ls@),
                i <= n,
                command_views(out@) == head + cfg_commands_upto(lv, i as int),
            decreases n - i,
        {
            let line = &ls[i];
            let len = line.len();
            let end = if i + 1 < n && len > 0 && line[len - 1] == '\r' {
                len - 1
            } else {
                len
            };
            let piece = slice_chars(line, 0, end);
            assert(lv[i as int] == line@);
            assert(piece@ == cfg_piece(lv, i as int)) by {
                if i + 1 < n && len > 0 && line@[len - 1] == '\r' {
                    assert(line@.subrange(0, end as int) =~= line@.drop_last());
                } else {
                    assert(line@.subrange(0, end as int) =~= line@);
                }
            }
            if piece.len() > 0 {
                let ghost before = command_views(out@);
                out.push(string_of(&piece));
                assert(command_views(out@) =~= before.push(piece@));
            }
            i = i + 1;
        }
        let ghost mid = command_views(out@);
        assert(mid == head + cfg_commands(cfg_text@));
        let c1 = "mp_warmup_pausetimer 1".to_owned();
        let c2 = "mp_warmup_start".to_owned();
        let c3 = self.generate_say_command("WARMUP START");
        let c4 = self.generate_say_command("Type '.ready' or '.unready' to change your readiness status");
        out.push(c1);
        out.push(c2);
        out.push(c3);
        out.push(c4);
        assert(command_views(out@) =~= mid + seq![c1@, c2@, c3@, c4@]);
        assert(command_views(out@) =~= match_start_plan(
            self.signature(),
            self.setup().team_a_name@,
            self.setup().team_b_name@,
            cfg_text@,
        ));
        out
    }

    /// Records how the last command run went; once a match start has run
    /// through, returns the report that the match is in its warmup.
    pub fn finish_commands(&mut self, all_succeeded: bool, was_match_start: bool) -> (r: Option<String>)
        ensures
            final(self).last_success() == all_succeeded,
            final(self).address() == old(self).address(),
            final(self).signature() == old(self).signature(),
            final(self).setup() == old(self).setup(),
            final(self).connection() == old(self).connection(),
            r is Some == (all_succeeded && was_match_start),
            r matches Some(m) ==> m@ == old(self).address() + sep() + MATCH_STATUS_PREFIX@ + "PreMatchWarmup"@,
    {
        self.last_rcon_success = all_succeeded;
        if all_succeeded && was_match_start {
            let mut m = MATCH_STATUS_PREFIX.to_owned();
            append_str(&mut m, "PreMatchWarmup");
            let r = self.message_to_main_thread(m.as_str());
            Some(r)
        } else {
            None
        }
    }

    /// Advances an exchange over this server's connection.
    pub fn exchange_step(&mut self, exchange: &mut RconExchange, event: ExchangeEvent) -> (r: ExchangeAction)
        requires
            old(self).wf(),
        ensures
            final(self).wf(),
            final(self).address() == old(self).address(),
            final(self).signature() == old(self).signature(),
            final(self).setup() == old(self).setup(),
            final(self).last_success() == old(self).last_success(),
            step_spec(*old(exchange), *final(exchange), old(self).connection(), final(self).connection(), event, r),
    {
        exchange.step(&mut self.rcon_connection, event)
    }
}

} // verus!
