//! The table of log-line patterns and the classification of a raw line into
//! an event with its captured fields.
use vstd::prelude::*;
use crate::types::CsctrlLogType;

verus! {

#[verifier::external_type_specification]
#[verifier::external_body]
pub struct ExRegex(regex::Regex);

/// The text that named group `group` captures in the leftmost-first match of
/// `pattern` in `text`, if there is a match and the group took part in it.
pub uninterp spec fn regex_group(pattern: Seq<char>, text: Seq<char>, group: Seq<char>) -> Option<Seq<char>>;

/// Whether `regex::Regex::new` accepts `pattern` under the default settings.
pub uninterp spec fn regex_compiles(pattern: Seq<char>) -> bool;

/// Relies on `regex::Regex::new`: `None` when the pattern does not compile;
/// whether it does depends on the pattern alone.
#[verifier::external_body]
fn compile_regex(pattern: &str) -> (r: Option<regex::Regex>)
    ensures
        r is Some <==> regex_compiles(pattern@),
{
    regex::Regex::new(pattern).ok()
}

/// A compiled pattern kept beside its source text; only `compile` builds one,
/// so the regex is always the one the source compiles to.
pub struct LogPattern {
    regex: regex::Regex,
    source: String,
}

impl LogPattern {
    /// The text this pattern was compiled from.
    pub closed spec fn source(&self) -> Seq<char> {
        self.source@
    }

    pub fn compile(pattern: &str) -> (r: Option<LogPattern>)
        ensures
            r is Some <==> regex_compiles(pattern@),
            r matches Some(p) ==> p.source() == pattern@,
    {
        match compile_regex(pattern) {
            Some(regex) => Some(LogPattern { regex, source: pattern.to_owned() }),
            None => None,
        }
    }
}

/// Relies on `regex::Regex::captures` followed by `regex::Captures::name`:
/// the text of a named group in the first match, if any.
#[verifier::external_body]
fn capture_group(pattern: &LogPattern, line: &str, group: &str) -> (r: Option<String>)
    ensures
        r is Some <==> regex_group(pattern.source(), line@, group@) is Some,
        r matches Some(s) ==> regex_group(pattern.source(), line@, group@) == Some(s@),
{
    match pattern.regex.captures(line) {
        Some(caps) => match caps.name(group) {
            Some(m) => Some(m.as_str().to_string()),
            None => None,
        },
        None => None,
    }
}

/// A chat line: `"<name><uid><[steam3]><side>" say "<text>"` (or `say_team`).
pub const PLAYER_SAY_PATTERN: &'static str = r#"[0-9\/\ \-\.\:]*"(?<username>.*)<[0-9]*><\[(?<steam_id>[a-zA-Z]:[0-9]:[0-9]*)\]><(?<team_side>CT|TERRORIST)>" (?:say_team|say) "(?<chat>.*)""#;

/// A team change: `"<name><uid><[steam3]>..." switched from team <A> to <B>`.
pub const PLAYER_SWITCH_TEAM_PATTERN: &'static str = r#""(?<username>.*)<[0-9]*><\[(?<steam_id>[a-zA-Z]:[0-9]:[0-9]*)\]>(?:<[A-Za-z]*>)?" switched from team <(?<team_from>[A-Za-z]*)> to <(?<team_to>[A-Za-z]*)>"#;

/// A classified log line with the fields its handler reads.
pub enum LogEvent {
    PlayerSay { username: String, steam_id: String, team_side: String, chat: String },
    PlayerSwitchTeam { username: String, steam_id: String, team_from: String, team_to: String },
    Unclassified,
}

/// What a classified line captured, as plain text.
pub enum EventView {
    PlayerSay { username: Seq<char>, steam_id: Seq<char>, team_side: Seq<char>, chat: Seq<char> },
    PlayerSwitchTeam { username: Seq<char>, steam_id: Seq<char>, team_from: Seq<char>, team_to: Seq<char> },
    Unclassified,
}

impl View for LogEvent {
    type V = EventView;

    open spec fn view(&self) -> EventView {
        match self {
            LogEvent::PlayerSay { username, steam_id, team_side, chat } => EventView::PlayerSay {
                username: username@,
                steam_id: steam_id@,
                team_side: team_side@,
                chat: chat@,
            },
            LogEvent::PlayerSwitchTeam { username, steam_id, team_from, team_to } => EventView::PlayerSwitchTeam {
                username: username@,
                steam_id: steam_id@,
                team_from: team_from@,
                team_to: team_to@,
            },
            LogEvent::Unclassified => EventView::Unclassified,
        }
    }
}

impl LogEvent {
    pub fn kind(&self) -> (r: CsctrlLogType)
        ensures
            r == (match self@ {
                EventView::PlayerSay { .. } => CsctrlLogType::PlayerSay,
                EventView::PlayerSwitchTeam { .. } => CsctrlLogType::PlayerSwitchTeam,
                EventView::Unclassified => CsctrlLogType::Invalid,
            }),
    {
        match self {
            LogEvent::PlayerSay { .. } => CsctrlLogType::PlayerSay,
            LogEvent::PlayerSwitchTeam { .. } => CsctrlLogType::PlayerSwitchTeam,
            LogEvent::Unclassified => CsctrlLogType::Invalid,
        }
    }
}

/// The four groups of `pattern` in `line`, when all of them are captured.
pub open spec fn four_groups(
    pattern: Seq<char>,
    line: Seq<char>,
    g1: Seq<char>,
    g2: Seq<char>,
    g3: Seq<char>,
    g4: Seq<char>,
) -> Option<(Seq<char>, Seq<char>, Seq<char>, Seq<char>)> {
    match (
        regex_group(pattern, line, g1),
        regex_group(pattern, line, g2),
        regex_group(pattern, line, g3),
        regex_group(pattern, line, g4),
    ) {
        (Some(a), Some(b), Some(c), Some(d)) => Some((a, b, c, d)),
        _ => None,
    }
}

/// The event a raw line stands for: the first pattern of the table whose
/// groups are all captured wins.
pub open spec fn classify_line(line: Seq<char>) -> EventView {
    match four_groups(PLAYER_SAY_PATTERN@, line, "username"@, "steam_id"@, "team_side"@, "chat"@) {
        Some((u, s, t, c)) => EventView::PlayerSay { username: u, steam_id: s, team_side: t, chat: c },
        None => match four_groups(
            PLAYER_SWITCH_TEAM_PATTERN@,
            line,
            "username"@,
            "steam_id"@,
            "team_from"@,
            "team_to"@,
        ) {
            Some((u, s, f, t)) => EventView::PlayerSwitchTeam { username: u, steam_id: s, team_from: f, team_to: t },
            None => EventView::Unclassified,
        },
    }
}

/// The patterns of every event kind, compiled once.
pub struct LogClassifier {
    player_say: LogPattern,
    player_switch_team: LogPattern,
}

impl LogClassifier {
    /// Each pattern is the one of its kind.
    pub open spec fn wf(&self) -> bool {
        &&& self.say_source() == PLAYER_SAY_PATTERN@
        &&& self.switch_source() == PLAYER_SWITCH_TEAM_PATTERN@
    }

    pub closed spec fn say_source(&self) -> Seq<char> {
        self.player_say.source()
    }

    pub closed spec fn switch_source(&self) -> Seq<char> {
        self.player_switch_team.source()
    }

    /// Compiles the table; `None` if a pattern does not compile.
    pub fn new() -> (r: Option<LogClassifier>)
        ensures
            r is Some <==> (regex_compiles(PLAYER_SAY_PATTERN@) && regex_compiles(PLAYER_SWITCH_TEAM_PATTERN@)),
            r matches Some(c) ==> c.wf(),
    {
        let player_say = match LogPattern::compile(PLAYER_SAY_PATTERN) {
            Some(p) => p,
            None => {
                return None;
            },
        };
        let player_switch_team = match LogPattern::compile(PLAYER_SWITCH_TEAM_PATTERN) {
            Some(p) => p,
            None => {
                return None;
            },
        };
        Some(LogClassifier { player_say, player_switch_team })
    }

    fn groups(
        pattern: &LogPattern,
        line: &str,
        g1: &str,
        g2: &str,
        g3: &str,
        g4: &str,
    ) -> (r: Option<(String, String, String, String)>)
        ensures
            match r {
                Some((a, b, c, d)) => four_groups(pattern.source(), line@, g1@, g2@, g3@, g4@) == Some(
                    (a@, b@, c@, d@),
                ),
                None => four_groups(pattern.source(), line@, g1@, g2@, g3@, g4@) is None,
            },
    {
        let a = capture_group(pattern, line, g1);
        let b = capture_group(pattern, line, g2);
        let c = capture_group(pattern, line, g3);
        let d = capture_group(pattern, line, g4);
        match (a, b, c, d) {
            (Some(a), Some(b), Some(c), Some(d)) => Some((a, b, c, d)),
            _ => None,
        }
    }

    /// The event `line` stands for.
    pub fn classify(&self, line: &str) -> (r: LogEvent)
        requires
            self.wf(),
        ensures
            r@ == classify_line(line@),
    {
        match Self::groups(&self.player_say, line, "username", "steam_id", "team_side", "chat") {
            Some((username, steam_id, team_side, chat)) => LogEvent::PlayerSay { username, steam_id, team_side, chat },
            None => match Self::groups(
                &self.player_switch_team,
                line,
                "username",
                "steam_id",
                "team_from",
                "team_to",
            ) {
                Some((username, steam_id, team_from, team_to)) => LogEvent::PlayerSwitchTeam {
                    username,
                    steam_id,
                    team_from,
                    team_to,
                },
                None => LogEvent::Unclassified,
            },
        }
    }
}

} // verus!
