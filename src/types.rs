//! The data the supervisor owns: configuration, match setups, and the
//! authoritative per-server state with its invariants.
use vstd::prelude::*;
use crate::text::{str_eq, string_views};

verus! {

/// Raw log lines kept per server; older lines are dropped first.
pub const MAX_LOG_LINES: usize = 500;

pub struct CsctrlConfig {
    pub chat_signature: String,
    pub cs_listen_path: String,
    pub rest_api_address: String,
    pub secret: String,
    pub servers: Vec<CsctrlServerSetup>,
    pub tracing_env_filter: String,
}

#[derive(Clone)]
pub struct CsctrlStaticData {
    pub chat_signature: String,
}

#[derive(Clone)]
pub struct CsctrlServerSetup {
    pub name: String,
    pub address: String,
    pub rcon_password: String,
    pub match_setup: String,
}

impl CsctrlServerSetup {
    /// A field-by-field copy.
    pub fn duplicate(&self) -> (r: CsctrlServerSetup)
        ensures
            r == *self,
    {
        CsctrlServerSetup {
            name: self.name.clone(),
            address: self.address.clone(),
            rcon_password: self.rcon_password.clone(),
            match_setup: self.match_setup.clone(),
        }
    }
}

#[derive(Clone)]
pub struct MatchSetup {
    pub team_a_name: String,
    pub team_b_name: String,
    pub knife_round: bool,
    pub cfg_filename: String,
    pub player_amount: i8,
}

impl MatchSetup {
    /// Whether this is the setup with empty names, no knife round and no players.
    pub open spec fn is_blank(&self) -> bool {
        &&& self.team_a_name@.len() == 0
        &&& self.team_b_name@.len() == 0
        &&& !self.knife_round
        &&& self.cfg_filename@.len() == 0
        &&& self.player_amount == 0
    }

    /// The setup a server starts with before one is loaded.
    pub fn blank() -> (r: MatchSetup)
        ensures
            r.is_blank(),
    {
        MatchSetup {
            team_a_name: String::new(),
            team_b_name: String::new(),
            knife_round: false,
            cfg_filename: String::new(),
            player_amount: 0,
        }
    }

    /// A field-by-field copy.
    pub fn duplicate(&self) -> (r: MatchSetup)
        ensures
            r == *self,
    {
        MatchSetup {
            team_a_name: self.team_a_name.clone(),
            team_b_name: self.team_b_name.clone(),
            knife_round: self.knife_round,
            cfg_filename: self.cfg_filename.clone(),
            player_amount: self.player_amount,
        }
    }
}

#[derive(Clone, Copy, Debug, PartialEq, Eq, Structural)]
pub enum CsctrlMatchStatus {
    NoHook,
    PreMatchWarmup,
    KnifeRound,
    SwitchTeamsWarmup,
    Live,
    Finished,
    Paused,
    Invalid,
}

/// The status a name stands for; any other text is `Invalid`.
pub open spec fn status_named(s: Seq<char>) -> CsctrlMatchStatus {
    if s == "NoHook"@ {
        CsctrlMatchStatus::NoHook
    } else if s == "PreMatchWarmup"@ {
        CsctrlMatchStatus::PreMatchWarmup
    } else if s == "KnifeRound"@ {
        CsctrlMatchStatus::KnifeRound
    } else if s == "SwitchTeamsWarmup"@ {
        CsctrlMatchStatus::SwitchTeamsWarmup
    } else if s == "Live"@ {
        CsctrlMatchStatus::Live
    } else if s == "Finished"@ {
        CsctrlMatchStatus::Finished
    } else if s == "Paused"@ {
        CsctrlMatchStatus::Paused
    } else {
        CsctrlMatchStatus::Invalid
    }
}

impl CsctrlMatchStatus {
    pub fn string_to_enum(string: &str) -> (r: CsctrlMatchStatus)
        ensures
            r == status_named(string@),
    {
        if str_eq(string, "NoHook") {
            CsctrlMatchStatus::NoHook
        } else if str_eq(string, "PreMatchWarmup") {
            CsctrlMatchStatus::PreMatchWarmup
        } else if str_eq(string, "KnifeRound") {
            CsctrlMatchStatus::KnifeRound
        } else if str_eq(string, "SwitchTeamsWarmup") {
            CsctrlMatchStatus::SwitchTeamsWarmup
        } else if str_eq(string, "Live") {
            CsctrlMatchStatus::Live
        } else if str_eq(string, "Finished") {
            CsctrlMatchStatus::Finished
        } else if str_eq(string, "Paused") {
            CsctrlMatchStatus::Paused
        } else {
            CsctrlMatchStatus::Invalid
        }
    }
}

#[derive(Clone, Copy, Debug, PartialEq, Eq, Hash, Structural)]
pub enum CsctrlLogType {
    Invalid,
    PlayerSay,
    PlayerSwitchTeam,
}

/// What a player record holds.
pub struct PlayerView {
    pub name: Seq<char>,
    pub steam3: Seq<char>,
    pub is_ready: bool,
}

#[derive(Clone)]
pub struct CsctrlDataPlayer {
    pub name: String,
    pub steam3: String,
    pub is_ready: bool,
}

impl View for CsctrlDataPlayer {
    type V = PlayerView;

    open spec fn view(&self) -> PlayerView {
        PlayerView { name: self.name@, steam3: self.steam3@, is_ready: self.is_ready }
    }
}

impl CsctrlDataPlayer {
    /// A field-by-field copy.
    pub fn duplicate(&self) -> (r: CsctrlDataPlayer)
        ensures
            r@ == self@,
    {
        CsctrlDataPlayer { name: self.name.clone(), steam3: self.steam3.clone(), is_ready: self.is_ready }
    }
}

/// What a team holds.
pub struct TeamView {
    pub name: Seq<char>,
    pub score: u8,
    pub roster: Seq<PlayerView>,
}

/// What a server's state holds.
pub struct ServerView {
    pub config: CsctrlServerSetup,
    pub is_online: bool,
    pub team_ct: TeamView,
    pub team_t: TeamView,
    pub status: CsctrlMatchStatus,
    pub player_ready_amount: usize,
    pub logs: Seq<Seq<char>>,
    pub match_setup: MatchSetup,
}

#[derive(Clone)]
pub struct CsctrlDataTeam {
    pub name: String,
    pub score: u8,
    pub players: Vec<CsctrlDataPlayer>,
}

/// The records of a list of players.
pub open spec fn roster(ps: Seq<CsctrlDataPlayer>) -> Seq<PlayerView> {
    ps.map_values(|p: CsctrlDataPlayer| p@)
}

impl View for CsctrlDataTeam {
    type V = TeamView;

    open spec fn view(&self) -> TeamView {
        TeamView { name: self.name@, score: self.score, roster: self.roster() }
    }
}

impl CsctrlDataTeam {
    /// The team's players, in order.
    pub open spec fn roster(&self) -> Seq<PlayerView> {
        roster(self.players@)
    }

    /// A copy that holds the same name, score and players.
    pub fn duplicate(&self) -> (r: CsctrlDataTeam)
        ensures
            r@ == self@,
    {
        let mut players: Vec<CsctrlDataPlayer> = Vec::new();
        let mut i: usize = 0;
        while i < self.players.len()
            invariant
                i <= self.players@.len(),
                roster(players@) == roster(self.players@).subrange(0, i as int),
            decreases self.players@.len() - i,
        {
            let ghost before = roster(players@);
            players.push(self.players[i].duplicate());
            assert(roster(players@) =~= before.push(self.players@[i as int]@));
            i = i + 1;
            assert(roster(self.players@).subrange(0, i as int) =~= roster(self.players@).subrange(0, i - 1).push(
                roster(self.players@)[i - 1],
            ));
        }
        assert(roster(self.players@).subrange(0, i as int) =~= roster(self.players@));
        CsctrlDataTeam { name: self.name.clone(), score: self.score, players }
    }

    /// A team with this name, no score and no players.
    pub fn empty(name: String) -> (r: CsctrlDataTeam)
        ensures
            r.name == name,
            r.score == 0,
            r.roster().len() == 0,
    {
        CsctrlDataTeam { name, score: 0, players: Vec::new() }
    }
}

/// How many of the players are ready.
pub open spec fn count_ready(ps: Seq<PlayerView>) -> nat
    decreases ps.len(),
{
    if ps.len() == 0 {
        0
    } else {
        count_ready(ps.drop_last()) + if ps.last().is_ready {
            1nat
        } else {
            0nat
        }
    }
}

/// No two of the players share a Steam3 id.
pub open spec fn distinct_ids(ps: Seq<PlayerView>) -> bool {
    forall|i: int, j: int| 0 <= i < ps.len() && 0 <= j < ps.len() && i != j ==> ps[i].steam3 != ps[j].steam3
}

/// The first position at or after `from` of the player with this Steam3 id.
pub open spec fn position_from(ps: Seq<PlayerView>, id: Seq<char>, from: int) -> Option<int>
    decreases ps.len() - from,
{
    if from < 0 || from >= ps.len() {
        None
    } else if ps[from].steam3 == id {
        Some(from)
    } else {
        position_from(ps, id, from + 1)
    }
}

/// The position of the player with this Steam3 id.
pub open spec fn position(ps: Seq<PlayerView>, id: Seq<char>) -> Option<int> {
    position_from(ps, id, 0)
}

#[derive(Clone)]
pub struct CsctrlDataServer {
    pub config: CsctrlServerSetup,
    pub is_online: bool,
    pub team_ct: CsctrlDataTeam,
    pub team_t: CsctrlDataTeam,
    pub status: CsctrlMatchStatus,
    pub player_ready_amount: usize,
    pub logs: Vec<String>,
    pub match_setup: MatchSetup,
}

impl View for CsctrlDataServer {
    type V = ServerView;

    open spec fn view(&self) -> ServerView {
        ServerView {
            config: self.config,
            is_online: self.is_online,
            team_ct: self.team_ct@,
            team_t: self.team_t@,
            status: self.status,
            player_ready_amount: self.player_ready_amount,
            logs: string_views(self.logs@),
            match_setup: self.match_setup,
        }
    }
}

impl CsctrlDataServer {
    /// A copy that holds the same state.
    pub fn duplicate(&self) -> (r: CsctrlDataServer)
        ensures
            r@ == self@,
    {
        let mut logs: Vec<String> = Vec::new();
        let mut i: usize = 0;
        while i < self.logs.len()
            invariant
                i <= self.logs@.len(),
                string_views(logs@) == string_views(self.logs@).subrange(0, i as int),
            decreases self.logs@.len() - i,
        {
            let ghost before = string_views(logs@);
            logs.push(self.logs[i].clone());
            assert(string_views(logs@) =~= before.push(self.logs@[i as int]@));
            i = i + 1;
            assert(string_views(self.logs@).subrange(0, i as int) =~= string_views(self.logs@).subrange(0, i - 1).push(
                string_views(self.logs@)[i - 1],
            ));
        }
        assert(string_views(self.logs@).subrange(0, i as int) =~= string_views(self.logs@));
        CsctrlDataServer {
            config: self.config.duplicate(),
            is_online: self.is_online,
            team_ct: self.team_ct.duplicate(),
            team_t: self.team_t.duplicate(),
            status: self.status,
            player_ready_amount: self.player_ready_amount,
            logs,
            match_setup: self.match_setup.duplicate(),
        }
    }

    /// Every player is on one team at most, the ready count is the number of
    /// ready players (and the players can be counted in a `usize`), the status
    /// is a real one and the log is bounded.
    pub open spec fn wf(&self) -> bool {
        &&& distinct_ids(self.team_ct.roster() + self.team_t.roster())
        &&& self.player_ready_amount == count_ready(self.team_ct.roster()) + count_ready(self.team_t.roster())
        &&& self.team_ct.players@.len() + self.team_t.players@.len() <= usize::MAX
        &&& self.status != CsctrlMatchStatus::Invalid
        &&& self.logs@.len() <= MAX_LOG_LINES
    }

    /// The state of a server that was just registered.
    pub fn registered(config: CsctrlServerSetup, match_setup: MatchSetup) -> (r: CsctrlDataServer)
        ensures
            r.wf(),
            r.config == config,
            r.match_setup == match_setup,
            !r.is_online,
            r.team_ct.roster().len() == 0,
            r.team_t.roster().len() == 0,
            r.team_ct.score == 0,
            r.team_t.score == 0,
            r.team_ct.name@.len() == 0,
            r.team_t.name@.len() == 0,
            r.status == CsctrlMatchStatus::NoHook,
            r.player_ready_amount == 0,
            r.logs@.len() == 0,
    {
        let r = CsctrlDataServer {
            config,
            is_online: false,
            team_ct: CsctrlDataTeam::empty(String::new()),
            team_t: CsctrlDataTeam::empty(String::new()),
            status: CsctrlMatchStatus::NoHook,
            player_ready_amount: 0,
            logs: Vec::new(),
            match_setup,
        };
        assert(r.team_ct.roster() + r.team_t.roster() =~= Seq::<PlayerView>::empty());
        r
    }
}

#[derive(Clone)]
pub struct CsctrlDataParent {
    pub servers: Vec<CsctrlDataServer>,
}

/// The first position at or after `from` of the server registered under
/// this address.
pub open spec fn address_position(ss: Seq<CsctrlDataServer>, address: Seq<char>, from: int) -> Option<int>
    decreases ss.len() - from,
{
    if from < 0 || from >= ss.len() {
        None
    } else if ss[from].config.address@ == address {
        Some(from)
    } else {
        address_position(ss, address, from + 1)
    }
}

/// The first position at or after `from` of a server with this name.
pub open spec fn name_position(ss: Seq<CsctrlDataServer>, name: Seq<char>, from: int) -> Option<int>
    decreases ss.len() - from,
{
    if from < 0 || from >= ss.len() {
        None
    } else if ss[from].config.name@ == name {
        Some(from)
    } else {
        name_position(ss, name, from + 1)
    }
}

pub proof fn lemma_address_position(ss: Seq<CsctrlDataServer>, address: Seq<char>, from: int)
    requires
        from >= 0,
    ensures
        address_position(ss, address, from) matches Some(i) ==> from <= i < ss.len() && ss[i].config.address@
            == address,
        address_position(ss, address, from) is None ==> forall|j: int|
            from <= j < ss.len() ==> ss[j].config.address@ != address,
    decreases ss.len() - from,
{
    if from < ss.len() && ss[from].config.address@ != address {
        lemma_address_position(ss, address, from + 1);
    }
}

impl View for CsctrlDataParent {
    type V = Seq<ServerView>;

    open spec fn view(&self) -> Seq<ServerView> {
        self.servers@.map_values(|s: CsctrlDataServer| s@)
    }
}

impl CsctrlDataParent {
    /// A copy that holds the same servers, in order: a snapshot.
    pub fn duplicate(&self) -> (r: CsctrlDataParent)
        ensures
            r@ == self@,
    {
        let mut servers: Vec<CsctrlDataServer> = Vec::new();
        let mut i: usize = 0;
        while i < self.servers.len()
            invariant
                i <= self.servers@.len(),
                servers@.map_values(|s: CsctrlDataServer| s@) == self@.subrange(0, i as int),
            decreases self.servers@.len() - i,
        {
            let ghost before = servers@.map_values(|s: CsctrlDataServer| s@);
            servers.push(self.servers[i].duplicate());
            assert(servers@.map_values(|s: CsctrlDataServer| s@) =~= before.push(self.servers@[i as int]@));
            i = i + 1;
            assert(self@.subrange(0, i as int) =~= self@.subrange(0, i - 1).push(self@[i - 1]));
        }
        assert(self@.subrange(0, i as int) =~= self@);
        CsctrlDataParent { servers }
    }

    /// Each server is well formed and no two share an address.
    pub open spec fn wf(&self) -> bool {
        &&& forall|i: int| 0 <= i < self.servers@.len() ==> (#[trigger] self.servers@[i]).wf()
        &&& forall|i: int, j: int|
            0 <= i < self.servers@.len() && 0 <= j < self.servers@.len() && i != j ==> self.servers@[i].config.address@
                != self.servers@[j].config.address@
    }

    /// The position of the server registered under this address.
    pub open spec fn index_of(&self, address: Seq<char>) -> Option<int> {
        address_position(self.servers@, address, 0)
    }

    /// The position of the server registered under this address.
    pub fn server_index(&self, address: &str) -> (r: Option<usize>)
        ensures
            r matches Some(i) ==> self.index_of(address@) == Some(i as int) && i < self.servers@.len(),
            r is None ==> self.index_of(address@) is None,
    {
        let a = address.to_owned();
        let mut i: usize = 0;
        while i < self.servers.len()
            invariant
                i <= self.servers@.len(),
                a@ == address@,
                self.index_of(address@) == address_position(self.servers@, address@, i as int),
            decreases self.servers@.len() - i,
        {
            if self.servers[i].config.address == a {
                return Some(i);
            }
            i = i + 1;
        }
        None
    }

    /// The position of the first server with this name.
    pub fn name_index(&self, name: &str) -> (r: Option<usize>)
        ensures
            r matches Some(i) ==> name_position(self.servers@, name@, 0) == Some(i as int) && i < self.servers@.len(),
            r is None ==> name_position(self.servers@, name@, 0) is None,
    {
        let a = name.to_owned();
        let mut i: usize = 0;
        while i < self.servers.len()
            invariant
                i <= self.servers@.len(),
                a@ == name@,
                name_position(self.servers@, name@, 0) == name_position(self.servers@, name@, i as int),
            decreases self.servers@.len() - i,
        {
            if self.servers[i].config.name == a {
                return Some(i);
            }
            i = i + 1;
        }
        None
    }
}

} // verus!
