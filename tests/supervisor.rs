use csctrl::classifier::{LogClassifier, LogEvent};
use csctrl::csctrl::{Csctrl, CsctrlAction, CsctrlError};
use csctrl::frames::{frame_command, frame_record, parse_command_frame, parse_record, FORMAT_SEPARATOR};
use csctrl::log_events::{find_player_index_and_team_with_steamid3, player_say, player_switch_team, TeamSide};
use csctrl::text::contains_str;
use csctrl::types::{
    CsctrlConfig, CsctrlDataPlayer, CsctrlDataServer, CsctrlMatchStatus, CsctrlServerSetup, MatchSetup,
};

fn setup(name: &str, address: &str) -> CsctrlServerSetup {
    CsctrlServerSetup {
        name: name.to_string(),
        address: address.to_string(),
        rcon_password: "pw".to_string(),
        match_setup: String::new(),
    }
}

fn config(servers: Vec<CsctrlServerSetup>) -> CsctrlConfig {
    CsctrlConfig {
        chat_signature: "csctrl".to_string(),
        cs_listen_path: "/cslog".to_string(),
        rest_api_address: "0.0.0.0:27016".to_string(),
        secret: "0123456789abcdef".to_string(),
        servers,
        tracing_env_filter: "csctrl=info".to_string(),
    }
}

fn supervisor(servers: Vec<CsctrlServerSetup>) -> (Csctrl, Vec<bool>) {
    let n = servers.len();
    let mut c = Csctrl::csctrl(config(servers)).unwrap();
    let spawned = c.reset_registered_servers((0..n).map(|_| MatchSetup::blank()).collect());
    (c, spawned)
}

fn player(name: &str, steam3: &str, ready: bool) -> CsctrlDataPlayer {
    CsctrlDataPlayer { name: name.to_string(), steam3: steam3.to_string(), is_ready: ready }
}

fn server_with_ct_player() -> CsctrlDataServer {
    let mut s = CsctrlDataServer::registered(setup("srv1", "1.2.3.4:27015"), MatchSetup::blank());
    s.team_ct.players.push(player("PlayerP", "U:1:42", false));
    s
}

#[test]
fn command_frame_round_trip() {
    let f = frame_command("1.2.3.4:27015", "rcon  mp_restartgame 1 ");
    assert_eq!(f, format!("{}1.2.3.4:27015{}rcon  mp_restartgame 1 ", FORMAT_SEPARATOR, FORMAT_SEPARATOR));
    let (a, t) = parse_command_frame(&f).unwrap();
    assert_eq!(a, "1.2.3.4:27015");
    assert_eq!(t, "rcon  mp_restartgame 1 ");
    assert!(parse_command_frame("no separators").is_none());
    assert!(parse_command_frame("<csctrlseptarget>only one").is_none());
}

#[test]
fn record_framing_drops_trailing_newline() {
    let r = frame_record("1.2.3.4:27015", "line one\nline two\n");
    assert_eq!(r, "1.2.3.4:27015<csctrlseptarget>line one\nline two");
    let (a, b) = parse_record(&r).unwrap();
    assert_eq!(a, "1.2.3.4:27015");
    assert_eq!(b, "line one\nline two");
    assert_eq!(frame_record("a", "x"), "a<csctrlseptarget>x");
    assert!(parse_record("nothing here").is_none());
}

#[test]
fn contains_checks_substrings() {
    assert!(contains_str("say .ready now", ".ready"));
    assert!(!contains_str("say .unready", ".ready"));
    assert!(contains_str("anything", ""));
}

#[test]
fn status_parse() {
    assert_eq!(CsctrlMatchStatus::string_to_enum("NoHook"), CsctrlMatchStatus::NoHook);
    assert_eq!(CsctrlMatchStatus::string_to_enum("KnifeRound"), CsctrlMatchStatus::KnifeRound);
    assert_eq!(CsctrlMatchStatus::string_to_enum("PreMatchWarmup"), CsctrlMatchStatus::PreMatchWarmup);
    assert_eq!(CsctrlMatchStatus::string_to_enum("Paused"), CsctrlMatchStatus::Paused);
    assert_eq!(CsctrlMatchStatus::string_to_enum("banana"), CsctrlMatchStatus::Invalid);
    assert_eq!(CsctrlMatchStatus::string_to_enum("Invalid"), CsctrlMatchStatus::Invalid);
}

#[test]
fn supervisor_never_writes_invalid_status() {
    let (mut c, _) = supervisor(vec![setup("srv1", "1.2.3.4:27015")]);
    assert!(!c.process_server_message("1.2.3.4:27015<csctrlseptarget>CsctrlMatchStatus:banana"));
    assert!(!c.process_server_message("1.2.3.4:27015<csctrlseptarget>CsctrlMatchStatus:Invalid"));
    assert_eq!(c.data.servers[0].status, CsctrlMatchStatus::NoHook);
    assert!(c.process_server_message("1.2.3.4:27015<csctrlseptarget>CsctrlMatchStatus:PreMatchWarmup"));
    assert_eq!(c.data.servers[0].status, CsctrlMatchStatus::PreMatchWarmup);
    assert!(!c.process_server_message("9.9.9.9:27015<csctrlseptarget>CsctrlMatchStatus:Live"));
    assert_eq!(c.data.servers[0].status, CsctrlMatchStatus::PreMatchWarmup);
}

#[test]
fn rcon_relay() {
    let (mut c, spawned) = supervisor(vec![setup("srv1", "1.2.3.4:27015")]);
    assert_eq!(spawned, vec![true]);
    let f = frame_command("1.2.3.4:27015", "rcon status");
    match c.handle_command(&f) {
        Ok(CsctrlAction::SendToWorker { address, message }) => {
            assert_eq!(address, "1.2.3.4:27015");
            assert_eq!(message, "rcon status");
        }
        _ => panic!("expected a mailbox message"),
    }
}

#[test]
fn rcon_to_unknown_server() {
    let (mut c, _) = supervisor(vec![setup("srv1", "1.2.3.4:27015")]);
    let f = frame_command("9.9.9.9:27015", "rcon status");
    assert!(matches!(c.handle_command(&f), Err(CsctrlError::UnknownServer { address }) if address == "9.9.9.9:27015"));
}

#[test]
fn command_errors() {
    let (mut c, _) = supervisor(vec![setup("srv1", "1.2.3.4:27015")]);
    assert!(matches!(c.handle_command("rcon status"), Err(CsctrlError::MalformedFrame)));
    let f = frame_command("1.2.3.4:27015", "no.such.command a b");
    assert!(matches!(c.handle_command(&f), Err(CsctrlError::UnknownCommand { name }) if name == "no.such.command"));
    let f = frame_command("1.2.3.4:27015", "   ");
    assert!(matches!(c.handle_command(&f), Err(CsctrlError::UnknownCommand { name }) if name.is_empty()));
    let f = frame_command("1.2.3.4:27015", "csctrl.generate.server onlyname");
    assert!(matches!(
        c.handle_command(&f),
        Err(CsctrlError::WrongArgumentCount { expected: 3, given: 1 })
    ));
    let f = frame_command("1.2.3.4:27015", "server.match.setup.load");
    assert!(matches!(c.handle_command(&f), Err(CsctrlError::WrongArgumentCount { expected: 1, given: 0 })));
}

#[test]
fn generate_server_appends_to_config() {
    let (mut c, _) = supervisor(vec![]);
    let f = frame_command("", "csctrl.generate.server  ServerB   5.6.7.8:27015 hunter2");
    assert!(matches!(c.handle_command(&f), Ok(CsctrlAction::WriteConfig)));
    assert_eq!(c.csctrl_config.servers.len(), 1);
    let s = &c.csctrl_config.servers[0];
    assert_eq!(s.name, "ServerB");
    assert_eq!(s.address, "5.6.7.8:27015");
    assert_eq!(s.rcon_password, "hunter2");
    assert_eq!(s.match_setup, "");
}

#[test]
fn generate_match_and_setup_load_and_start() {
    let (mut c, _) = supervisor(vec![setup("srv1", "1.2.3.4:27015")]);
    let f = frame_command("1.2.3.4:27015", "csctrl.generate.match TeamA-v-TeamB");
    assert!(matches!(c.handle_command(&f), Ok(CsctrlAction::CreateMatchSetupFile { file_name }) if file_name == "TeamA-v-TeamB.json"));
    let f = frame_command("1.2.3.4:27015", "server.match.setup.load default");
    assert!(matches!(
        c.handle_command(&f),
        Ok(CsctrlAction::SendMatchSetupFile { address, file_name }) if address == "1.2.3.4:27015" && file_name == "default"
    ));
    let f = frame_command("1.2.3.4:27015", "server.match.start");
    assert!(matches!(
        c.handle_command(&f),
        Ok(CsctrlAction::SendToWorker { address, message }) if address == "1.2.3.4:27015" && message == "server.match.start"
    ));
}

#[test]
fn server_select_by_address_then_name() {
    let (mut c, _) = supervisor(vec![setup("srv1", "1.2.3.4:27015"), setup("srv2", "5.6.7.8:27015")]);
    let f = frame_command("", "terminal.server.select 5.6.7.8:27015");
    assert!(matches!(c.handle_command(&f), Ok(CsctrlAction::SelectServer { address }) if address == "5.6.7.8:27015"));
    let f = frame_command("", "terminal.server.select srv1");
    assert!(matches!(c.handle_command(&f), Ok(CsctrlAction::SelectServer { address }) if address == "1.2.3.4:27015"));
    let f = frame_command("", "terminal.server.select srv9");
    assert!(matches!(c.handle_command(&f), Err(CsctrlError::UnknownServer { address }) if address == "srv9"));
}

#[test]
fn duplicate_registration() {
    let (c, spawned) = supervisor(vec![
        setup("srv1", "1.2.3.4:27015"),
        setup("srv1-again", "1.2.3.4:27015"),
        setup("srv2", "5.6.7.8:27015"),
    ]);
    assert_eq!(spawned, vec![true, false, true]);
    assert_eq!(c.data.servers.len(), 2);
    assert_eq!(c.data.servers[0].config.name, "srv1");
    assert_eq!(c.data.servers[1].config.name, "srv2");
    assert_eq!(c.data.servers[0].team_ct.score, 0);
    assert!(c.data.servers[0].team_t.players.is_empty());
    let (mut c2, _) = supervisor(vec![setup("srv1", "1.2.3.4:27015")]);
    assert!(matches!(
        c2.register_server(setup("x", "1.2.3.4:27015"), MatchSetup::blank()),
        Err(CsctrlError::DuplicateServer { address }) if address == "1.2.3.4:27015"
    ));
}

#[test]
fn chat_ready_through_tick() {
    let (mut c, _) = supervisor(vec![setup("srv1", "1.2.3.4:27015")]);
    let first = c.tick(true, None, None, None);
    assert!(first.snapshot.is_some());
    c.data.servers[0].team_ct.players.push(player("PlayerP", "U:1:42", false));
    let body = "\"PlayerP\"<5><[U:1:42]><CT>\" say \".ready\"\n";
    let record = frame_record("1.2.3.4:27015", body);
    let report = c.tick(true, None, Some(record), None);
    let s = &c.data.servers[0];
    assert!(s.team_ct.players[0].is_ready);
    assert_eq!(s.player_ready_amount, 1);
    assert!(s.is_online);
    let snapshot = report.snapshot.expect("the state changed");
    assert_eq!(snapshot.servers.len(), 1);
    assert_eq!(snapshot.servers[0].logs, c.data.servers[0].logs);
    assert_eq!(snapshot.servers[0].config.address, "1.2.3.4:27015");
    assert!(snapshot.servers[0].team_ct.players[0].is_ready);
    assert_eq!(snapshot.servers[0].player_ready_amount, 1);
    assert!(c.tick(true, None, None, None).snapshot.is_none());
}

#[test]
fn unknown_server_ignored() {
    let (mut c, _) = supervisor(vec![setup("srv1", "1.2.3.4:27015")]);
    c.tick(true, None, None, None);
    let record = frame_record("9.9.9.9:27015", "\"P\"<5><[U:1:42]><CT>\" say \".ready\"\n");
    let report = c.tick(true, None, Some(record), None);
    assert!(report.snapshot.is_none());
    assert!(!c.data.servers[0].is_online);
    assert!(c.data.servers[0].logs.is_empty());
}

#[test]
fn marker_line_ends_batch() {
    let (mut c, _) = supervisor(vec![setup("srv1", "1.2.3.4:27015")]);
    c.data.servers[0].team_ct.players.push(player("PlayerP", "U:1:42", false));
    let body = "first\nsecond\nthird\nL echo CsctrlTerminatingRconCommand\n\"PlayerP\"<5><[U:1:42]><CT>\" say \".ready\"";
    assert!(c.process_weblog(&frame_record("1.2.3.4:27015", body)));
    let s = &c.data.servers[0];
    assert_eq!(s.logs, vec!["first".to_string(), "second".to_string(), "third".to_string()]);
    assert!(!s.team_ct.players[0].is_ready);
    assert_eq!(s.player_ready_amount, 0);
    assert!(!c.process_weblog(&frame_record("1.2.3.4:27015", "CsctrlTerminatingRconCommand")));
}

#[test]
fn log_is_bounded() {
    let (mut c, _) = supervisor(vec![setup("srv1", "1.2.3.4:27015")]);
    let body: Vec<String> = (0..510).map(|i| format!("line {}", i)).collect();
    assert!(c.process_weblog(&frame_record("1.2.3.4:27015", &body.join("\n"))));
    let logs = &c.data.servers[0].logs;
    assert_eq!(logs.len(), 500);
    assert_eq!(logs[0], "line 10");
    assert_eq!(logs[499], "line 509");
}

#[test]
fn tick_reports_exit_when_terminal_closes() {
    let (mut c, _) = supervisor(vec![]);
    assert!(!c.has_requested_exit());
    c.tick(true, None, None, None);
    assert!(!c.has_requested_exit());
    c.tick(false, None, None, None);
    assert!(c.has_requested_exit());
}

#[test]
fn classify_lines() {
    let k = LogClassifier::new().unwrap();
    match k.classify("L 01/01/2024 - 12:00:00: \"PlayerP<5><[U:1:42]><CT>\" say_team \".unready please\"") {
        LogEvent::PlayerSay { username, steam_id, team_side, chat } => {
            assert_eq!(username, "PlayerP");
            assert_eq!(steam_id, "U:1:42");
            assert_eq!(team_side, "CT");
            assert_eq!(chat, ".unready please");
        }
        _ => panic!("expected a chat line"),
    }
    match k.classify("L 01/01/2024 - 12:00:00: \"Bob<3><[U:1:7]><>\" switched from team <Unassigned> to <TERRORIST>") {
        LogEvent::PlayerSwitchTeam { username, steam_id, team_from, team_to } => {
            assert_eq!(username, "Bob");
            assert_eq!(steam_id, "U:1:7");
            assert_eq!(team_from, "Unassigned");
            assert_eq!(team_to, "TERRORIST");
        }
        _ => panic!("expected a team change"),
    }
    assert!(matches!(k.classify("World triggered \"Round_Start\""), LogEvent::Unclassified));
}

#[test]
fn ready_and_unready_keep_count() {
    let mut s = server_with_ct_player();
    s.team_t.players.push(player("Q", "U:1:43", false));
    assert!(player_say(&mut s, "U:1:42", "gg .ready"));
    assert_eq!(s.player_ready_amount, 1);
    assert!(!player_say(&mut s, "U:1:42", ".ready"));
    assert_eq!(s.player_ready_amount, 1);
    assert!(player_say(&mut s, "U:1:43", ".ready"));
    assert_eq!(s.player_ready_amount, 2);
    assert!(player_say(&mut s, "U:1:42", ".ready .unready"));
    assert_eq!(s.player_ready_amount, 1);
    assert!(!s.team_ct.players[0].is_ready);
    assert!(s.team_t.players[0].is_ready);
    assert!(!player_say(&mut s, "U:1:99", ".ready"));
    assert!(!player_say(&mut s, "U:1:43", "hello"));
    assert_eq!(s.player_ready_amount, 1);
}

#[test]
fn team_switch_moves_player() {
    let mut s = server_with_ct_player();
    assert!(player_say(&mut s, "U:1:42", ".ready"));
    assert!(player_switch_team(&mut s, "PlayerP", "U:1:42", "TERRORIST"));
    assert!(s.team_ct.players.is_empty());
    assert_eq!(s.team_t.players.len(), 1);
    assert!(!s.team_t.players[0].is_ready);
    assert_eq!(s.player_ready_amount, 0);
    assert!(matches!(
        find_player_index_and_team_with_steamid3(&s, "U:1:42"),
        Some((TeamSide::Terrorist, 0))
    ));
    assert!(player_switch_team(&mut s, "New", "U:1:50", "CT"));
    assert!(player_switch_team(&mut s, "New", "U:1:50", "CT"));
    assert_eq!(s.team_ct.players.len(), 1);
    assert!(player_switch_team(&mut s, "PlayerP", "U:1:42", "Spectator"));
    assert!(s.team_t.players.is_empty());
    assert!(!player_switch_team(&mut s, "Ghost", "U:1:77", "Spectator"));
    assert!(find_player_index_and_team_with_steamid3(&s, "U:1:42").is_none());
}
