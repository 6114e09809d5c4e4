use csctrl::server::{next_command_step, CommandRunStep, CsctrlServer, WorkerAction};
use csctrl::terminal::{validate_input_char, KeyInput, KeyOutcome, TerminalUiState};
use csctrl::types::{CsctrlServerSetup, MatchSetup};

fn worker() -> CsctrlServer {
    let setup = CsctrlServerSetup {
        name: "srv1".to_string(),
        address: "1.2.3.4:27015".to_string(),
        rcon_password: "pw".to_string(),
        match_setup: String::new(),
    };
    CsctrlServer::csctrl_server(&setup, "csctrl")
}

#[test]
fn match_start_plan() {
    let mut w = worker();
    w.adopt_match_setup(MatchSetup {
        team_a_name: "A".to_string(),
        team_b_name: "B".to_string(),
        knife_round: false,
        cfg_filename: "default".to_string(),
        player_amount: 10,
    });
    match w.handle_thread_message("server.match.start") {
        WorkerAction::ReadMatchCfg { file_name } => assert_eq!(file_name, "default"),
        _ => panic!("expected a cfg read"),
    }
    let plan = w.match_start_commands("mp_maxrounds 24\r\nmp_freezetime 15\r\n");
    assert_eq!(
        plan,
        vec![
            "say [csctrl] Loading match...",
            "mp_teamname_1 \"A\"",
            "mp_teamname_2 \"B\"",
            "mp_maxrounds 24",
            "mp_freezetime 15",
            "mp_warmup_pausetimer 1",
            "mp_warmup_start",
            "say [csctrl] WARMUP START",
            "say [csctrl] Type '.ready' or '.unready' to change your readiness status",
        ]
    );
    assert_eq!(w.finish_commands(true, true).unwrap(), "1.2.3.4:27015<csctrlseptarget>CsctrlMatchStatus:PreMatchWarmup");
    assert!(w.finish_commands(false, true).is_none());
    assert!(w.finish_commands(true, false).is_none());
}

#[test]
fn cfg_blank_lines_are_skipped() {
    let w = worker();
    let plan = w.match_start_commands("\n\nsv_cheats 0\n\r\n");
    assert_eq!(plan.len(), 8);
    assert_eq!(plan[3], "sv_cheats 0");
    assert_eq!(plan[0], "say [csctrl] Loading match...");
    assert_eq!(plan[1], "mp_teamname_1 \"\"");
}

#[test]
fn worker_messages() {
    let w = worker();
    match w.handle_thread_message("rcon   mp_restartgame   1") {
        WorkerAction::Rcon { commands } => assert_eq!(commands, vec!["mp_restartgame   1".to_string()]),
        _ => panic!("expected an rcon command"),
    }
    match w.handle_thread_message("rcon say  hi \n") {
        WorkerAction::Rcon { commands } => assert_eq!(commands, vec!["say  hi".to_string()]),
        _ => panic!("expected an rcon command"),
    }
    match w.handle_thread_message("rcon") {
        WorkerAction::Rcon { commands } => assert_eq!(commands, vec![String::new()]),
        _ => panic!("expected an rcon command"),
    }
    assert!(matches!(w.handle_thread_message("rconx status"), WorkerAction::Unrecognized));
    assert!(matches!(w.handle_thread_message("{\"team_a_name\":\"A\"}"), WorkerAction::Unrecognized));
    assert!(matches!(w.handle_thread_message(""), WorkerAction::Unrecognized));
    assert_eq!(w.generate_say_command("hi"), "say [csctrl] hi");
    assert_eq!(w.message_to_main_thread("x"), "1.2.3.4:27015<csctrlseptarget>x");
}

#[test]
fn input_chars() {
    assert!(validate_input_char(&'a'));
    assert!(validate_input_char(&' '));
    assert!(validate_input_char(&'~'));
    assert!(!validate_input_char(&'é'));
    assert!(!validate_input_char(&'\u{7f}'));
    assert!(!validate_input_char(&'\n'));
}

#[test]
fn terminal_keys() {
    let mut t = TerminalUiState::new();
    t.set_selected_server_address("1.2.3.4:27015");
    assert!(matches!(t.handle_key(KeyInput::Enter), KeyOutcome::Nothing));
    for c in "rcon statuss".chars() {
        assert!(matches!(t.handle_key(KeyInput::Char(c)), KeyOutcome::Nothing));
    }
    t.handle_key(KeyInput::Char('ü'));
    t.handle_key(KeyInput::Backspace);
    assert_eq!(t.input_text(), "rcon status");
    match t.handle_key(KeyInput::Enter) {
        KeyOutcome::Emit(f) => assert_eq!(f, "<csctrlseptarget>1.2.3.4:27015<csctrlseptarget>rcon status"),
        _ => panic!("expected a frame"),
    }
    assert_eq!(t.input_text(), "");
    assert_eq!(t.selected_server_address(), "1.2.3.4:27015");
    assert!(matches!(t.handle_key(KeyInput::Escape), KeyOutcome::Close));
}

#[test]
fn command_run_stops_at_first_failure() {
    assert!(matches!(next_command_step(3, 0, true), CommandRunStep::Execute(0)));
    assert!(matches!(next_command_step(3, 2, true), CommandRunStep::Execute(2)));
    assert!(matches!(next_command_step(3, 3, true), CommandRunStep::Finished(true)));
    assert!(matches!(next_command_step(3, 1, false), CommandRunStep::Finished(false)));
    assert!(matches!(next_command_step(0, 0, true), CommandRunStep::Finished(true)));
}
