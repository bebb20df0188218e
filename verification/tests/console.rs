use bg3_debug_tool::console::{
    banner_lines, help_lines, lua_command, reset_client_lua, route_task, run_lua_command, CommandAction, Console,
    DebugConsole, DebugMessageType, LineOutcome, LuaCommand, ResetTarget, TaskRoute, CURRENT_VERSION,
};
use bg3_debug_tool::shims::Extender;
use bg3_debug_tool::history::History;
use bg3_debug_tool::shims::{ecl, esv, Config};

#[test]
fn message_kinds_by_number() {
    assert_eq!(DebugMessageType::try_from(0).unwrap(), DebugMessageType::Debug);
    assert_eq!(DebugMessageType::try_from(2).unwrap(), DebugMessageType::Osiris);
    assert_eq!(DebugMessageType::try_from(4).unwrap(), DebugMessageType::Error);
    assert_eq!(DebugMessageType::try_from(5).unwrap_err(), "Unknown DebugMessageType(5)");
    assert_eq!(DebugMessageType::try_from(4000000000).unwrap_err(), "Unknown DebugMessageType(4000000000)");
}

#[test]
fn message_colours() {
    assert_eq!(DebugMessageType::Debug.text_attributes(), 7);
    assert_eq!(DebugMessageType::Info.text_attributes(), 15);
    assert_eq!(DebugMessageType::Osiris.text_attributes(), 11);
    assert_eq!(DebugMessageType::Warning.text_attributes(), 6);
    assert_eq!(DebugMessageType::Error.text_attributes(), 12);
}

#[test]
fn output_is_held_back_only_in_silent_typing() {
    let mut c = Console { enabled: true, input_enabled: false, silence: true };
    assert!(c.echoes());
    c.input_enabled = true;
    assert!(!c.echoes());
    c.silence = false;
    assert!(c.echoes());
    c.enabled = false;
    assert!(!c.echoes());
}

#[test]
fn console_starts_in_configured_context() {
    let c = DebugConsole::new(Config::new());
    assert!(c.server_context);
    assert!(c.console.enabled);
    assert_eq!(c.prompt(), "S >> ");
    let mut cfg = Config::new();
    cfg.default_to_client_console = true;
    assert_eq!(DebugConsole::new(cfg).prompt(), "C >> ");
}

#[test]
fn special_commands() {
    let mut c = DebugConsole::new(Config::new());
    assert!(matches!(c.handle_command(""), CommandAction::Nothing));
    assert!(matches!(c.handle_command("client"), CommandAction::Notice("Switching to client context.")));
    assert!(!c.server_context);
    assert!(matches!(c.handle_command("server"), CommandAction::Notice("Switching to server context.")));
    assert!(c.server_context);
    assert!(matches!(c.handle_command("cilent"), CommandAction::Lua(_)));
    assert!(c.server_context);
    assert!(matches!(c.handle_command("client"), CommandAction::Notice(_)));
    assert!(!c.server_context);
    assert!(matches!(c.handle_command("silence on"), CommandAction::Notice("Silent mode ON")));
    assert!(c.console.silence);
    assert!(matches!(c.handle_command("silence off"), CommandAction::Notice("Silent mode OFF")));
    assert!(!c.console.silence);
    assert!(matches!(c.handle_command("reset"), CommandAction::Reset(ResetTarget::Both)));
    assert!(matches!(c.handle_command("reset server"), CommandAction::Reset(ResetTarget::Server)));
    assert!(matches!(c.handle_command("reset client"), CommandAction::Reset(ResetTarget::Client)));
    assert!(matches!(c.handle_command("clear"), CommandAction::Clear));
    assert!(matches!(c.handle_command("help"), CommandAction::Help));
    match c.handle_command("print(1)") {
        CommandAction::Lua(s) => assert_eq!(s, "print(1)"),
        other => panic!("unexpected {:?}", other),
    }
}

#[test]
fn multi_line_commands() {
    let mut c = DebugConsole::new(Config::new());
    assert!(matches!(c.on_line("--[[\r\n"), LineOutcome::Continue));
    assert!(c.multi_line_mode);
    assert_eq!(c.prompt(), "S -->> ");
    assert!(matches!(c.on_line("local x = 1   \n"), LineOutcome::Continue));
    assert!(matches!(c.on_line("print(x)\n"), LineOutcome::Continue));
    match c.on_line("]]--\n") {
        LineOutcome::Command(CommandAction::Lua(s)) => assert_eq!(s, "local x = 1\nprint(x)\n"),
        other => panic!("unexpected {:?}", other),
    }
    assert!(!c.multi_line_mode);
    assert!(matches!(c.on_line("exit\r\n"), LineOutcome::Exit));
    assert!(matches!(c.on_line("help\n"), LineOutcome::Command(CommandAction::Help)));
}

#[test]
fn tasks_need_a_running_state() {
    assert!(matches!(route_task(true, Some(esv::GameState::Running), None), TaskRoute::Server));
    assert!(matches!(route_task(true, Some(esv::GameState::Paused), None), TaskRoute::Server));
    match route_task(true, Some(esv::GameState::Menu), None) {
        TaskRoute::Refused(m) => assert_eq!(m, "Cannot queue server commands in game state "),
        other => panic!("unexpected {:?}", other),
    }
    match route_task(true, None, Some(ecl::GameState::Running)) {
        TaskRoute::Refused(m) => {
            assert_eq!(m, "Cannot queue server commands when the server state machine is not initialized")
        }
        other => panic!("unexpected {:?}", other),
    }
    assert!(matches!(route_task(false, None, Some(ecl::GameState::Lobby)), TaskRoute::Client));
    match route_task(false, Some(esv::GameState::Running), None) {
        TaskRoute::Refused(m) => {
            assert_eq!(m, "Cannot queue client commands when the client state machine is not initialized")
        }
        other => panic!("unexpected {:?}", other),
    }
}

#[test]
fn lua_commands_and_events() {
    match lua_command("!spawn goblin") {
        LuaCommand::Event(s) => assert_eq!(s, "spawn goblin"),
        other => panic!("unexpected {:?}", other),
    }
    match lua_command("print('!')") {
        LuaCommand::Chunk(s) => assert_eq!(s, "print('!')"),
        other => panic!("unexpected {:?}", other),
    }
}

#[test]
fn history_browses_back_and_forth() {
    let mut h = History::new(100);
    assert_eq!(h.prev("typed"), None);
    h.insert("first".to_string());
    h.insert("second".to_string());
    assert_eq!(h.prev("draft"), Some("second"));
    assert_eq!(h.prev("ignored"), Some("first"));
    assert_eq!(h.prev("ignored"), Some("first"));
    assert_eq!(h.next(), Some("second"));
    assert_eq!(h.next(), Some("draft"));
    assert_eq!(h.next(), Some("draft"));
}

#[test]
fn history_three_steps_back_and_three_forward() {
    let mut h = History::new(5);
    h.insert("one".to_string());
    h.insert("two".to_string());
    h.insert("three".to_string());
    assert_eq!(h.prev("editing"), Some("three"));
    assert_eq!(h.prev("x"), Some("two"));
    assert_eq!(h.prev("y"), Some("one"));
    assert_eq!(h.pos, 3);
    assert_eq!(h.next(), Some("two"));
    assert_eq!(h.next(), Some("three"));
    assert_eq!(h.next(), Some("editing"));
    assert_eq!(h.pos, 0);
}

#[test]
fn history_keeps_its_size() {
    let mut h = History::new(2);
    h.insert("a".to_string());
    h.insert("b".to_string());
    h.insert("c".to_string());
    assert_eq!(h.buf, vec!["c".to_string(), "b".to_string()]);
    assert_eq!(h.prev(""), Some("c"));
    assert_eq!(h.prev(""), Some("b"));
    assert_eq!(h.prev(""), Some("b"));
}

#[test]
fn history_forward_without_browsing() {
    let mut h = History::new(3);
    assert_eq!(h.next(), None);
    h.insert("x".to_string());
    assert_eq!(h.next(), None);
}

#[test]
fn banner_and_help_text() {
    let lines = banner_lines("2024-01-01 00:00:00");
    assert_eq!(lines.len(), 7);
    assert_eq!(lines[0], "*".repeat(78));
    assert_eq!(lines[1], format!("*{}*", " ".repeat(76)));
    assert_eq!(lines[2], format!("*{:^76}*", "BG3 Script Extender Debug Console"));
    assert_eq!(lines[3], lines[1]);
    assert_eq!(lines[4], lines[0]);
    assert_eq!(lines[5], "");
    assert_eq!(lines[6], format!("BG3Ext v{CURRENT_VERSION} built on 2024-01-01 00:00:00"));
    assert_eq!(CURRENT_VERSION, 12);
    let help = help_lines();
    assert_eq!(help.len(), 10);
    assert_eq!(help[1], "  server - Switch to server context");
    assert_eq!(help[8], "  exit - Leave console mode");
}

#[test]
fn lua_commands_run_on_the_stand_in_runtime() {
    let extender = Extender::new();
    assert_eq!(run_lua_command(&extender, "print(1)"), None);
    assert_eq!(run_lua_command(&extender, "!hello world"), None);
    assert!(reset_client_lua(&extender));
    assert_eq!(ResetTarget::Both.notice(), "Resetting Lua states.");
    assert_eq!(ResetTarget::Server.notice(), "Resetting server Lua state.");
    assert_eq!(ResetTarget::Client.notice(), "Resetting client Lua state,");
}
