use dohee::tui_view::highlight_search;
use dohee::agent::AgentEvent;
use dohee::context::Message;
use dohee::sandbox::SandboxPolicy;
use dohee::tui::{AgentMode, InputMode, TuiApp, TuiCommand, UiEffect};
use dohee::tui_commands::{
    doctor_report, has_gguf_extension, model_list_text, session_list_text, session_not_found,
    HELP_TEXT,
};
use dohee::tui_input::{dispatch_action, route_key, Action, Key, KeyInput};
use dohee::tui_view::{
    agent_mode_label, composer_text, composer_title, context_usage, format_line, message_lines,
    role_prefix, LineKind, StatusBarComponent,
};

fn app() -> TuiApp {
    TuiApp::new("qwen".to_string(), "WorkspaceWrite".to_string(), 8192)
}

fn key(c: char) -> KeyInput {
    KeyInput { code: Key::Char(c), ctrl: false }
}

fn code(k: Key) -> KeyInput {
    KeyInput { code: k, ctrl: false }
}

fn slash(a: &mut TuiApp, cmd: &str) -> UiEffect {
    a.handle_slash_command(cmd, "/work".to_string())
}

#[test]
fn a_new_interface_is_ready() {
    let a = app();
    assert_eq!(a.status, "Ready");
    assert_eq!(a.input_mode, InputMode::Normal);
    assert_eq!(a.agent_mode, AgentMode::Build);
    assert!(a.messages.is_empty());
    assert_eq!(a.tokens_limit, 8192);
}

#[test]
fn help_adds_the_help_text() {
    let mut a = app();
    assert!(matches!(slash(&mut a, "  /help  "), UiEffect::Nothing));
    assert_eq!(a.messages.len(), 1);
    assert_eq!(a.messages[0].role, "system");
    assert_eq!(a.messages[0].content, HELP_TEXT);
    assert_eq!(a.selected, Some(0));
}

#[test]
fn config_set_seed_sends_an_update() {
    let mut a = app();
    match slash(&mut a, "/config set seed 42") {
        UiEffect::Send(TuiCommand::UpdateConfig { temp_bits, seed, ctx_size, sandbox_policy }) => {
            assert_eq!(temp_bits, None);
            assert_eq!(seed, Some(42));
            assert_eq!(ctx_size, None);
            assert!(sandbox_policy.is_none());
        }
        _ => panic!("expected an update"),
    }
    assert_eq!(a.status, "Updated seed to 42");
    assert_eq!(a.messages[0].content, "Configuration updated: seed = 42");
}

#[test]
fn config_set_with_a_bad_number_does_nothing() {
    let mut a = app();
    assert!(matches!(slash(&mut a, "/config set seed -4"), UiEffect::Nothing));
    assert!(matches!(slash(&mut a, "/config set seed 4294967296"), UiEffect::Nothing));
    assert!(a.messages.is_empty());
    assert_eq!(a.status, "Ready");
}

#[test]
fn config_set_context_changes_the_limit() {
    let mut a = app();
    assert!(matches!(slash(&mut a, "/config set context +4096"), UiEffect::Send(_)));
    assert_eq!(a.tokens_limit, 4096);
    assert_eq!(a.status, "Updated context size limit to 4096");
    assert_eq!(a.messages[0].content, "Configuration updated: context size limit = 4096");
}

#[test]
fn config_set_sandbox_picks_a_policy() {
    let mut a = app();
    match slash(&mut a, "/config set sandbox ReadOnly") {
        UiEffect::Send(TuiCommand::UpdateConfig { sandbox_policy, .. }) => {
            assert_eq!(sandbox_policy, Some(SandboxPolicy::ReadOnly))
        }
        _ => panic!(),
    }
    assert_eq!(a.sandbox_desc, "ReadOnly");
    match slash(&mut a, "/config set sandbox anything") {
        UiEffect::Send(TuiCommand::UpdateConfig { sandbox_policy, .. }) => assert_eq!(
            sandbox_policy,
            Some(SandboxPolicy::WorkspaceWrite { root: "/work".to_string() })
        ),
        _ => panic!(),
    }
}

#[test]
fn config_set_temperature_is_left_to_the_caller() {
    let mut a = app();
    match slash(&mut a, "/config set temp 0.5") {
        UiEffect::Temperature(t) => assert_eq!(t, "0.5"),
        _ => panic!(),
    }
    a.note_temperature("0.5");
    assert_eq!(a.status, "Updated temperature to 0.5");
    assert_eq!(a.messages[0].content, "Configuration updated: temperature = 0.5");
}

#[test]
fn unknown_keys_and_commands_are_reported() {
    let mut a = app();
    slash(&mut a, "/config set colour red");
    assert_eq!(
        a.messages[0].content,
        "Unknown configuration property 'colour'. Use temperature, seed, ctx_size, or sandbox."
    );
    slash(&mut a, "/frobnicate now");
    assert_eq!(a.messages[1].content, "Unknown slash command: /frobnicate. Type /help for assistance.");
    assert!(matches!(slash(&mut a, "   "), UiEffect::Nothing));
    assert_eq!(a.messages.len(), 2);
}

#[test]
fn config_shows_the_settings() {
    let mut a = app();
    slash(&mut a, "/config");
    assert_eq!(
        a.messages[0].content,
        "Current Configuration:\n  Model Name: qwen\n  Sandbox Policy: WorkspaceWrite\n  Token Limit: 8192\n  Tokens Used: 0"
    );
}

#[test]
fn outside_work_is_named() {
    let mut a = app();
    assert!(matches!(slash(&mut a, "/models"), UiEffect::ListModels));
    assert!(matches!(slash(&mut a, "/sessions"), UiEffect::ListSessions));
    assert!(matches!(slash(&mut a, "/doctor"), UiEffect::Doctor));
    match slash(&mut a, "/resume s-1") {
        UiEffect::Resume(id) => assert_eq!(id, "s-1"),
        _ => panic!(),
    }
    assert!(a.messages.is_empty());
    assert!(matches!(slash(&mut a, "/resume"), UiEffect::Nothing));
    assert_eq!(a.messages[0].content, "Usage: /resume <session_id>");
    assert!(matches!(slash(&mut a, "/index"), UiEffect::SpawnIndex));
    assert_eq!(a.status, "Building AST index in background...");
}

#[test]
fn resuming_replaces_the_transcript() {
    let mut a = app();
    a.resume_session("s-1", vec![Message::new("user", "old".to_string(), None)]);
    assert_eq!(a.messages.len(), 1);
    assert_eq!(a.selected, Some(0));
    assert_eq!(a.status, "Resumed session 's-1'");
    assert_eq!(session_not_found("s-9"), "Session 's-9' not found.");
}

#[test]
fn typing_and_submitting_a_prompt() {
    let mut a = app();
    let act = route_key(&mut a, key('i'));
    assert!(matches!(act, Some(Action::SetInputMode(InputMode::Insert))));
    dispatch_action(&mut a, act.unwrap(), "/w".to_string());
    assert_eq!(a.input_mode, InputMode::Insert);
    for c in "hey".chars() {
        assert!(matches!(route_key(&mut a, key(c)), Some(Action::ResetAutocomplete)));
    }
    route_key(&mut a, code(Key::Backspace));
    assert_eq!(a.input_buf, "he");
    let act = route_key(&mut a, code(Key::Enter)).unwrap();
    assert_eq!(a.input_buf, "");
    match dispatch_action(&mut a, act, "/w".to_string()) {
        UiEffect::Send(TuiCommand::SubmitPrompt { prompt, messages }) => {
            assert_eq!(prompt, "he");
            assert_eq!(messages.len(), 1);
            assert_eq!(messages[0].role, "user");
        }
        _ => panic!(),
    }
    assert_eq!(a.status, "Agent running...");
    assert_eq!(a.input_mode, InputMode::Normal);
}

#[test]
fn normal_mode_keys() {
    let mut a = app();
    assert!(matches!(route_key(&mut a, key('q')), Some(Action::Exit)));
    assert!(matches!(route_key(&mut a, key('j')), Some(Action::ScrollDown)));
    assert!(matches!(route_key(&mut a, key('G')), Some(Action::ScrollToBottom)));
    assert!(matches!(
        route_key(&mut a, KeyInput { code: Key::Char('p'), ctrl: true }),
        Some(Action::SetInputMode(InputMode::CommandPalette))
    ));
    assert!(route_key(&mut a, key('p')).is_none());
}

#[test]
fn the_palette_wraps_around() {
    let mut a = app();
    a.input_mode = InputMode::CommandPalette;
    route_key(&mut a, code(Key::Up));
    assert_eq!(a.command_palette_selected, 2);
    assert!(matches!(
        route_key(&mut a, code(Key::Enter)),
        Some(Action::SetAgentMode(AgentMode::Explore))
    ));
    route_key(&mut a, key('j'));
    assert_eq!(a.command_palette_selected, 0);
    dispatch_action(&mut a, Action::SetAgentMode(AgentMode::Plan), "/".to_string());
    assert_eq!(a.agent_mode, AgentMode::Plan);
    assert_eq!(a.input_mode, InputMode::Normal);
}

#[test]
fn approval_keys_and_answers() {
    let mut a = app();
    a.apply_agent_event(AgentEvent::ToolRequest {
        name: "run_shell".to_string(),
        args: vec![("command".to_string(), "ls".to_string())],
    });
    assert_eq!(a.input_mode, InputMode::Approval);
    assert_eq!(a.status, "Approval requested for tool 'run_shell'");
    assert!(matches!(route_key(&mut a, key('Y')), Some(Action::ApproveTool(true))));
    assert!(matches!(route_key(&mut a, code(Key::Esc)), Some(Action::ApproveTool(false))));
    assert!(matches!(
        dispatch_action(&mut a, Action::ApproveTool(false), "/".to_string()),
        UiEffect::Approve(false)
    ));
    assert_eq!(a.status, "Denied tool execution");
    assert!(a.pending_approval.is_none());
    assert_eq!(a.input_mode, InputMode::Normal);
}

#[test]
fn agent_events_update_the_transcript() {
    let mut a = app();
    a.apply_agent_event(AgentEvent::Token("Hel".to_string()));
    a.apply_agent_event(AgentEvent::Token("lo world".to_string()));
    assert_eq!(a.messages.len(), 1);
    assert_eq!(a.messages[0].content, "Hello world");
    assert_eq!(a.tokens_used, 2);
    a.apply_agent_event(AgentEvent::ToolResult { name: "grep".to_string(), output: "x".to_string() });
    assert_eq!(a.messages[1].content, "Tool output:\nx");
    assert_eq!(a.messages[1].name.as_deref(), Some("grep"));
    assert_eq!(a.status, "Tool 'grep' finished execution.");
    a.apply_agent_event(AgentEvent::Status("busy".to_string()));
    assert_eq!(a.status, "busy");
    a.apply_agent_event(AgentEvent::Finished);
    assert_eq!(a.status, "Ready");
}

#[test]
fn search_highlights_matches_in_turn() {
    let mut a = app();
    a.add_message(Message::new("user", "Find the NEEDLE".to_string(), None));
    a.add_message(Message::new("assistant", "nothing".to_string(), None));
    a.add_message(Message::new("user", "another needle".to_string(), None));
    a.input_mode = InputMode::Search;
    for c in "needle".chars() {
        route_key(&mut a, key(c));
    }
    assert_eq!(a.search_buf, "needle");
    let act = route_key(&mut a, code(Key::Enter));
    assert!(matches!(act, Some(Action::SetInputMode(InputMode::Normal))));
    assert_eq!(a.search_matches, vec![0, 2]);
    assert_eq!(a.selected, Some(0));
    assert_eq!(a.status, "Match 1/2");
    a.next_search_match();
    assert_eq!(a.selected, Some(2));
    assert_eq!(a.status, "Match 2/2");
    a.next_search_match();
    assert_eq!(a.status, "Match 1/2");
}

#[test]
fn search_without_matches_says_so() {
    let mut a = app();
    a.add_message(Message::new("user", "abc".to_string(), None));
    a.search_buf = "zzz".to_string();
    a.execute_search();
    assert_eq!(a.status, "No matches found");
    assert!(a.search_matches.is_empty());
}

#[test]
fn tab_cycles_through_completions() {
    let mut a = app();
    a.input_mode = InputMode::Insert;
    a.input_buf = "/c".to_string();
    let act = route_key(&mut a, code(Key::Tab)).unwrap();
    assert!(matches!(act, Action::CycleAutocomplete));
    dispatch_action(&mut a, Action::CycleAutocomplete, "/".to_string());
    assert_eq!(a.input_buf, "/config");
    dispatch_action(&mut a, Action::CycleAutocomplete, "/".to_string());
    assert_eq!(a.input_buf, "/config set");
    dispatch_action(&mut a, Action::CycleAutocomplete, "/".to_string());
    assert_eq!(a.input_buf, "/config");
    dispatch_action(&mut a, Action::ResetAutocomplete, "/".to_string());
    assert!(a.autocomplete_prefix.is_none());
    a.input_buf = "/zz".to_string();
    a.cycle_autocomplete();
    assert_eq!(a.input_buf, "/zz");
    assert!(a.autocomplete_prefix.is_none());
}

#[test]
fn visual_selection_is_copied() {
    let mut a = app();
    a.add_message(Message::new("user", "one".to_string(), None));
    a.add_message(Message::new("assistant", "two".to_string(), None));
    a.add_message(Message::new("user", "three".to_string(), None));
    dispatch_action(&mut a, Action::ScrollToTop, "/".to_string());
    dispatch_action(&mut a, Action::SetInputMode(InputMode::Visual), "/".to_string());
    assert_eq!(a.visual_start, Some(0));
    dispatch_action(&mut a, Action::ScrollDown, "/".to_string());
    assert_eq!(a.visual_end, Some(1));
    assert_eq!(a.selected, Some(1));
    match dispatch_action(&mut a, Action::YankSelection, "/".to_string()) {
        UiEffect::Copy { text, count } => {
            assert_eq!(text, "[user]: one\n\n[assistant]: two");
            assert_eq!(count, 2);
        }
        _ => panic!(),
    }
    assert_eq!(a.input_mode, InputMode::Normal);
    assert!(a.visual_start.is_none());
    a.note_yanked(2);
    assert_eq!(a.status, "Yanked 2 message(s) to clipboard");
}

#[test]
fn scrolling_stays_within_the_transcript() {
    let mut a = app();
    dispatch_action(&mut a, Action::ScrollDown, "/".to_string());
    assert_eq!(a.selected, None);
    a.add_message(Message::new("user", "a".to_string(), None));
    a.add_message(Message::new("user", "b".to_string(), None));
    dispatch_action(&mut a, Action::ScrollDown, "/".to_string());
    assert_eq!(a.selected, Some(1));
    dispatch_action(&mut a, Action::ScrollUp, "/".to_string());
    assert_eq!(a.selected, Some(0));
    dispatch_action(&mut a, Action::ScrollUp, "/".to_string());
    assert_eq!(a.selected, Some(0));
    dispatch_action(&mut a, Action::Exit, "/".to_string());
    assert!(a.finished);
}

#[test]
fn slash_prompts_run_as_commands() {
    let mut a = app();
    let e = dispatch_action(&mut a, Action::SubmitPrompt("/doctor".to_string()), "/".to_string());
    assert!(matches!(e, UiEffect::Doctor));
    assert!(a.messages.is_empty());
}

#[test]
fn transcript_lines_are_classified() {
    let mut in_code = false;
    assert_eq!(format_line("# Title", &mut in_code, false).0, LineKind::Heading);
    assert_eq!(format_line("  - item", &mut in_code, false).0, LineKind::Bullet);
    assert_eq!(format_line("+added", &mut in_code, true).0, LineKind::Added);
    assert_eq!(format_line("+++ b/x", &mut in_code, true).0, LineKind::Plain);
    assert_eq!(format_line("-gone", &mut in_code, true).0, LineKind::Removed);
    assert_eq!(format_line("@@ -1 +1 @@", &mut in_code, true).0, LineKind::Hunk);
    assert_eq!(format_line("+added", &mut in_code, false).0, LineKind::Plain);
    assert_eq!(format_line(" ```rust", &mut in_code, false).0, LineKind::Fence);
    assert!(in_code);
    let (k, t) = format_line("let x = 1;", &mut in_code, false);
    assert_eq!(k, LineKind::Code);
    assert_eq!(t, "  let x = 1;");
    format_line("```", &mut in_code, false);
    assert!(!in_code);
    let m = Message::new("assistant", "text\n```\ncode\n```".to_string(), None);
    let ls = message_lines(&m);
    let kinds: Vec<LineKind> = ls.iter().map(|p| p.0).collect();
    assert_eq!(kinds, vec![LineKind::Plain, LineKind::Fence, LineKind::Code, LineKind::Fence]);
    assert_eq!(role_prefix("assistant"), "› Dohee:");
    assert_eq!(role_prefix("tool"), "• Tool:");
}

#[test]
fn composer_title_suggests_completions() {
    let mut a = app();
    assert_eq!(composer_title(&a), " [NORMAL MODE - 'i' Chat / 'v' Visual / '/' Search] ");
    a.input_mode = InputMode::Insert;
    a.input_buf = "/co".to_string();
    assert_eq!(composer_title(&a), " [INSERT MODE - Suggestions: /config │ /config set] ");
    a.input_buf = "/x".to_string();
    assert_eq!(composer_title(&a), " [INSERT MODE - Slash Command] ");
    a.input_buf = "hi".to_string();
    assert_eq!(composer_text(&a), "› hi");
    a.input_mode = InputMode::Search;
    a.search_buf = "q".to_string();
    assert_eq!(composer_text(&a), " /q");
}

#[test]
fn header_and_status_bar() {
    let mut a = app();
    a.tokens_used = 12;
    assert_eq!(context_usage(&a), "12/8192");
    assert_eq!(agent_mode_label(AgentMode::Explore), "EXPLORE");
    let mut bar = StatusBarComponent::new();
    assert_eq!(bar.line(&a), "  Status: Ready  │  q: Exit  │  Ctrl+p: Commands");
    assert_eq!(bar.spinner_tick, 0);
    a.status = "Working".to_string();
    assert_eq!(bar.line(&a), "  Status: ⠋ Working  │  q: Exit  │  Ctrl+p: Commands");
    assert_eq!(bar.line(&a), "  Status: ⠙ Working  │  q: Exit  │  Ctrl+p: Commands");
    assert_eq!(bar.spinner_tick, 2);
}

#[test]
fn reports_for_outside_work() {
    assert!(has_gguf_extension("model.gguf"));
    assert!(!has_gguf_extension(".gguf"));
    assert!(!has_gguf_extension("model.GGUF"));
    assert_eq!(
        model_list_text(&["a.gguf".to_string(), "b.gguf".to_string()]),
        "Available GGUF models:\n  - a.gguf\n  - b.gguf\n"
    );
    assert_eq!(
        session_list_text(&[("s-1".to_string(), 1000)]),
        "Past Agent Sessions:\n  - ID: s-1 (Created: 1000)\n"
    );
    assert_eq!(
        doctor_report("linux", "x86_64", "CPU (Fall-back)", "ReadOnly", 8192),
        "Dohee Diagnostics System Doctor:\n  - OS Platform: linux (x86_64)\n  - Hardware Acceleration: CPU (Fall-back)\n  - Current Sandbox Policy: ReadOnly\n  - Token Limit: 8192\n"
    );
}

#[test]
fn search_matches_are_highlighted() {
    let spans = highlight_search("Find the NEEDLE here", "needle").unwrap();
    assert_eq!(
        spans,
        vec![
            ("Find the ".to_string(), false),
            ("NEEDLE".to_string(), true),
            (" here".to_string(), false)
        ]
    );
    assert_eq!(highlight_search("abc", "").unwrap(), vec![("abc".to_string(), false)]);
    assert_eq!(highlight_search("abc", "z").unwrap(), vec![("abc".to_string(), false)]);
    assert_eq!(
        highlight_search("aXa", "a").unwrap(),
        vec![("a".to_string(), true), ("X".to_string(), false), ("a".to_string(), true)]
    );
    assert_eq!(highlight_search("", "a").unwrap(), Vec::<(String, bool)>::new());
}
