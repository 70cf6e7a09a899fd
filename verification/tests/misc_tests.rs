use dohee::index::index_refresh;
use dohee::config::DoheeConfig;
use dohee::context::Message;
use dohee::engine::{
    admit_session, finish_reason, keeps_running, prompt_failed, turn_opened, AgentEvent,
    EngineConfig, EngineError, FinishReason, SessionCommand, SessionConfig, TurnRun,
};
use dohee::mcp::{classify_reply, tool_call_text, McpReply, McpRequests, ReplyStep};
use dohee::prompt::{
    chat_turns_of, strip_thinking, template_text, JinjaRenderer, PromptRenderer, PromptTemplate,
    TemplateText,
};
use dohee::providers::{
    CwdProvider, DateProvider, GitStatusProvider, OsProvider, SystemContextProvider,
};
use dohee::sandbox::{FsAccess, Sandbox, SandboxPolicy};
use dohee::text::{parse_u32, split_words};
use dohee::tui::TuiCommand;
use dohee::worker::{template_source, WorkerSettings, NO_TEMPLATE_ERROR};

#[test]
fn engine_errors_describe_themselves() {
    assert_eq!(
        EngineError::SessionLimitExceeded(2).message(),
        "Session limit exceeded: max concurrent sessions is 2"
    );
    assert_eq!(
        EngineError::ModelLoadFailed("x".to_string()).message(),
        "Failed to load model: x"
    );
    assert_eq!(
        EngineError::BackendInitFailed("b".to_string()).message(),
        "Backend initialization error: b"
    );
    assert_eq!(
        EngineError::ContextCreationFailed("c".to_string()).message(),
        "Context allocation error: c"
    );
}

#[test]
fn engine_defaults() {
    let c = EngineConfig::default();
    assert_eq!((c.gpu_layers, c.default_ctx_size, c.max_concurrent_sessions), (99, 8192, 2));
    let s = SessionConfig::defaults_in("/w".to_string());
    assert_eq!(s.ctx_size, 8192);
    assert_eq!(s.seed, 1234);
    assert!(s.use_grammar);
    assert_eq!(f32::from_bits(s.temperature_bits), 0.2);
    assert_eq!(s.sandbox_policy, SandboxPolicy::WorkspaceWrite { root: "/w".to_string() });
}

#[test]
fn sessions_beyond_the_limit_are_refused() {
    let c = EngineConfig::default();
    assert!(admit_session(&c, true).is_ok());
    assert_eq!(admit_session(&c, false), Err(EngineError::SessionLimitExceeded(2)));
}

#[test]
fn a_turn_streams_tokens_until_the_end() {
    assert!(matches!(turn_opened(), AgentEvent::Status(s) if s == "Processing turn..."));
    let mut t = TurnRun::new();
    assert!(matches!(t.on_sample(Ok(Some("a".to_string()))), Some(AgentEvent::Token(p)) if p == "a"));
    assert!(!t.done);
    assert!(t.on_sample(Ok(None)).is_none());
    assert!(t.done);
    assert!(matches!(t.finish(), AgentEvent::Finished { reason: FinishReason::Stop }));
}

#[test]
fn a_turn_without_listener_is_cancelled() {
    let mut t = TurnRun::new();
    t.on_listener_gone();
    assert!(matches!(t.finish(), AgentEvent::Finished { reason: FinishReason::Cancelled }));
    assert_eq!(finish_reason(true), FinishReason::Cancelled);
    let mut u = TurnRun::new();
    assert!(matches!(u.on_sample(Err("bad".to_string())), Some(AgentEvent::Error(e)) if e == "bad"));
    assert!(u.done);
}

#[test]
fn failed_prompts_end_the_turn_with_the_error() {
    let evs = prompt_failed("oops".to_string());
    assert_eq!(evs.len(), 2);
    assert!(matches!(&evs[0], AgentEvent::Error(e) if e == "oops"));
    assert!(matches!(&evs[1], AgentEvent::Finished { reason: FinishReason::Error(e) } if e == "oops"));
    assert!(!keeps_running(&SessionCommand::Shutdown));
    assert!(keeps_running(&SessionCommand::Cancel));
}

#[test]
fn mcp_requests_are_numbered_and_matched() {
    let mut r = McpRequests::new();
    assert_eq!(r.next_id(), 1);
    assert_eq!(r.next_id(), 2);
    let answer = McpReply { parsed: true, has_id: true, id: Some(2), error: None };
    assert_eq!(classify_reply(&answer, 2), ReplyStep::Done);
    assert_eq!(classify_reply(&answer, 3), ReplyStep::Skip);
    let note = McpReply { parsed: true, has_id: false, id: None, error: None };
    assert_eq!(classify_reply(&note, 2), ReplyStep::Skip);
    let junk = McpReply { parsed: false, has_id: false, id: None, error: None };
    assert_eq!(classify_reply(&junk, 2), ReplyStep::Skip);
    let err = McpReply { parsed: true, has_id: true, id: Some(2), error: Some("{\"code\":1}".to_string()) };
    assert_eq!(
        classify_reply(&err, 2),
        ReplyStep::Fail("MCP server error: {\"code\":1}".to_string())
    );
    assert_eq!(
        tool_call_text(&[Some("a".to_string()), None, Some("b".to_string())]),
        "ab"
    );
}

#[test]
fn sandbox_rules_follow_the_policy() {
    assert!(Sandbox::rules(&SandboxPolicy::DangerFullAccess).is_none());
    let ro = Sandbox::rules(&SandboxPolicy::ReadOnly).unwrap();
    assert_eq!(ro.len(), 1);
    assert_eq!(ro[0].path, "/");
    assert_eq!(ro[0].access, FsAccess::Read);
    let ww = Sandbox::rules(&SandboxPolicy::WorkspaceWrite { root: "/w".to_string() }).unwrap();
    assert_eq!(ww.len(), 2);
    assert_eq!(ww[1].path, "/w");
    assert_eq!(ww[1].access, FsAccess::Write);
    assert_eq!(
        SandboxPolicy::from_name("Anything", "/c".to_string()),
        SandboxPolicy::WorkspaceWrite { root: "/c".to_string() }
    );
    assert!(SandboxPolicy::DangerFullAccess.is_unrestricted());
}

#[test]
fn providers_describe_the_system() {
    assert_eq!(GitStatusProvider.name(), "git_status");
    assert_eq!(CwdProvider.name(), "cwd");
    assert_eq!(DateProvider.name(), "date");
    assert_eq!(OsProvider.name(), "os");
    assert_eq!(GitStatusProvider.summarize(false, ""), "Not a git repository or git error");
    assert_eq!(GitStatusProvider.summarize(true, " \n"), "Clean working tree");
    assert_eq!(GitStatusProvider.summarize(true, " M a.rs\n"), "Modified files:\nM a.rs");
    assert_eq!(DateProvider.describe(42), "Unix timestamp: 42");
    assert_eq!(OsProvider.describe("linux", "x86_64"), "linux (x86_64)");
    assert_eq!(CwdProvider.describe("/w"), "/w");
}

#[test]
fn thinking_blocks_are_removed() {
    assert_eq!(strip_thinking("a<thinking>x</thinking>b"), "ab");
    assert_eq!(
        strip_thinking("<thinking>1</thinking>m<thinking>2</thinking>n"),
        "mn"
    );
    assert_eq!(strip_thinking("a<thinking>open"), "a<thinking>open");
    assert_eq!(strip_thinking("<thinking>x</thinking></thinking>"), "</thinking>");
}

#[test]
fn templates_resolve() {
    assert!(matches!(
        template_text(PromptTemplate::Builtin("chatml".to_string())),
        Ok(TemplateText::Text(t)) if t.starts_with("{%- for message in messages -%}")
    ));
    assert_eq!(
        template_text(PromptTemplate::Builtin("x".to_string())).unwrap_err(),
        "Unknown built-in template name: x"
    );
    assert!(matches!(
        template_source(Some("t.jinja".to_string()), true, None),
        Ok(PromptTemplate::External(p)) if p == "t.jinja"
    ));
    assert!(matches!(
        template_source(Some("chatml".to_string()), false, Some("e".to_string())),
        Ok(PromptTemplate::Builtin(n)) if n == "chatml"
    ));
    assert!(matches!(
        template_source(None, false, Some("e".to_string())),
        Ok(PromptTemplate::Embedded(t)) if t == "e"
    ));
    assert_eq!(template_source(None, false, None).unwrap_err(), NO_TEMPLATE_ERROR);
}

#[test]
fn chat_turns_merge_roles() {
    let msgs = vec![
        Message::new("system", "sys".to_string(), None),
        Message::new("user", "hello".to_string(), None),
        Message::new("tool", "out".to_string(), Some("grep".to_string())),
        Message::new("assistant", "ok".to_string(), None),
    ];
    let ts = chat_turns_of(&msgs);
    assert_eq!(ts.len(), 3);
    assert_eq!(ts[1].role, "user");
    assert_eq!(ts[1].content, "hello\n\n[Tool Output (grep): out]");
}

#[test]
fn worker_settings_follow_updates() {
    let config = DoheeConfig::default();
    let mut w = WorkerSettings::from_config(&config, "/w".to_string());
    assert_eq!(w.seed, 1234);
    assert_eq!(w.sandbox_policy, SandboxPolicy::WorkspaceWrite { root: "/w".to_string() });
    let run = w.take_command(TuiCommand::UpdateConfig {
        temp_bits: None,
        seed: Some(7),
        ctx_size: None,
        sandbox_policy: Some(SandboxPolicy::ReadOnly),
    });
    assert!(run.is_none());
    assert_eq!(w.seed, 7);
    assert_eq!(w.ctx_size, 8192);
    assert_eq!(w.sandbox_policy, SandboxPolicy::ReadOnly);
    let run = w.take_command(TuiCommand::SubmitPrompt { prompt: "p".to_string(), messages: vec![] }).unwrap();
    assert_eq!(run.prompt, "p");
    assert_eq!(run.seed, 7);
    assert_eq!(run.ctx_size, 8192);
    assert_eq!(run.sandbox_policy, SandboxPolicy::ReadOnly);
    assert!(run.silent && run.use_grammar);
    assert_eq!(w.seed, 7);
}

#[test]
fn numbers_and_words() {
    assert_eq!(parse_u32("42"), Some(42));
    assert_eq!(parse_u32("+7"), Some(7));
    assert_eq!(parse_u32("4294967295"), Some(4294967295));
    assert_eq!(parse_u32("4294967296"), None);
    assert_eq!(parse_u32("-1"), None);
    assert_eq!(parse_u32(""), None);
    assert_eq!(parse_u32("+"), None);
    assert_eq!(parse_u32("1a"), None);
    assert_eq!(split_words("  a  bc\td\n"), vec!["a", "bc", "d"]);
}

#[test]
fn index_refreshes_only_changed_sources() {
    let abc = "ba7816bf8f01cfea414140de5dae2223b00361a396177a9cb410ff61f20015ad";
    assert_eq!(index_refresh("abc", None).unwrap(), abc);
    assert!(index_refresh("abc", Some(abc)).is_none());
    assert_eq!(index_refresh("abc", Some("stale")).unwrap(), abc);
}

fn chatml() -> JinjaRenderer {
    match template_text(PromptTemplate::Builtin("chatml".to_string())).unwrap() {
        TemplateText::Text(t) => JinjaRenderer::new(t).unwrap(),
        TemplateText::ReadFile(_) => panic!("chatml is built in"),
    }
}

#[test]
fn test_format_messages() {
    let messages = vec![
        Message::new("system", "sys prompt".to_string(), None),
        Message::new("user", "hello".to_string(), None),
    ];

    let renderer = chatml();
    let prompt = renderer.render(&messages, true).unwrap();
    println!("DEBUG_PROMPT_RENDERED: {:?}", prompt);
    assert!(prompt.contains("<|im_start|>system\nsys prompt<|im_end|>"));
    assert!(prompt.contains("<|im_start|>user\nhello<|im_end|>"));
    assert!(prompt.ends_with("<|im_start|>assistant"));
}

#[test]
fn templates_have_the_agent_filters() {
    let strip = JinjaRenderer::new("{{ 'a<thinking>x</thinking>b' | strip_thinking }}".to_string()).unwrap();
    assert_eq!(strip.render(&[], false).unwrap(), "ab");
    let raise = JinjaRenderer::new("{{ 'no tools here' | raise_exception }}".to_string()).unwrap();
    assert!(raise.render(&[], false).unwrap_err().contains("no tools here"));
    assert!(JinjaRenderer::new("{% if %}".to_string()).is_err());
}

#[test]
fn tool_outputs_render_as_user_turns() {
    let messages = vec![
        Message::new("user", "list".to_string(), None),
        Message::new("tool", "a.rs".to_string(), Some("list_dir".to_string())),
    ];
    let prompt = chatml().render(&messages, false).unwrap();
    assert!(prompt.contains("<|im_start|>user\nlist\n\n[Tool Output (list_dir): a.rs]<|im_end|>"));
    assert!(!prompt.contains("<|im_start|>assistant"));
}
