use dohee::agent::{
    approval_answer, ensure_system_prompt, gpu_layers_for, needs_compaction, record_completion,
    record_tool_run, requires_approval, session_id_for, should_stop_sampling, system_prompt,
    AgentEvent, CompletionOutcome, ToolDescriptor, ToolRun, TurnLoop, TurnStart,
};
use dohee::context::Message;
use dohee::sandbox::SandboxPolicy;
use dohee::toolcall::{parse_tool_calls, validate_formatting};

#[test]
fn test_parse_tool_calls() {
    let text = "Thinking...\n<run_shell>cargo test</run_shell>\nAnd <write_file path=\"test.rs\">fn main() {}</write_file>";
    let calls = parse_tool_calls(text);

    assert_eq!(calls.len(), 2);
    assert_eq!(calls[0].name, "write_file");
    assert_eq!(calls[0].arg("path").unwrap(), "test.rs");
    assert_eq!(calls[0].arg("content").unwrap(), "fn main() {}");
    assert_eq!(calls[1].name, "run_shell");
    assert_eq!(calls[1].arg("command").unwrap(), "cargo test");
}

#[test]
fn test_validate_formatting() {
    let bad_text = "Let's run: <run_shell>.";
    assert!(validate_formatting(bad_text).is_some());

    let good_text = "Let's run: <run_shell>.</run_shell>";
    assert!(validate_formatting(good_text).is_none());
}

#[test]
fn parse_reads_every_kind_of_call() {
    let text = "<list_dir> src </list_dir><read_file>a.rs</read_file>\
<edit_file path=\"b.rs\"><find>x</find><replace>y</replace></edit_file>\
<find_definition path=\"src\">Foo</find_definition><list_symbols>c.rs</list_symbols>";
    let calls = parse_tool_calls(text);
    let names: Vec<&str> = calls.iter().map(|c| c.name.as_str()).collect();
    assert_eq!(
        names,
        vec!["list_dir", "read_file", "edit_file", "find_definition", "list_symbols"]
    );
    assert_eq!(calls[0].arg("path").unwrap(), "src");
    assert_eq!(calls[1].arg("path").unwrap(), "a.rs");
    assert_eq!(calls[2].arg("path").unwrap(), "b.rs");
    assert_eq!(calls[2].arg("find").unwrap(), "x");
    assert_eq!(calls[2].arg("replace").unwrap(), "y");
    assert_eq!(calls[3].arg("symbol").unwrap(), "Foo");
    assert_eq!(calls[3].arg("path").unwrap(), "src");
    assert_eq!(calls[4].arg("path").unwrap(), "c.rs");
    assert!(calls[0].arg("missing").is_none());
}

#[test]
fn parse_finds_nothing_in_plain_text() {
    assert!(parse_tool_calls("no tools here").is_empty());
}

#[test]
fn unclosed_write_names_its_tag() {
    let e = validate_formatting("<write_file path=\"a\">x").unwrap();
    assert!(e.contains("<write_file"));
    assert!(e.contains("</write_file>"));
}

#[test]
fn turn_loop_stops_after_its_budget() {
    let mut l = TurnLoop::new(2);
    match l.begin() {
        TurnStart::Run { status } => assert_eq!(status, "Turn 1/2..."),
        TurnStart::Stop => panic!("should run"),
    }
    l.finish_turn();
    match l.begin() {
        TurnStart::Run { status } => assert_eq!(status, "Turn 2/2..."),
        TurnStart::Stop => panic!("should run"),
    }
    l.finish_turn();
    assert!(matches!(l.begin(), TurnStart::Stop));
}

#[test]
fn compaction_threshold_keeps_512_tokens_free() {
    assert!(!needs_compaction(7680, 8192));
    assert!(needs_compaction(7681, 8192));
    assert!(needs_compaction(1, 100));
    assert!(!needs_compaction(0, 100));
}

#[test]
fn sampling_stops_at_closing_tags() {
    assert!(should_stop_sampling("ok<|im_end|>"));
    assert!(should_stop_sampling("<run_shell>ls</run_shell>"));
    assert!(!should_stop_sampling("<run_shell>ls"));
}

#[test]
fn malformed_completion_asks_for_a_retry() {
    let mut msgs = vec![Message::new("user", "hi".to_string(), None)];
    let o = record_completion(&mut msgs, "<run_shell>ls".to_string());
    assert!(matches!(o, CompletionOutcome::Retry));
    assert_eq!(msgs.len(), 3);
    assert_eq!(msgs[1].role, "assistant");
    assert_eq!(msgs[2].role, "user");
    assert!(msgs[2].content.contains("</run_shell>"));
}

#[test]
fn completion_without_calls_is_done() {
    let mut msgs = Vec::new();
    let o = record_completion(&mut msgs, "All done.".to_string());
    assert!(matches!(o, CompletionOutcome::Done));
    assert_eq!(msgs.len(), 1);
    assert_eq!(msgs[0].content, "All done.");
}

#[test]
fn completion_with_calls_returns_them() {
    let mut msgs = Vec::new();
    match record_completion(&mut msgs, "<read_file>x</read_file>".to_string()) {
        CompletionOutcome::Calls(cs) => {
            assert_eq!(cs.len(), 1);
            assert_eq!(cs[0].name, "read_file");
        }
        _ => panic!("expected calls"),
    }
}

#[test]
fn approval_only_for_mutating_tools_in_a_sandbox() {
    let ro = SandboxPolicy::ReadOnly;
    assert!(requires_approval(&ro, "write_file"));
    assert!(requires_approval(&ro, "run_shell"));
    assert!(!requires_approval(&ro, "read_file"));
    assert!(!requires_approval(&SandboxPolicy::DangerFullAccess, "run_shell"));
}

#[test]
fn tool_runs_are_recorded() {
    let mut msgs = Vec::new();
    match record_tool_run(&mut msgs, "run_shell", ToolRun::Denied) {
        AgentEvent::Status(s) => assert_eq!(s, "Tool 'run_shell' execution denied."),
        _ => panic!(),
    }
    assert_eq!(msgs[0].content, "Error: Tool 'run_shell' execution denied by user.");
    match record_tool_run(&mut msgs, "nope", ToolRun::Missing) {
        AgentEvent::ToolResult { name, output } => {
            assert_eq!(name, "nope");
            assert_eq!(output, "Error: Tool 'nope' not found in registry.");
        }
        _ => panic!(),
    }
    match record_tool_run(&mut msgs, "grep", ToolRun::Failed("boom".to_string())) {
        AgentEvent::ToolResult { output, .. } => {
            assert_eq!(output, "Error: Tool execution failed: boom")
        }
        _ => panic!(),
    }
    record_tool_run(&mut msgs, "read_file", ToolRun::Succeeded("text".to_string()));
    assert_eq!(msgs.len(), 4);
    assert_eq!(msgs[3].role, "tool");
    assert_eq!(msgs[3].content, "text");
    assert_eq!(msgs[3].name.as_deref(), Some("read_file"));
}

#[test]
fn approval_answers() {
    assert!(approval_answer("y\n"));
    assert!(approval_answer("  YES "));
    assert!(!approval_answer("no"));
    assert!(!approval_answer(""));
}

#[test]
fn system_prompt_is_inserted_once() {
    let mut msgs = vec![Message::new("user", "hi".to_string(), None)];
    ensure_system_prompt(&mut msgs, "SYS".to_string());
    assert_eq!(msgs.len(), 2);
    assert_eq!(msgs[0].role, "system");
    assert_eq!(msgs[0].content, "SYS");
    ensure_system_prompt(&mut msgs, "OTHER".to_string());
    assert_eq!(msgs.len(), 2);
    assert_eq!(msgs[0].content, "SYS");
}

#[test]
fn system_prompt_lists_tools() {
    let tools = vec![ToolDescriptor {
        name: "read_file".to_string(),
        description: "Reads.".to_string(),
        schema: "{}".to_string(),
    }];
    let p = system_prompt(&tools);
    assert!(p.starts_with("You are Dohee (도회)"));
    assert!(p.contains("- **read_file**: Reads.\n  Parameters schema: {}\n"));
    assert!(p.ends_with("answer the user's original request.\n"));
}

#[test]
fn cpu_backend_offloads_nothing() {
    assert_eq!(gpu_layers_for("cpu", 99), 0);
    assert_eq!(gpu_layers_for("vulkan", 99), 99);
}

#[test]
fn session_ids_carry_the_time() {
    assert_eq!(session_id_for(1700000000), "session-1700000000");
}
