use dohee::tools::{definition_output, grep_output, url_encode};
use dohee::tools::grep_selects;
use dohee::sandbox::SandboxPolicy;
use dohee::tools::{
    ambiguous_edit_message, definition_line, dir_entry_line, grep_file, limit_output,
    plan_edit, search_url, shell_report, symbol_line, AgentMode, EditFileTool, EditPlan, GrepTool,
    ListDirTool, ReadFileTool, RunShellTool, ToolOutput, ToolRegistry, WriteFileTool,
};

#[test]
fn test_tool_registry_modes() {
    let mut reg: ToolRegistry<&'static str> = ToolRegistry::new();
    reg.register(ReadFileTool.name(), "read");
    reg.register(WriteFileTool.name(), "write");
    reg.register(EditFileTool.name(), "edit");
    reg.register(ListDirTool.name(), "list");
    reg.register(GrepTool.name(), "grep");

    let plan_reg = reg.for_mode(AgentMode::Plan);
    assert!(plan_reg.get("read_file").is_some());
    assert!(plan_reg.get("write_file").is_none());
    assert!(plan_reg.get("edit_file").is_none());

    let explore_reg = reg.for_mode(AgentMode::Explore);
    assert!(explore_reg.get("read_file").is_some());
    assert!(explore_reg.get("grep").is_some());
    assert!(explore_reg.get("write_file").is_none());
}

#[test]
fn registering_a_name_again_replaces_the_tool() {
    let mut reg: ToolRegistry<u32> = ToolRegistry::new();
    reg.register("a", 1);
    reg.register("b", 2);
    reg.register("a", 3);
    assert_eq!(reg.len(), 2);
    assert_eq!(reg.get("a"), Some(&3));
    assert_eq!(reg.list().len(), 2);
    let build = reg.for_mode(AgentMode::Build);
    assert_eq!(build.len(), 2);
}

#[test]
fn outputs_record_their_length() {
    let o = ToolOutput::new("héllo".to_string());
    assert!(!o.truncated);
    assert_eq!(o.full_length, 6);
    let t = ToolOutput::new_truncated("abc".to_string(), 10);
    assert!(t.truncated);
    assert_eq!(t.full_length, 10);
}

#[test]
fn long_outputs_are_cut() {
    let o = limit_output("abcdef".to_string(), 4);
    assert_eq!(o.content, "abcd");
    assert!(o.truncated);
    assert_eq!(o.full_length, 6);
    let k = limit_output("ab".to_string(), 4);
    assert_eq!(k.content, "ab");
    assert!(!k.truncated);
}

#[test]
fn edit_replaces_a_single_occurrence() {
    match plan_edit("apple banana cherry", "banana", "orange") {
        EditPlan::Replaced(s) => assert_eq!(s, "apple orange cherry"),
        _ => panic!("expected an edit"),
    }
    assert!(matches!(plan_edit("abc", "x", "y"), EditPlan::NotFound));
    assert!(matches!(plan_edit("aXbXc", "X", "y"), EditPlan::Ambiguous(2)));
    assert_eq!(
        ambiguous_edit_message(2),
        "Error: The 'find' block is ambiguous (found 2 occurrences)."
    );
}

#[test]
fn shell_report_shows_exit_code_and_streams() {
    let r = shell_report(0, "Hello Shell\n", "");
    assert!(r.contains("Hello Shell"));
    assert!(r.contains("Exit code: 0"));
    assert_eq!(shell_report(-1, "", "bad"), "Exit code: -1\nStderr:\nbad");
}

#[test]
fn definition_and_symbol_lines() {
    assert_eq!(
        definition_line("src/a.rs", 0, 4, "SampleStruct"),
        "src/a.rs:1:5: Definition of 'SampleStruct'\n"
    );
    assert_eq!(symbol_line(1, "pub fn sample_function() {}\nrest"), "  Line 2: pub fn sample_function() {}\n");
}

#[test]
fn directory_entries() {
    assert_eq!(dir_entry_line("src", true, 4096), "  [DIR ] src (4096 bytes)\n");
    assert_eq!(dir_entry_line("a.rs", false, 12), "  [FILE] a.rs (12 bytes)\n");
}

#[test]
fn grep_collects_matching_lines() {
    let mut results = String::new();
    let mut count = 0usize;
    grep_file(&mut results, &mut count, "a.rs", "one\ntwo foo\nfoo three\n", "foo");
    assert_eq!(count, 2);
    assert_eq!(results, "a.rs:2: two foo\na.rs:3: foo three\n");
}

#[test]
fn search_urls_are_percent_encoded() {
    assert_eq!(
        search_url("rust verus & more"),
        "https://html.duckduckgo.com/html/?q=rust%20verus%20%26%20more"
    );
    assert_eq!(search_url("a-b_c.d~"), "https://html.duckduckgo.com/html/?q=a-b_c.d~");
}

#[test]
fn url_encoding_escapes_each_reserved_byte() {
    assert_eq!(url_encode("a b/é~"), "a%20b%2F%C3%A9~");
    assert_eq!(url_encode(""), "");
    assert_eq!(url_encode("AZaz09-._"), "AZaz09-._");
}

#[test]
fn shell_tool_keeps_its_policy() {
    let t = RunShellTool::new(SandboxPolicy::ReadOnly);
    assert_eq!(t.policy, SandboxPolicy::ReadOnly);
    assert_eq!(t.name(), "run_shell");
}

#[test]
fn search_globs_select_files() {
    assert!(grep_selects("src/a.rs", Some("*.rs"), None));
    assert!(!grep_selects("README.md", Some("*.rs"), None));
    assert!(!grep_selects("src/a_test.rs", None, Some("*test*")));
    assert!(grep_selects("src/a.rs", Some("*.rs"), Some("*test*")));
    assert!(grep_selects("src/a.rs", Some("a[b"), None));
}

#[test]
fn grep_output_notes_an_empty_search() {
    let none = grep_output(String::new());
    assert_eq!(none.content, "No matches found.");
    assert!(!none.truncated);
    let some = grep_output("a.rs:1: x\n".to_string());
    assert_eq!(some.content, "a.rs:1: x\n");
    assert_eq!(some.full_length, 10);
}

#[test]
fn definition_output_notes_a_missing_symbol() {
    let none = definition_output("Foo", String::new(), 0);
    assert_eq!(none.content, "No AST definition found for symbol 'Foo'.");
    let some = definition_output("Foo", "a.rs:1:1: Definition of 'Foo'\n".to_string(), 1);
    assert_eq!(some.content, "a.rs:1:1: Definition of 'Foo'\n");
}

#[test]
fn a_glob_too_deep_to_compile_filters_nothing() {
    let glob = format!("{}a{}", "{".repeat(300), "}".repeat(300));
    assert!(grep_selects("src/a.rs", Some(&glob), None));
    assert!(grep_selects("src/a.rs", None, Some(&glob)));
}
