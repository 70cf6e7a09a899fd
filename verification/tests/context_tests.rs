use dohee::context::{
    apply_compaction, begin_compaction, compaction_prompt, copy_messages, prune_old_tool_outputs, Message, Session,
};

fn msg(role: &str, content: &str, name: Option<&str>) -> Message {
    Message::new(role, content.to_string(), name.map(|n| n.to_string()))
}

#[test]
fn test_prune_old_tool_outputs() {
    let mut messages = vec![
        msg("system", "sys", None),
        msg("tool", &"A".repeat(2000), Some("tool_a")),
        msg("user", "ok", None),
        msg("tool", &"B".repeat(2000), Some("tool_b")),
    ];

    prune_old_tool_outputs(&mut messages);

    // Tool A should be pruned because it is older than Tool B
    assert!(messages[1].content.contains("Pruned old tool output"));
    // Tool B is the most recent tool and should NOT be pruned
    assert_eq!(messages[3].content, "B".repeat(2000));
}

#[test]
fn prune_keeps_first_500_bytes_and_notes_the_cut() {
    let mut messages = vec![
        msg("tool", &"A".repeat(2000), Some("a")),
        msg("tool", "short", Some("b")),
    ];
    prune_old_tool_outputs(&mut messages);
    assert!(messages[0].content.starts_with(&"A".repeat(500)));
    assert!(!messages[0].content.starts_with(&"A".repeat(501)));
    assert!(messages[0].content.contains("Pruned old tool output"));
    assert_eq!(messages[1].content, "short");
}

#[test]
fn prune_leaves_short_and_non_tool_messages() {
    let mut messages = vec![
        msg("user", &"U".repeat(3000), None),
        msg("tool", "tiny", Some("a")),
        msg("tool", "last", Some("b")),
    ];
    prune_old_tool_outputs(&mut messages);
    assert_eq!(messages[0].content, "U".repeat(3000));
    assert_eq!(messages[1].content, "tiny");
    assert_eq!(messages[2].content, "last");
}

#[test]
fn compaction_needs_more_than_four_messages() {
    let four = vec![
        msg("system", "s", None),
        msg("user", "a", None),
        msg("assistant", "b", None),
        msg("user", "c", None),
    ];
    assert!(compaction_prompt(&four).is_none());
}

#[test]
fn compaction_prompt_lists_the_middle_of_the_history() {
    let msgs = vec![
        msg("system", "s", None),
        msg("user", "first", None),
        msg("assistant", "second", None),
        msg("user", "x", None),
        msg("assistant", "y", None),
        msg("user", "z", None),
    ];
    let p = compaction_prompt(&msgs).unwrap();
    assert!(p.contains("<|im_start|>user\nuser: first\nassistant: second\n\nProvide the summary now:"));
    assert!(!p.contains("user: x"));
    assert!(p.starts_with("<|im_start|>system\nYou are a concise summarizer."));
    assert!(p.ends_with("<|im_start|>assistant\n"));
}

#[test]
fn apply_compaction_keeps_first_and_last_three() {
    let mut msgs = vec![
        msg("system", "s", None),
        msg("user", "1", None),
        msg("assistant", "2", None),
        msg("user", "3", None),
        msg("assistant", "4", None),
        msg("user", "5", None),
    ];
    apply_compaction(&mut msgs, 2, "  the summary \n");
    assert_eq!(msgs.len(), 5);
    assert_eq!(msgs[0].content, "s");
    assert_eq!(msgs[1].role, "system");
    assert_eq!(
        msgs[1].content,
        "--- [Conversation History Summary (Generation 2)] ---\nthe summary\n-------------------------------------------------"
    );
    assert_eq!(msgs[2].content, "3");
    assert_eq!(msgs[3].content, "4");
    assert_eq!(msgs[4].content, "5");
}

#[test]
fn copied_messages_are_equal() {
    let msgs = vec![msg("user", "hi", None), msg("tool", "out", Some("grep"))];
    assert_eq!(copy_messages(&msgs), msgs);
}

#[test]
fn new_session_holds_the_prompt() {
    let s = Session::with_prompt("do it".to_string(), 77);
    assert_eq!(s.messages.len(), 1);
    assert_eq!(s.messages[0].role, "user");
    assert_eq!(s.messages[0].content, "do it");
    assert_eq!(s.created_at, 77);
    assert_eq!(s.compaction_generation, 0);
}

#[test]
fn pruning_twice_changes_nothing_more() {
    let mut messages = vec![
        msg("tool", &"A".repeat(2000), Some("a")),
        msg("tool", &"B".repeat(1500), Some("b")),
        msg("tool", "last", Some("c")),
    ];
    prune_old_tool_outputs(&mut messages);
    let once = copy_messages(&messages);
    prune_old_tool_outputs(&mut messages);
    assert_eq!(messages, once);
}

#[test]
fn compaction_advances_its_generation() {
    let short = vec![msg("system", "s", None), msg("user", "u", None)];
    let mut generation = 4u32;
    assert!(begin_compaction(&short, &mut generation).is_none());
    assert_eq!(generation, 5);

    let mut long = vec![
        msg("system", "s", None),
        msg("user", "a", None),
        msg("assistant", "b", None),
        msg("user", "c", None),
        msg("assistant", "d", None),
        msg("user", "e", None),
    ];
    let prompt = begin_compaction(&long, &mut generation).unwrap();
    assert_eq!(generation, 6);
    assert!(prompt.contains("user: a\nassistant: b\n"));
    apply_compaction(&mut long, generation, "  the summary ");
    assert_eq!(long.len(), 5);
    assert!(long[1].content.starts_with("--- [Conversation History Summary (Generation 6)] ---\nthe summary\n"));
}
