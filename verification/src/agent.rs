//! The agent's turn loop: its system prompt and the decisions it takes
//! between model completions, approvals and tool executions.
use vstd::prelude::*;
use vstd::string::*;
use crate::context::{Message, copy_opt_string};
use crate::sandbox::SandboxPolicy;
use crate::text::{
    contains_seq, decimal, decimal_string, lowercase, str_contains, str_eq, to_lowercase, trim,
    trim_str,
};
use crate::toolcall::{calls_view, formatting_error, parse_tool_calls, tool_calls_of, validate_formatting, ParsedToolCall};

verus! {

broadcast use vstd::string::group_string_axioms;

/// The opening of the system prompt: the assistant's role and the tool markup.
pub const SYSTEM_PROMPT_HEAD: &'static str = "You are Dohee (도회), an autonomous local AI coding assistant.\nYou help the user develop, debug, and understand code in their workspace.\nYou have access to the local filesystem and terminal. You execute actions by outputting special XML tags:\n\n1. List files in a directory:\n<list_dir>path</list_dir>\n\n2. Read file contents:\n<read_file>path</read_file>\n\n3. Write or overwrite a file:\n<write_file path=\"path\">\nfile content here\n</write_file>\n\n4. Edit an existing file using find and replace blocks:\n<edit_file path=\"path\"><find>exact block to find</find><replace>replacement content</replace></edit_file>\n\n5. Run a shell command in the workspace:\n<run_shell>command</run_shell>\n\n6. Find AST definition of a symbol across files:\n<find_definition>symbol</find_definition> or <find_definition path=\"path\">symbol</find_definition>\n\n7. List top-level symbols in a file:\n<list_symbols>path</list_symbols>\n\nAvailable tools details:\n";

/// The closing rules of the system prompt.
pub const SYSTEM_PROMPT_RULES: &'static str = "\nRules for Tool Use:\n- Output only ONE tool invocation per turn when performing file edits or running commands, unless they are independent reads.\n- Always use paths relative to the current working directory.\n- Provide clear explanations before using tools, but let the tool block be the main actionable output.\n- Once you invoke a tool, STOP generating text. Dohee will execute the tool, capture the output, and present it to you in the next turn.\n- Once the tool output is presented to you, synthesize the retrieved information and output a final response summarizing the findings to answer the user's original request.\n";

/// The grammar that constrains sampling to well-formed tool markup.
pub const TOOL_GRAMMAR: &'static str = "\nroot ::= (text | tool-call)*\ntext ::= ([^<] | \"<\" [^lrewf/] | \"<e\" [^d] | \"<r\" [^eu] | \"<l\" [^i] | \"<w\" [^r] | \"<f\" [^i])+\ntool-call ::= list-dir | read-file | write-file | edit-file | run-shell | find-definition | list-symbols\npath ::= \".\" | \"./\" | [a-zA-Z0-9_.-]+ (\"/\" [a-zA-Z0-9_.-]+)*\nlist-dir ::= \"<list_dir>\" path \"</list_dir>\"\nread-file ::= \"<read_file>\" path \"</read_file>\"\nwrite-file ::= \"<write_file path=\\\"\" path \"\\\">\" [^<]* \"</write_file>\"\nedit-file ::= \"<edit_file path=\\\"\" path \"\\\">\" \"<find>\" [^<]* \"</find>\" \"<replace>\" [^<]* \"</replace>\" \"</edit_file>\"\nrun-shell ::= \"<run_shell>\" [^\\r\\n<]* \"</run_shell>\"\nfind-definition ::= \"<find_definition>\" [a-zA-Z0-9_]+ \"</find_definition>\" | \"<find_definition path=\\\"\" path \"\\\">\" [a-zA-Z0-9_]+ \"</find_definition>\"\nlist-symbols ::= \"<list_symbols>\" path \"</list_symbols>\"\n";

/// What the system prompt says of one tool: its name, description and the
/// JSON text of its parameter schema.
#[derive(Debug, Clone)]
pub struct ToolDescriptor {
    pub name: String,
    pub description: String,
    pub schema: String,
}

/// The two lines that present one tool.
pub open spec fn tool_entry(t: ToolDescriptor) -> Seq<char> {
    "- **"@ + t.name@ + "**: "@ + t.description@ + "\n"@ + "  Parameters schema: "@ + t.schema@ + "\n"@
}

/// The entries of all tools, in order.
pub open spec fn tool_entries(ts: Seq<ToolDescriptor>) -> Seq<char>
    decreases ts.len(),
{
    if ts.len() == 0 {
        Seq::empty()
    } else {
        tool_entries(ts.drop_last()) + tool_entry(ts.last())
    }
}

/// The system prompt for the given tools.
pub open spec fn system_prompt_text(ts: Seq<ToolDescriptor>) -> Seq<char> {
    SYSTEM_PROMPT_HEAD@ + tool_entries(ts) + SYSTEM_PROMPT_RULES@
}

/// The system prompt that teaches the model the tool markup and presents
/// each of `tools`.
pub fn system_prompt(tools: &[ToolDescriptor]) -> (p: String)
    ensures
        p@ == system_prompt_text(tools@),
{
    let mut p = String::from_str(SYSTEM_PROMPT_HEAD);
    let ghost head = p@;
    let mut i: usize = 0;
    while i < tools.len()
        invariant
            i <= tools@.len(),
            p@ == head + tool_entries(tools@.take(i as int)),
        decreases tools.len() - i,
    {
        let t = &tools[i];
        p.append("- **");
        p.append(t.name.as_str());
        p.append("**: ");
        p.append(t.description.as_str());
        p.append("\n");
        p.append("  Parameters schema: ");
        p.append(t.schema.as_str());
        p.append("\n");
        assert(tools@.take(i + 1).drop_last() =~= tools@.take(i as int));
        i = i + 1;
    }
    assert(tools@.take(tools@.len() as int) =~= tools@);
    p.append(SYSTEM_PROMPT_RULES);
    p
}

// ---------------------------------------------------------------------------
// The turn loop
// ---------------------------------------------------------------------------
/// Where the agent is in its bounded sequence of turns.
#[derive(Debug, Clone, Copy, PartialEq, Eq)]
pub struct TurnLoop {
    /// Turns completed so far.
    pub turn: u32,
    /// Turns after which the loop stops.
    pub max_turns: u32,
}

/// What the loop does at the start of an iteration.
#[derive(Debug, Clone, PartialEq, Eq)]
pub enum TurnStart {
    /// The turn budget is spent: report that the run finished and stop.
    Stop,
    /// Run another turn, announcing it with `status`.
    Run { status: String },
}

/// The status that announces turn `turn + 1` of `max`.
pub open spec fn turn_status(turn: nat, max: nat) -> Seq<char> {
    "Turn "@ + decimal(turn + 1) + "/"@ + decimal(max) + "..."@
}

/// The number of turns the agent takes unless the model stops asking for tools.
pub const DEFAULT_MAX_TURNS: u32 = 10;

impl TurnLoop {
    /// A loop that has taken no turn and allows `max_turns`.
    pub fn new(max_turns: u32) -> (l: TurnLoop)
        ensures
            l.turn == 0,
            l.max_turns == max_turns,
    {
        TurnLoop { turn: 0, max_turns }
    }

    /// Whether another turn is allowed, and how it is announced.
    pub fn begin(&self) -> (s: TurnStart)
        ensures
            self.turn >= self.max_turns <==> (s is Stop),
            s matches TurnStart::Run { status } ==> status@ == turn_status(
                self.turn as nat,
                self.max_turns as nat,
            ),
    {
        if self.turn >= self.max_turns {
            TurnStart::Stop
        } else {
            let mut status = String::from_str("Turn ");
            let a = decimal_string(self.turn as u64 + 1);
            status.append(a.as_str());
            status.append("/");
            let b = decimal_string(self.max_turns as u64);
            status.append(b.as_str());
            status.append("...");
            TurnStart::Run { status }
        }
    }

    /// Counts one more completed turn.
    pub fn finish_turn(&mut self)
        requires
            old(self).turn < old(self).max_turns,
        ensures
            final(self).turn == old(self).turn + 1,
            final(self).max_turns == old(self).max_turns,
    {
        self.turn = self.turn + 1;
    }
}

/// Tokens kept free for the completion when judging the prompt's size.
pub const COMPLETION_RESERVE: u32 = 512;

/// The largest prompt, in tokens, that needs no compaction.
pub open spec fn prompt_limit(ctx_size: u32) -> nat {
    if ctx_size >= COMPLETION_RESERVE {
        (ctx_size - COMPLETION_RESERVE) as nat
    } else {
        0
    }
}

/// Whether a prompt of `token_count` tokens must be compacted in a context of
/// `ctx_size` tokens.
pub fn needs_compaction(token_count: usize, ctx_size: u32) -> (b: bool)
    ensures
        b == (token_count > prompt_limit(ctx_size)),
{
    let limit = ctx_size.saturating_sub(COMPLETION_RESERVE);
    token_count > limit as usize
}

/// A marker after which sampling stops: an end of turn or a closing tool tag.
pub open spec fn stop_marker_in(t: Seq<char>) -> bool {
    ||| contains_seq(t, "<|im_end|>"@)
    ||| contains_seq(t, "<end_of_turn>"@)
    ||| contains_seq(t, "</list_dir>"@)
    ||| contains_seq(t, "</read_file>"@)
    ||| contains_seq(t, "</write_file>"@)
    ||| contains_seq(t, "</edit_file>"@)
    ||| contains_seq(t, "</run_shell>"@)
    ||| contains_seq(t, "</find_definition>"@)
    ||| contains_seq(t, "</list_symbols>"@)
}

/// Whether the completion so far ends the model's turn.
pub fn should_stop_sampling(completion: &str) -> (b: bool)
    ensures
        b == stop_marker_in(completion@),
{
    str_contains(completion, "<|im_end|>") || str_contains(completion, "<end_of_turn>")
        || str_contains(completion, "</list_dir>") || str_contains(completion, "</read_file>")
        || str_contains(completion, "</write_file>") || str_contains(completion, "</edit_file>")
        || str_contains(completion, "</run_shell>") || str_contains(completion, "</find_definition>")
        || str_contains(completion, "</list_symbols>")
}

/// What a finished completion leads to.
#[derive(Debug, Clone)]
pub enum CompletionOutcome {
    /// The markup was malformed; the model was asked to correct it.
    Retry,
    /// No tool was requested: the task is complete.
    Done,
    /// These tools were requested, in order.
    Calls(Vec<ParsedToolCall>),
}

/// Records a completion in the history and decides what follows. A completion
/// with an unclosed action tag is recorded with a correction from the user
/// and asks for a retry; otherwise it is recorded alone and its tool calls,
/// if any, are returned.
pub fn record_completion(messages: &mut Vec<Message>, completion: String) -> (o: CompletionOutcome)
    ensures
        formatting_error(completion@) matches Some(e) ==> {
            &&& o is Retry
            &&& final(messages)@.len() == old(messages)@.len() + 2
            &&& final(messages)@.take(old(messages)@.len() as int) == old(messages)@
            &&& final(messages)@[old(messages)@.len() as int].role@ == "assistant"@
            &&& final(messages)@[old(messages)@.len() as int].content == completion
            &&& final(messages)@[old(messages)@.len() as int].name is None
            &&& final(messages)@[old(messages)@.len() + 1int].role@ == "user"@
            &&& final(messages)@[old(messages)@.len() + 1int].content@ == e
            &&& final(messages)@[old(messages)@.len() + 1int].name is None
        },
        formatting_error(completion@) is None ==> {
            &&& final(messages)@.len() == old(messages)@.len() + 1
            &&& final(messages)@.take(old(messages)@.len() as int) == old(messages)@
            &&& final(messages)@[old(messages)@.len() as int].role@ == "assistant"@
            &&& final(messages)@[old(messages)@.len() as int].content == completion
            &&& final(messages)@[old(messages)@.len() as int].name is None
            &&& tool_calls_of(completion@).len() == 0 ==> o is Done
            &&& tool_calls_of(completion@).len() > 0 ==> (o matches CompletionOutcome::Calls(cs)
                && calls_view(cs@) == tool_calls_of(completion@))
        },
{
    let ghost orig = messages@;
    match validate_formatting(completion.as_str()) {
        Some(err) => {
            messages.push(Message::new("assistant", completion, None));
            messages.push(Message::new("user", err, None));
            assert(messages@.take(orig.len() as int) =~= orig);
            CompletionOutcome::Retry
        },
        None => {
            let calls = parse_tool_calls(completion.as_str());
            messages.push(Message::new("assistant", completion, None));
            assert(messages@.take(orig.len() as int) =~= orig);
            if calls.len() == 0 {
                CompletionOutcome::Done
            } else {
                CompletionOutcome::Calls(calls)
            }
        },
    }
}

/// A tool whose invocation needs the user's approval under a restricting policy.
pub open spec fn is_mutating_tool(name: Seq<char>) -> bool {
    name == "write_file"@ || name == "edit_file"@ || name == "run_shell"@
}

/// Whether calling `tool_name` under `policy` needs the user's approval: only
/// mutating tools do, and only when the policy restricts commands.
pub fn requires_approval(policy: &SandboxPolicy, tool_name: &str) -> (b: bool)
    ensures
        b == (!(*policy is DangerFullAccess) && is_mutating_tool(tool_name@)),
{
    match policy {
        SandboxPolicy::DangerFullAccess => false,
        _ => str_eq(tool_name, "write_file") || str_eq(tool_name, "edit_file") || str_eq(
            tool_name,
            "run_shell",
        ),
    }
}

/// The history entry that reports a tool call the user refused.
pub open spec fn denied_text(name: Seq<char>) -> Seq<char> {
    "Error: Tool '"@ + name + "' execution denied by user."@
}

/// The history entry that reports a tool that is not registered.
pub open spec fn missing_text(name: Seq<char>) -> Seq<char> {
    "Error: Tool '"@ + name + "' not found in registry."@
}

/// The history entry that reports a tool that failed, given its error text.
pub open spec fn failure_text(error: Seq<char>) -> Seq<char> {
    "Error: Tool execution failed: "@ + error
}

/// A tool message with the given content.
pub open spec fn is_tool_entry(m: Message, name: Seq<char>, content: Seq<char>) -> bool {
    &&& m.role@ == "tool"@
    &&& m.content@ == content
    &&& m.name matches Some(n) && n@ == name
}

fn tool_message(name: &str, content: String) -> (m: Message)
    ensures
        is_tool_entry(m, name@, content@),
{
    Message::new("tool", content, Some(String::from_str(name)))
}

/// The tool message that records a refused call of `name`.
pub fn denied_message(name: &str) -> (m: Message)
    ensures
        is_tool_entry(m, name@, denied_text(name@)),
{
    let mut c = String::from_str("Error: Tool '");
    c.append(name);
    c.append("' execution denied by user.");
    tool_message(name, c)
}

/// The tool message that records a call of an unregistered tool `name`.
pub fn missing_message(name: &str) -> (m: Message)
    ensures
        is_tool_entry(m, name@, missing_text(name@)),
{
    let mut c = String::from_str("Error: Tool '");
    c.append(name);
    c.append("' not found in registry.");
    tool_message(name, c)
}

/// The tool message that records the failure of `name`, given the error's text.
pub fn failure_message(name: &str, error: &str) -> (m: Message)
    ensures
        is_tool_entry(m, name@, failure_text(error@)),
{
    let mut c = String::from_str("Error: Tool execution failed: ");
    c.append(error);
    tool_message(name, c)
}

/// The tool message that records the output of `name`.
pub fn output_message(name: &str, output: String) -> (m: Message)
    ensures
        is_tool_entry(m, name@, output@),
{
    tool_message(name, output)
}

/// What the agent reports while it runs.
#[derive(Debug, Clone)]
pub enum AgentEvent {
    /// A piece of the model's reply.
    Token(String),
    /// A progress note.
    Status(String),
    /// A tool call that waits for the user's approval.
    ToolRequest { name: String, args: Vec<(String, String)> },
    /// What a tool call gave.
    ToolResult { name: String, output: String },
    /// The run is over.
    Finished,
}

/// How one requested tool call went.
#[derive(Debug, Clone)]
pub enum ToolRun {
    /// The user refused it.
    Denied,
    /// No tool of that name is registered.
    Missing,
    /// The tool ran and gave this output.
    Succeeded(String),
    /// The tool failed; this is the error's text.
    Failed(String),
}

/// Records how a call of `name` went in the history, and gives the event
/// that reports it: a status for a refused call, the tool's result otherwise.
pub fn record_tool_run(messages: &mut Vec<Message>, name: &str, run: ToolRun) -> (ev: AgentEvent)
    ensures
        final(messages)@.len() == old(messages)@.len() + 1,
        final(messages)@.drop_last() == old(messages)@,
        run is Denied ==> {
            &&& is_tool_entry(final(messages)@.last(), name@, denied_text(name@))
            &&& ev matches AgentEvent::Status(st) && st@ == "Tool '"@ + name@ + "' execution denied."@
        },
        run is Missing ==> {
            &&& is_tool_entry(final(messages)@.last(), name@, missing_text(name@))
            &&& ev matches AgentEvent::ToolResult { name: n, output } && n@ == name@ && output@
                == missing_text(name@)
        },
        run matches ToolRun::Succeeded(out) ==> {
            &&& is_tool_entry(final(messages)@.last(), name@, out@)
            &&& ev matches AgentEvent::ToolResult { name: n, output } && n@ == name@ && output
                == out
        },
        run matches ToolRun::Failed(e) ==> {
            &&& is_tool_entry(final(messages)@.last(), name@, failure_text(e@))
            &&& ev matches AgentEvent::ToolResult { name: n, output } && n@ == name@ && output@
                == failure_text(e@)
        },
{
    let ghost orig = messages@;
    let ev = match run {
        ToolRun::Denied => {
            messages.push(denied_message(name));
            AgentEvent::Status(denied_status(name))
        },
        ToolRun::Missing => {
            let m = missing_message(name);
            let out = m.content.clone();
            messages.push(m);
            AgentEvent::ToolResult { name: String::from_str(name), output: out }
        },
        ToolRun::Succeeded(out) => {
            let copy = out.clone();
            messages.push(output_message(name, out));
            AgentEvent::ToolResult { name: String::from_str(name), output: copy }
        },
        ToolRun::Failed(e) => {
            let m = failure_message(name, e.as_str());
            let out = m.content.clone();
            messages.push(m);
            AgentEvent::ToolResult { name: String::from_str(name), output: out }
        },
    };
    assert(messages@.drop_last() =~= orig);
    ev
}

/// Whether a typed answer approves a tool call: after trimming and ignoring
/// case it is `y` or `yes`.
pub fn approval_answer(input: &str) -> (b: bool)
    ensures
        b == (lowercase(trim(input@)) == "y"@ || lowercase(trim(input@)) == "yes"@),
{
    let t = trim_str(input);
    let l = to_lowercase(t.as_str());
    str_eq(l.as_str(), "y") || str_eq(l.as_str(), "yes")
}

/// The status shown when the user refused a call of `name`.
pub fn denied_status(name: &str) -> (s: String)
    ensures
        s@ == "Tool '"@ + name@ + "' execution denied."@,
{
    let mut s = String::from_str("Tool '");
    s.append(name);
    s.append("' execution denied.");
    s
}

/// The status shown while `name` executes.
pub fn executing_status(name: &str) -> (s: String)
    ensures
        s@ == "Executing tool '"@ + name@ + "'..."@,
{
    let mut s = String::from_str("Executing tool '");
    s.append(name);
    s.append("'...");
    s
}

/// Some message of the history is a system message.
pub open spec fn has_system_message(msgs: Seq<Message>) -> bool {
    exists|i: int| 0 <= i < msgs.len() && #[trigger] msgs[i].role@ == "system"@
}

/// Puts the system prompt first in the history unless the history already
/// holds a system message.
pub fn ensure_system_prompt(messages: &mut Vec<Message>, prompt: String)
    ensures
        has_system_message(old(messages)@) ==> final(messages)@ == old(messages)@,
        !has_system_message(old(messages)@) ==> {
            &&& final(messages)@.len() == old(messages)@.len() + 1
            &&& final(messages)@[0].role@ == "system"@
            &&& final(messages)@[0].content == prompt
            &&& final(messages)@[0].name is None
            &&& final(messages)@.skip(1) == old(messages)@
        },
{
    let mut i: usize = 0;
    while i < messages.len()
        invariant
            i <= messages@.len(),
            forall|j: int| 0 <= j < i ==> messages@[j].role@ != "system"@,
        decreases messages.len() - i,
    {
        if str_eq(messages[i].role.as_str(), "system") {
            return;
        }
        i = i + 1;
    }
    let ghost before = messages@;
    messages.insert(0, Message::new("system", prompt, None));
    assert(messages@.skip(1) =~= before);
}

/// The layers offloaded to the GPU: none on the CPU backend.
pub fn gpu_layers_for(backend: &str, gpu_layers: u32) -> (n: u32)
    ensures
        n == if backend@ == "cpu"@ {
            0
        } else {
            gpu_layers
        },
{
    if str_eq(backend, "cpu") {
        0
    } else {
        gpu_layers
    }
}

/// The id of a session started `secs` seconds after the Unix epoch.
pub fn session_id_for(secs: u64) -> (id: String)
    ensures
        id@ == "session-"@ + decimal(secs as nat),
{
    let mut id = String::from_str("session-");
    let d = decimal_string(secs);
    id.append(d.as_str());
    id
}


/// A prompt is compacted exactly when it takes more tokens than the context
/// holds once 512 tokens are kept for the completion (all of a context
/// smaller than that).
pub proof fn law_compaction_threshold(token_count: nat, ctx_size: u32)
    ensures
        ctx_size >= 512 ==> ((token_count > prompt_limit(ctx_size)) <==> token_count + 512 > ctx_size),
        ctx_size < 512 ==> ((token_count > prompt_limit(ctx_size)) <==> token_count > 0),
{
}

/// Under a restricting sandbox policy, exactly the tools that write files or
/// run commands (write_file, edit_file, run_shell) need approval; reading and
/// searching tools never do.
pub proof fn law_approval_for_mutating_tools(name: Seq<char>)
    ensures
        is_mutating_tool(name) <==> (name == "write_file"@ || name == "edit_file"@ || name == "run_shell"@),
        !is_mutating_tool("read_file"@),
        !is_mutating_tool("list_dir"@),
        !is_mutating_tool("grep"@),
        !is_mutating_tool("find_definition"@),
        !is_mutating_tool("list_symbols"@),
        !is_mutating_tool("web_search"@),
        !is_mutating_tool("web_fetch"@),
{
    reveal_strlit("write_file");
    reveal_strlit("edit_file");
    reveal_strlit("run_shell");
    reveal_strlit("read_file");
    reveal_strlit("list_dir");
    reveal_strlit("grep");
    reveal_strlit("find_definition");
    reveal_strlit("list_symbols");
    reveal_strlit("web_search");
    reveal_strlit("web_fetch");
    assert("read_file"@[0] != "write_file"@[0] && "read_file"@[0] != "edit_file"@[0]);
    assert("list_dir"@[0] != "run_shell"@[0] && "list_dir"@.len() != "write_file"@.len());
    assert("grep"@.len() != "write_file"@.len() && "grep"@.len() != "edit_file"@.len() && "grep"@.len() != "run_shell"@.len());
    assert("find_definition"@.len() != "write_file"@.len() && "find_definition"@.len() != "edit_file"@.len());
    assert("list_symbols"@.len() != "write_file"@.len() && "list_symbols"@.len() != "edit_file"@.len() && "list_symbols"@.len() != "run_shell"@.len());
    assert("web_search"@[0] != "edit_file"@[0] && "web_search"@[1] != "write_file"@[1] && "web_search"@[0] != "run_shell"@[0]);
    assert("web_fetch"@[0] != "edit_file"@[0] && "web_fetch"@[1] != "write_file"@[1] && "web_fetch"@[0] != "run_shell"@[0]);
    assert("read_file"@[1] != "run_shell"@[1]);
    assert("list_dir"@[0] != "edit_file"@[0]);
    assert("find_definition"@.len() != "run_shell"@.len());
}
} // verus!
