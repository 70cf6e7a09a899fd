//! Slash commands typed into the composer, and the reports they show.
use vstd::prelude::*;
use vstd::string::*;
use crate::context::Message;
use crate::sandbox::{policy_named, SandboxPolicy};
use crate::text::{chars_of, concat2, decimal, decimal_string, parse_u32, parsed_u32, split_words, str_eq, words};
use crate::tui::{TuiApp, TuiCommand, UiEffect};

verus! {

broadcast use vstd::string::group_string_axioms;

/// The text that `/help` shows.
pub const HELP_TEXT: &'static str = "Available TUI Commands:\n  /help                  - Show this help message\n  /config                - Show current configuration\n  /config set <key> <val>- Set configuration parameter (temp, seed, ctx_size, sandbox)\n  /models                - List GGUF models in models/ directory\n  /sessions              - List past chat sessions from DB\n  /resume <session_id>   - Resume a past chat session from DB\n  /doctor                - Run system diagnostics (hardware, Vulkan/CUDA, sandbox)\n  /index                 - Build/refresh AST symbol index for workspace\n";

/// Shown by `/resume` without a session id.
pub const RESUME_USAGE: &'static str = "Usage: /resume <session_id>";

/// The status while the symbol index is rebuilt.
pub const INDEX_STATUS: &'static str = "Building AST index in background...";

/// The note that `/index` adds to the transcript.
pub const INDEX_NOTE: &'static str = "Triggered AST indexing. Refreshing tree-sitter workspace cache.";

/// Shown by `/models` when there is no `models/` directory.
pub const MODELS_DIR_MISSING: &'static str = "Error: models/ directory does not exist.";

/// Shown by `/sessions` when the session list cannot be read.
pub const SESSIONS_READ_FAILED: &'static str = "Failed to read sessions from database.";

/// Shown by `/sessions` when the session database cannot be opened.
pub const SESSIONS_OPEN_FAILED: &'static str = "Failed to open sessions database.";

/// Shown by `/resume` when the session database cannot be opened.
pub const SESSION_DB_FAILED: &'static str = "Failed to load session database.";

/// A system message holding `text`.
pub open spec fn is_system_message(m: Message, text: Seq<char>) -> bool {
    &&& m.role@ == "system"@
    &&& m.content@ == text
    &&& m.name is None
}

/// `n` is `o` with a system message holding `text` appended and highlighted.
pub open spec fn system_note_added(o: TuiApp, n: TuiApp, text: Seq<char>) -> bool {
    &&& n.messages@.len() == o.messages@.len() + 1
    &&& n.messages@.drop_last() == o.messages@
    &&& is_system_message(n.messages@.last(), text)
    &&& n.selected == Some(o.messages@.len() as usize)
}

/// `n` is `o` with a system note holding `text` added, and nothing else.
pub open spec fn only_note_added(o: TuiApp, n: TuiApp, text: Seq<char>) -> bool {
    &&& system_note_added(o, n, text)
    &&& n == (TuiApp { messages: n.messages, selected: n.selected, ..o })
}

/// `n` is `o` with the status set to `status` and a system note holding
/// `note` added, and nothing else.
pub open spec fn status_and_note(o: TuiApp, n: TuiApp, status: Seq<char>, note: Seq<char>) -> bool {
    &&& system_note_added(o, n, note)
    &&& n.status@ == status
    &&& n == (TuiApp { messages: n.messages, selected: n.selected, status: n.status, ..o })
}

/// The effect sends a settings update with exactly these parts.
pub open spec fn sends_update(
    e: UiEffect,
    t: Option<u32>,
    s: Option<u32>,
    c: Option<u32>,
    p: Option<SandboxPolicy>,
) -> bool {
    match e {
        UiEffect::Send(TuiCommand::UpdateConfig { temp_bits, seed, ctx_size, sandbox_policy }) => {
            temp_bits == t && seed == s && ctx_size == c && sandbox_policy == p
        },
        _ => false,
    }
}

/// The report of `/config` without `set`.
pub open spec fn config_text(model: Seq<char>, sandbox: Seq<char>, limit: nat, used: nat) -> Seq<char> {
    "Current Configuration:\n  Model Name: "@ + model + "\n  Sandbox Policy: "@ + sandbox
        + "\n  Token Limit: "@ + decimal(limit) + "\n  Tokens Used: "@ + decimal(used)
}

/// The answer to `/config set` with a key it does not know.
pub open spec fn unknown_property_text(key: Seq<char>) -> Seq<char> {
    "Unknown configuration property '"@ + key + "'. Use temperature, seed, ctx_size, or sandbox."@
}

/// The answer to a slash command it does not know.
pub open spec fn unknown_command_text(cmd: Seq<char>) -> Seq<char> {
    "Unknown slash command: "@ + cmd + ". Type /help for assistance."@
}

/// `n` and `e` are what the slash command `cmd` makes of `o`, with `cwd`
/// as the root of a workspace-write sandbox policy.
pub open spec fn slash_handled(cmd: Seq<char>, cwd: String, o: TuiApp, n: TuiApp, e: UiEffect) -> bool {
    let ws = words(cmd);
    &&& ws.len() == 0 ==> e is Nothing && n == o
    &&& ws.len() > 0 && ws[0] == "/help"@ ==> e is Nothing && only_note_added(o, n, HELP_TEXT@)
    &&& ws.len() > 0 && ws[0] == "/config"@ && !(ws.len() >= 4 && ws[1] == "set"@) ==> {
        &&& e is Nothing
        &&& only_note_added(o, n, config_text(o.model_name@, o.sandbox_desc@, o.tokens_limit as nat, o.tokens_used as nat))
    }
    &&& ws.len() >= 4 && ws[0] == "/config"@ && ws[1] == "set"@ ==> {
        let key = ws[2];
        let val = ws[3];
        &&& (key == "temperature"@ || key == "temp"@) ==> (e matches UiEffect::Temperature(t) && t@ == val) && n == o
        &&& key == "seed"@ ==> match parsed_u32(val) {
            Some(x) => {
                &&& sends_update(e, None, Some(x), None, None)
                &&& status_and_note(o, n, "Updated seed to "@ + decimal(x as nat), "Configuration updated: seed = "@ + decimal(x as nat))
            },
            None => e is Nothing && n == o,
        }
        &&& (key == "ctx_size"@ || key == "context"@) ==> match parsed_u32(val) {
            Some(x) => {
                &&& sends_update(e, None, None, Some(x), None)
                &&& n.tokens_limit == x as usize
                &&& status_and_note(o, TuiApp { tokens_limit: o.tokens_limit, ..n }, "Updated context size limit to "@ + decimal(x as nat), "Configuration updated: context size limit = "@ + decimal(x as nat))
            },
            None => e is Nothing && n == o,
        }
        &&& key == "sandbox"@ ==> {
            &&& sends_update(e, None, None, None, Some(policy_named(val, cwd)))
            &&& n.sandbox_desc@ == val
            &&& status_and_note(o, TuiApp { sandbox_desc: o.sandbox_desc, ..n }, "Updated sandbox policy to "@ + val, "Configuration updated: sandbox policy = "@ + val)
        }
        &&& !(key == "temperature"@ || key == "temp"@ || key == "seed"@ || key == "ctx_size"@ || key == "context"@ || key == "sandbox"@) ==> {
            &&& e is Nothing
            &&& only_note_added(o, n, unknown_property_text(key))
        }
    }
    &&& ws.len() > 0 && ws[0] == "/models"@ ==> e is ListModels && n == o
    &&& ws.len() > 0 && ws[0] == "/sessions"@ ==> e is ListSessions && n == o
    &&& ws.len() == 1 && ws[0] == "/resume"@ ==> e is Nothing && only_note_added(o, n, RESUME_USAGE@)
    &&& ws.len() >= 2 && ws[0] == "/resume"@ ==> (e matches UiEffect::Resume(id) && id@ == ws[1]) && n == o
    &&& ws.len() > 0 && ws[0] == "/doctor"@ ==> e is Doctor && n == o
    &&& ws.len() > 0 && ws[0] == "/index"@ ==> e is SpawnIndex && status_and_note(o, n, INDEX_STATUS@, INDEX_NOTE@)
    &&& ws.len() > 0 && !(ws[0] == "/help"@ || ws[0] == "/config"@ || ws[0] == "/models"@ || ws[0] == "/sessions"@ || ws[0] == "/resume"@ || ws[0] == "/doctor"@ || ws[0] == "/index"@) ==> {
        &&& e is Nothing
        &&& only_note_added(o, n, unknown_command_text(ws[0]))
    }
}

/// A system message holding `content`.
pub fn system_message(content: String) -> (m: Message)
    ensures
        is_system_message(m, content@),
{
    Message::new("system", content, None)
}

/// The report of `/config`.
pub fn config_report(model: &str, sandbox: &str, limit: usize, used: usize) -> (s: String)
    ensures
        s@ == config_text(model@, sandbox@, limit as nat, used as nat),
{
    let mut s = String::from_str("Current Configuration:\n  Model Name: ");
    s.append(model);
    s.append("\n  Sandbox Policy: ");
    s.append(sandbox);
    s.append("\n  Token Limit: ");
    let a = decimal_string(limit as u64);
    s.append(a.as_str());
    s.append("\n  Tokens Used: ");
    let b = decimal_string(used as u64);
    s.append(b.as_str());
    s
}

impl TuiApp {
    /// Adds a system message holding `content` and highlights it.
    pub fn add_system_message(&mut self, content: String)
        ensures
            only_note_added(*old(self), *final(self), content@),
    {
        self.add_message(system_message(content));
        assert(self.messages@.drop_last() =~= old(self).messages@);
    }

    /// Sets the status and adds a system message.
    fn set_status_and_note(&mut self, status: String, note: String)
        ensures
            status_and_note(*old(self), *final(self), status@, note@),
    {
        self.status = status;
        self.add_system_message(note);
    }

    /// Carries out a slash command. What only the interface's state decides
    /// is done here; the effect names what is left to outside work. `cwd` is
    /// the workspace root of a workspace-write sandbox policy.
    pub fn handle_slash_command(&mut self, cmd_raw: &str, cwd: String) -> (e: UiEffect)
        ensures
            slash_handled(cmd_raw@, cwd, *old(self), *final(self), e),
    {
        proof {
            reveal_strlit("/help");
            reveal_strlit("/config");
            reveal_strlit("/models");
            reveal_strlit("/sessions");
            reveal_strlit("/resume");
            reveal_strlit("/doctor");
            reveal_strlit("/index");
            reveal_strlit("temperature");
            reveal_strlit("temp");
            reveal_strlit("seed");
            reveal_strlit("ctx_size");
            reveal_strlit("context");
            reveal_strlit("sandbox");
            assert("/help"@.len() == 5 && "/index"@.len() == 6 && "/sessions"@.len() == 9);
            assert("/config"@.len() == 7 && "/config"@[1] == 'c');
            assert("/models"@.len() == 7 && "/models"@[1] == 'm');
            assert("/resume"@.len() == 7 && "/resume"@[1] == 'r');
            assert("/doctor"@.len() == 7 && "/doctor"@[1] == 'd');
            assert("temperature"@.len() == 11 && "ctx_size"@.len() == 8);
            assert("temp"@.len() == 4 && "temp"@[0] == 't');
            assert("seed"@.len() == 4 && "seed"@[0] == 's');
            assert("context"@.len() == 7 && "context"@[0] == 'c');
            assert("sandbox"@.len() == 7 && "sandbox"@[0] == 's');
        }
        let parts = split_words(cmd_raw);
        let ghost ws = words(cmd_raw@);
        assert(parts@.len() == ws.len());
        assert(forall|i: int| 0 <= i < ws.len() ==> #[trigger] ws[i] == parts@[i]@);
        if parts.len() == 0 {
            return UiEffect::Nothing;
        }
        assert(parts@[0]@ == ws[0]);
        let cmd = parts[0].as_str();
        if str_eq(cmd, "/help") {
            self.add_system_message(String::from_str(HELP_TEXT));
            UiEffect::Nothing
        } else if str_eq(cmd, "/config") {
            if parts.len() >= 4 && str_eq(parts[1].as_str(), "set") {
                assert(parts@[1]@ == ws[1]);
                assert(parts@[2]@ == ws[2]);
                assert(parts@[3]@ == ws[3]);
                let key = parts[2].as_str();
                let val = parts[3].as_str();
                if str_eq(key, "temperature") || str_eq(key, "temp") {
                    UiEffect::Temperature(String::from_str(val))
                } else if str_eq(key, "seed") {
                    match parse_u32(val) {
                        Some(x) => {
                            let d = decimal_string(x as u64);
                            self.set_status_and_note(
                                concat2("Updated seed to ", d.as_str()),
                                concat2("Configuration updated: seed = ", d.as_str()),
                            );
                            UiEffect::Send(
                                TuiCommand::UpdateConfig {
                                    temp_bits: None,
                                    seed: Some(x),
                                    ctx_size: None,
                                    sandbox_policy: None,
                                },
                            )
                        },
                        None => UiEffect::Nothing,
                    }
                } else if str_eq(key, "ctx_size") || str_eq(key, "context") {
                    match parse_u32(val) {
                        Some(x) => {
                            let d = decimal_string(x as u64);
                            self.set_status_and_note(
                                concat2("Updated context size limit to ", d.as_str()),
                                concat2("Configuration updated: context size limit = ", d.as_str()),
                            );
                            self.tokens_limit = x as usize;
                            UiEffect::Send(
                                TuiCommand::UpdateConfig {
                                    temp_bits: None,
                                    seed: None,
                                    ctx_size: Some(x),
                                    sandbox_policy: None,
                                },
                            )
                        },
                        None => UiEffect::Nothing,
                    }
                } else if str_eq(key, "sandbox") {
                    let policy = SandboxPolicy::from_name(val, cwd);
                    self.set_status_and_note(
                        concat2("Updated sandbox policy to ", val),
                        concat2("Configuration updated: sandbox policy = ", val),
                    );
                    self.sandbox_desc = String::from_str(val);
                    UiEffect::Send(
                        TuiCommand::UpdateConfig {
                            temp_bits: None,
                            seed: None,
                            ctx_size: None,
                            sandbox_policy: Some(policy),
                        },
                    )
                } else {
                    let mut t = String::from_str("Unknown configuration property '");
                    t.append(key);
                    t.append("'. Use temperature, seed, ctx_size, or sandbox.");
                    self.add_system_message(t);
                    UiEffect::Nothing
                }
            } else {
                let report = config_report(
                    self.model_name.as_str(),
                    self.sandbox_desc.as_str(),
                    self.tokens_limit,
                    self.tokens_used,
                );
                self.add_system_message(report);
                UiEffect::Nothing
            }
        } else if str_eq(cmd, "/models") {
            UiEffect::ListModels
        } else if str_eq(cmd, "/sessions") {
            UiEffect::ListSessions
        } else if str_eq(cmd, "/resume") {
            if parts.len() < 2 {
                self.add_system_message(String::from_str(RESUME_USAGE));
                UiEffect::Nothing
            } else {
                assert(parts@[1]@ == ws[1]);
                UiEffect::Resume(parts[1].clone())
            }
        } else if str_eq(cmd, "/doctor") {
            UiEffect::Doctor
        } else if str_eq(cmd, "/index") {
            self.set_status_and_note(String::from_str(INDEX_STATUS), String::from_str(INDEX_NOTE));
            UiEffect::SpawnIndex
        } else {
            let mut t = String::from_str("Unknown slash command: ");
            t.append(cmd);
            t.append(". Type /help for assistance.");
            self.add_system_message(t);
            UiEffect::Nothing
        }
    }
}

/// The lines that list model files.
pub open spec fn model_lines(names: Seq<String>) -> Seq<char>
    decreases names.len(),
{
    if names.len() == 0 {
        Seq::empty()
    } else {
        model_lines(names.drop_last()) + "  - "@ + names.last()@ + "\n"@
    }
}

/// The report of `/models` for these model files.
pub open spec fn models_text(names: Seq<String>) -> Seq<char> {
    "Available GGUF models:\n"@ + model_lines(names)
}

/// The lines that list stored sessions, each with its creation time.
pub open spec fn session_lines(list: Seq<(String, u64)>) -> Seq<char>
    decreases list.len(),
{
    if list.len() == 0 {
        Seq::empty()
    } else {
        session_lines(list.drop_last()) + "  - ID: "@ + list.last().0@ + " (Created: "@ + decimal(
            list.last().1 as nat,
        ) + ")\n"@
    }
}

/// The report of `/sessions`.
pub open spec fn sessions_text(list: Seq<(String, u64)>) -> Seq<char> {
    "Past Agent Sessions:\n"@ + session_lines(list)
}

/// The report of `/doctor`.
pub open spec fn doctor_text(
    os: Seq<char>,
    arch: Seq<char>,
    acceleration: Seq<char>,
    sandbox: Seq<char>,
    limit: nat,
) -> Seq<char> {
    "Dohee Diagnostics System Doctor:\n"@ + "  - OS Platform: "@ + os + " ("@ + arch + ")\n"@
        + "  - Hardware Acceleration: "@ + acceleration + "\n"@ + "  - Current Sandbox Policy: "@
        + sandbox + "\n"@ + "  - Token Limit: "@ + decimal(limit) + "\n"@
}

/// A file name whose extension is `gguf`: it ends in `.gguf` after at least
/// one other character.
pub open spec fn is_gguf_name(name: Seq<char>) -> bool {
    name.len() > 5 && name.subrange(name.len() - 5, name.len() as int) == ".gguf"@
}

/// Whether a file name has the extension `gguf`.
pub fn has_gguf_extension(name: &str) -> (b: bool)
    ensures
        b == is_gguf_name(name@),
{
    let v = chars_of(name);
    let n = v.len();
    proof {
        reveal_strlit(".gguf");
    }
    if n <= 5 {
        return false;
    }
    let r = v[n - 5] == '.' && v[n - 4] == 'g' && v[n - 3] == 'g' && v[n - 2] == 'u' && v[n - 1] == 'f';
    assert(r ==> name@.subrange(n - 5, n as int) =~= ".gguf"@);
    proof {
        let tail = name@.subrange(n - 5, n as int);
        if tail == ".gguf"@ {
            assert(tail[0] == '.' && tail[1] == 'g' && tail[2] == 'g' && tail[3] == 'u' && tail[4] == 'f');
            assert(r);
        }
    }
    r
}

/// The report of `/models` for these model file names.
pub fn model_list_text(names: &[String]) -> (s: String)
    ensures
        s@ == models_text(names@),
{
    let mut s = String::from_str("Available GGUF models:\n");
    let mut i: usize = 0;
    while i < names.len()
        invariant
            i <= names@.len(),
            s@ == "Available GGUF models:\n"@ + model_lines(names@.take(i as int)),
        decreases names.len() - i,
    {
        assert(names@.take(i + 1).drop_last() =~= names@.take(i as int));
        s.append("  - ");
        s.append(names[i].as_str());
        s.append("\n");
        i = i + 1;
    }
    assert(names@.take(names@.len() as int) =~= names@);
    s
}

/// The report of `/sessions` for these sessions and creation times.
pub fn session_list_text(list: &[(String, u64)]) -> (s: String)
    ensures
        s@ == sessions_text(list@),
{
    let mut s = String::from_str("Past Agent Sessions:\n");
    let mut i: usize = 0;
    while i < list.len()
        invariant
            i <= list@.len(),
            s@ == "Past Agent Sessions:\n"@ + session_lines(list@.take(i as int)),
        decreases list.len() - i,
    {
        assert(list@.take(i + 1).drop_last() =~= list@.take(i as int));
        s.append("  - ID: ");
        s.append(list[i].0.as_str());
        s.append(" (Created: ");
        let d = decimal_string(list[i].1);
        s.append(d.as_str());
        s.append(")\n");
        i = i + 1;
    }
    assert(list@.take(list@.len() as int) =~= list@);
    s
}

/// The report of `/doctor` for a platform, its acceleration, a sandbox
/// description and a token limit.
pub fn doctor_report(os: &str, arch: &str, acceleration: &str, sandbox: &str, limit: usize) -> (s: String)
    ensures
        s@ == doctor_text(os@, arch@, acceleration@, sandbox@, limit as nat),
{
    let mut s = String::from_str("Dohee Diagnostics System Doctor:\n");
    s.append("  - OS Platform: ");
    s.append(os);
    s.append(" (");
    s.append(arch);
    s.append(")\n");
    s.append("  - Hardware Acceleration: ");
    s.append(acceleration);
    s.append("\n");
    s.append("  - Current Sandbox Policy: ");
    s.append(sandbox);
    s.append("\n");
    s.append("  - Token Limit: ");
    let d = decimal_string(limit as u64);
    s.append(d.as_str());
    s.append("\n");
    s
}

/// The note that a stored session was not found.
pub fn session_not_found(id: &str) -> (s: String)
    ensures
        s@ == "Session '"@ + id@ + "' not found."@,
{
    let mut s = String::from_str("Session '");
    s.append(id);
    s.append("' not found.");
    s
}

impl TuiApp {
    /// Reports a temperature change, given the new temperature as shown.
    pub fn note_temperature(&mut self, shown: &str)
        ensures
            status_and_note(
                *old(self),
                *final(self),
                "Updated temperature to "@ + shown@,
                "Configuration updated: temperature = "@ + shown@,
            ),
    {
        self.set_status_and_note(
            concat2("Updated temperature to ", shown),
            concat2("Configuration updated: temperature = ", shown),
        );
    }

    /// Replaces the transcript with a stored session's messages and
    /// highlights its last message.
    pub fn resume_session(&mut self, id: &str, messages: Vec<Message>)
        ensures
            final(self).messages == messages,
            messages@.len() > 0 ==> final(self).selected == Some((messages@.len() - 1) as usize),
            messages@.len() == 0 ==> final(self).selected == old(self).selected,
            final(self).status@ == "Resumed session '"@ + id@ + "'"@,
            *final(self) == (TuiApp {
                messages: final(self).messages,
                selected: final(self).selected,
                status: final(self).status,
                ..*old(self)
            }),
    {
        self.messages = messages;
        self.scroll_to_bottom();
        let mut s = String::from_str("Resumed session '");
        s.append(id);
        s.append("'");
        self.status = s;
    }
}

} // verus!
