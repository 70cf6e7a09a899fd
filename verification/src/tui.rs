//! The terminal interface's state and the transitions that keys, actions and
//! slash commands cause.
use vstd::prelude::*;
use vstd::string::*;
use crate::context::Message;
use crate::sandbox::SandboxPolicy;
use crate::text::{
    chars_of, contains_seq, decimal, decimal_string, lowercase, occurs_at, str_byte_len,
    str_contains, str_eq, str_starts_with, to_lowercase, byte_len,
};

verus! {

broadcast use vstd::string::group_string_axioms;

/// What keys do at the moment.
#[derive(Debug, Clone, Copy, PartialEq, Eq, Structural)]
pub enum InputMode {
    Normal,
    Insert,
    Visual,
    Approval,
    Search,
    CommandPalette,
}

/// The agent's working mode as the interface shows it.
#[derive(Debug, Clone, Copy, PartialEq, Eq, Structural)]
pub enum AgentMode {
    Build,
    Plan,
    Explore,
}

/// What the interface asks of the background worker.
#[derive(Debug, Clone)]
pub enum TuiCommand {
    /// Run the agent on this prompt with this history.
    SubmitPrompt { prompt: String, messages: Vec<Message> },
    /// Change the generation settings; `None` leaves a setting as it is.
    UpdateConfig {
        /// Bit pattern of the `f32` temperature.
        temp_bits: Option<u32>,
        seed: Option<u32>,
        ctx_size: Option<u32>,
        sandbox_policy: Option<SandboxPolicy>,
    },
}

/// Outside work that an interface transition asks for.
#[derive(Debug, Clone)]
pub enum UiEffect {
    Nothing,
    /// Send this command to the worker.
    Send(TuiCommand),
    /// Answer the pending approval request.
    Approve(bool),
    /// Put `text`, made of `count` messages, on the clipboard.
    Copy { text: String, count: usize },
    /// Read this text as a temperature and apply it.
    Temperature(String),
    /// List the model files.
    ListModels,
    /// List the stored sessions.
    ListSessions,
    /// Load the stored session with this id.
    Resume(String),
    /// Report on the system.
    Doctor,
    /// Rebuild the symbol index in the background.
    SpawnIndex,
}

/// The slash commands that the composer completes.
pub open spec fn slash_commands() -> Seq<Seq<char>> {
    seq![
        "/help"@,
        "/config"@,
        "/config set"@,
        "/models"@,
        "/sessions"@,
        "/resume"@,
        "/doctor"@,
        "/index"@,
    ]
}

/// The slash commands that the composer completes, in order.
pub fn slash_command_list() -> (v: Vec<&'static str>)
    ensures
        v@.map_values(|s: &str| s@) == slash_commands(),
{
    let mut v: Vec<&'static str> = Vec::new();
    v.push("/help");
    v.push("/config");
    v.push("/config set");
    v.push("/models");
    v.push("/sessions");
    v.push("/resume");
    v.push("/doctor");
    v.push("/index");
    assert(v@.map_values(|s: &str| s@) =~= slash_commands());
    v
}

/// The state of the terminal interface.
#[derive(Debug, Clone)]
pub struct TuiApp {
    pub messages: Vec<Message>,
    pub status: String,
    pub input_mode: InputMode,
    pub agent_mode: AgentMode,
    /// The highlighted message of the transcript.
    pub selected: Option<usize>,
    pub input_buf: String,
    pub search_buf: String,
    pub search_match_idx: usize,
    pub search_matches: Vec<usize>,
    pub visual_start: Option<usize>,
    pub visual_end: Option<usize>,
    pub model_name: String,
    pub sandbox_desc: String,
    pub tokens_used: usize,
    pub tokens_limit: usize,
    /// A tool call awaiting approval: its name and its arguments.
    pub pending_approval: Option<(String, Vec<(String, String)>)>,
    pub command_palette_selected: usize,
    pub finished: bool,
    pub autocomplete_prefix: Option<String>,
    pub autocomplete_matches: Vec<String>,
    pub autocomplete_idx: usize,
}

/// The slash commands that begin with `prefix`, in order.
pub open spec fn completions(prefix: Seq<char>) -> Seq<Seq<char>> {
    slash_commands().filter(|c: Seq<char>| occurs_at(c, prefix, 0))
}

/// The autocompletion state allows cycling: when a cycle is under way its
/// position is within its matches.
pub open spec fn cycle_ready(app: TuiApp) -> bool {
    app.autocomplete_prefix is Some && app.autocomplete_matches@.len() > 0 ==> app.autocomplete_idx
        < app.autocomplete_matches@.len()
}

/// The strings of a vector of strings.
pub open spec fn strs(v: Seq<String>) -> Seq<Seq<char>> {
    v.map_values(|s: String| s@)
}

/// The text of the "Match i/n" status.
pub open spec fn match_status(i: nat, n: nat) -> Seq<char> {
    "Match "@ + decimal(i) + "/"@ + decimal(n)
}

/// The indices of the messages whose lowercase content holds `needle`.
pub open spec fn matching_indices(msgs: Seq<Message>, needle: Seq<char>) -> Seq<usize>
    decreases msgs.len(),
{
    if msgs.len() == 0 {
        Seq::empty()
    } else {
        let prev = matching_indices(msgs.drop_last(), needle);
        if contains_seq(lowercase(msgs.last().content@), needle) {
            prev.push((msgs.len() - 1) as usize)
        } else {
            prev
        }
    }
}

/// `n` is `o` after a search for `o`'s search text: the matching messages
/// are listed and the first is highlighted, or the status says that none
/// matched. An empty search text only clears the list.
pub open spec fn search_executed(o: TuiApp, n: TuiApp) -> bool {
    &&& n == (TuiApp {
        search_matches: n.search_matches,
        selected: n.selected,
        status: n.status,
        search_match_idx: n.search_match_idx,
        ..o
    })
    &&& o.search_buf@.len() == 0 ==> {
        &&& n.search_matches@.len() == 0
        &&& n.selected == o.selected
        &&& n.status == o.status
        &&& n.search_match_idx == o.search_match_idx
    }
    &&& o.search_buf@.len() > 0 ==> {
        let found = matching_indices(o.messages@, lowercase(o.search_buf@));
        &&& n.search_matches@ == found
        &&& found.len() > 0 ==> {
            &&& n.search_match_idx == 0
            &&& n.selected == Some(found[0])
            &&& n.status@ == match_status(1, found.len())
        }
        &&& found.len() == 0 ==> {
            &&& n.status@ == "No matches found"@
            &&& n.selected == o.selected
            &&& n.search_match_idx == o.search_match_idx
        }
    }
}

/// The indices that `matching_indices` lists are, in increasing order,
/// exactly the messages whose lowercase content holds `needle`.
proof fn lemma_matching_indices(msgs: Seq<Message>, needle: Seq<char>)
    requires
        msgs.len() <= usize::MAX,
    ensures
        forall|j: int| 0 <= j < msgs.len() ==> (matching_indices(msgs, needle).contains(j as usize)
            <==> contains_seq(lowercase(#[trigger] msgs[j].content@), needle)),
        forall|k: int| 0 <= k < matching_indices(msgs, needle).len() ==> #[trigger] matching_indices(msgs, needle)[k] < msgs.len(),
        forall|k1: int, k2: int| 0 <= k1 < k2 < matching_indices(msgs, needle).len()
            ==> matching_indices(msgs, needle)[k1] < matching_indices(msgs, needle)[k2],
    decreases msgs.len(),
{
    if msgs.len() > 0 {
        let init = msgs.drop_last();
        lemma_matching_indices(init, needle);
        let prev = matching_indices(init, needle);
        let m = matching_indices(msgs, needle);
        let last = (msgs.len() - 1) as usize;
        assert forall|k1: int, k2: int| 0 <= k1 < k2 < m.len() implies m[k1] < m[k2] by {
            if k2 >= prev.len() {
                assert(m[k2] == last);
                assert(m[k1] == prev[k1]);
                assert(prev[k1] < init.len());
            } else {
                assert(m[k1] == prev[k1] && m[k2] == prev[k2]);
            }
        }
        assert forall|k: int| 0 <= k < m.len() implies #[trigger] m[k] < msgs.len() by {
            if k < prev.len() {
                assert(m[k] == prev[k]);
            }
        }
        assert forall|j: int| 0 <= j < msgs.len() implies (m.contains(j as usize) <==> contains_seq(
            lowercase(#[trigger] msgs[j].content@),
            needle,
        )) by {
            if j < msgs.len() - 1 {
                assert(msgs[j] == init[j]);
                if m.contains(j as usize) {
                    let k = choose|k: int| 0 <= k < m.len() && m[k] == j as usize;
                    if k < prev.len() {
                        assert(prev[k] == m[k]);
                    }
                }
                if prev.contains(j as usize) {
                    let k = choose|k: int| 0 <= k < prev.len() && prev[k] == j as usize;
                    assert(m[k] == prev[k]);
                }
            } else {
                if contains_seq(lowercase(msgs.last().content@), needle) {
                    assert(m[m.len() - 1] == last);
                } else {
                    if m.contains(j as usize) {
                        let k = choose|k: int| 0 <= k < m.len() && m[k] == j as usize;
                        assert(prev[k] < init.len());
                    }
                }
            }
        }
    }
}

/// The search ignores case: after a search for a non-empty text `q`, the
/// listed matches are, in increasing order, exactly the messages whose
/// content contains `q` once both are lowercased, and the first of them is
/// selected when there is one.
pub proof fn law_search_ignores_case(o: TuiApp, n: TuiApp)
    requires
        search_executed(o, n),
        o.search_buf@.len() > 0,
    ensures
        forall|j: int| 0 <= j < o.messages@.len() ==> (n.search_matches@.contains(j as usize)
            <==> contains_seq(lowercase(#[trigger] o.messages@[j].content@), lowercase(o.search_buf@))),
        forall|k: int| 0 <= k < n.search_matches@.len() ==> #[trigger] n.search_matches@[k] < o.messages@.len(),
        forall|k1: int, k2: int| 0 <= k1 < k2 < n.search_matches@.len()
            ==> n.search_matches@[k1] < n.search_matches@[k2],
        n.search_matches@.len() > 0 ==> n.selected == Some(n.search_matches@[0]),
{
    assert(o.messages@.len() == o.messages.len());
    lemma_matching_indices(o.messages@, lowercase(o.search_buf@));
}

/// `n` is `o` after a press of the completion key. The first press collects
/// the slash commands that begin with the composer's text; when there are
/// any, each press puts the next of them into the composer, wrapping around.
pub open spec fn autocomplete_cycled(o: TuiApp, n: TuiApp) -> bool {
    &&& cycle_ready(n)
    &&& n == (TuiApp {
        input_buf: n.input_buf,
        autocomplete_prefix: n.autocomplete_prefix,
        autocomplete_matches: n.autocomplete_matches,
        autocomplete_idx: n.autocomplete_idx,
        ..o
    })
    &&& o.autocomplete_prefix is None && completions(o.input_buf@).len() == 0 ==> n == o
    &&& o.autocomplete_prefix is None && completions(o.input_buf@).len() > 0 ==> {
        &&& n.autocomplete_prefix == Some(o.input_buf)
        &&& strs(n.autocomplete_matches@) == completions(o.input_buf@)
        &&& n.input_buf@ == completions(o.input_buf@)[0]
        &&& n.autocomplete_idx == 1int % (completions(o.input_buf@).len() as int)
    }
    &&& o.autocomplete_prefix is Some && o.autocomplete_matches@.len() > 0 ==> {
        &&& n.autocomplete_prefix == o.autocomplete_prefix
        &&& n.autocomplete_matches == o.autocomplete_matches
        &&& n.input_buf == o.autocomplete_matches@[o.autocomplete_idx as int]
        &&& n.autocomplete_idx == (o.autocomplete_idx + 1) % (o.autocomplete_matches@.len() as int)
    }
    &&& o.autocomplete_prefix is Some && o.autocomplete_matches@.len() == 0 ==> n == o
}

/// After `k` presses of the completion key within a cycle, the matches are
/// the same and the position has moved on by `k`, wrapping around; each
/// press put the match at the previous position into the composer.
proof fn lemma_completion_steps(s: Seq<TuiApp>, k: int)
    requires
        0 <= k < s.len(),
        s[0].autocomplete_prefix is Some,
        s[0].autocomplete_matches@.len() > 0,
        s[0].autocomplete_idx < s[0].autocomplete_matches@.len(),
        forall|j: int| 0 <= j < s.len() - 1 ==> autocomplete_cycled(#[trigger] s[j], s[j + 1]),
    ensures
        s[k].autocomplete_prefix == s[0].autocomplete_prefix,
        s[k].autocomplete_matches == s[0].autocomplete_matches,
        s[k].autocomplete_idx == (s[0].autocomplete_idx + k) % (s[0].autocomplete_matches@.len() as int),
        k > 0 ==> s[k].input_buf == s[0].autocomplete_matches@[(s[0].autocomplete_idx + k - 1) % (
            s[0].autocomplete_matches@.len() as int)],
    decreases k,
{
    let count = s[0].autocomplete_matches@.len() as int;
    if k == 0 {
        vstd::arithmetic::div_mod::lemma_small_mod(s[0].autocomplete_idx as nat, count as nat);
    } else {
        lemma_completion_steps(s, k - 1);
        assert(autocomplete_cycled(s[k - 1], s[k]));
        vstd::arithmetic::div_mod::lemma_add_mod_noop_right(1, s[0].autocomplete_idx + (k - 1), count);
    }
}

/// Pressing the completion key as many times as there are matches comes
/// back to where the cycle stood, and the composer shows the same command
/// as it did that many presses before.
pub proof fn law_completion_cycles(s: Seq<TuiApp>)
    requires
        s[0].autocomplete_prefix is Some,
        s[0].autocomplete_matches@.len() > 0,
        s.len() == s[0].autocomplete_matches@.len() + 2,
        s[0].autocomplete_idx < s[0].autocomplete_matches@.len(),
        forall|j: int| 0 <= j < s.len() - 1 ==> autocomplete_cycled(#[trigger] s[j], s[j + 1]),
    ensures
        s[s.len() - 2].autocomplete_idx == s[0].autocomplete_idx,
        s[s.len() - 1].input_buf == s[1].input_buf,
{
    let count = s[0].autocomplete_matches@.len() as int;
    lemma_completion_steps(s, count);
    lemma_completion_steps(s, count + 1);
    lemma_completion_steps(s, 1);
    vstd::arithmetic::div_mod::lemma_mod_add_multiples_vanish(s[0].autocomplete_idx as int, count);
    vstd::arithmetic::div_mod::lemma_small_mod(s[0].autocomplete_idx as nat, count as nat);
    assert(s[0].autocomplete_idx + count + 1 - 1 == count + s[0].autocomplete_idx);
    assert(s[0].autocomplete_idx + 1 - 1 == s[0].autocomplete_idx);
}

/// `n` is `o` with the completion cycle forgotten.
pub open spec fn autocomplete_reset(o: TuiApp, n: TuiApp) -> bool {
    &&& n.autocomplete_matches@.len() == 0
    &&& n == (TuiApp {
        autocomplete_prefix: None,
        autocomplete_matches: n.autocomplete_matches,
        autocomplete_idx: 0,
        ..o
    })
}

/// `n` is `o` after a streamed piece of the assistant's reply: the piece
/// extends the last message when that is the assistant's, else it starts a
/// new assistant message, which is highlighted. A piece of `b` bytes counts
/// `b / 4` tokens.
pub open spec fn token_added(o: TuiApp, piece: Seq<char>, n: TuiApp) -> bool {
    let m = o.messages@;
    &&& n.tokens_used == o.tokens_used + byte_len(piece) / 4
    &&& n == (TuiApp {
        messages: n.messages,
        selected: n.selected,
        tokens_used: n.tokens_used,
        ..o
    })
    &&& if m.len() > 0 && m.last().role@ == "assistant"@ {
        &&& n.messages@.len() == m.len()
        &&& n.messages@.drop_last() == m.drop_last()
        &&& n.messages@.last().role == m.last().role
        &&& n.messages@.last().name == m.last().name
        &&& n.messages@.last().content@ == m.last().content@ + piece
        &&& n.selected == o.selected
    } else {
        &&& n.messages@.len() == m.len() + 1
        &&& n.messages@.drop_last() == m
        &&& n.messages@.last().role@ == "assistant"@
        &&& n.messages@.last().content@ == piece
        &&& n.messages@.last().name is None
        &&& n.selected == Some(m.len() as usize)
    }
}

/// Streaming a reply in two pieces leaves the same transcript as streaming
/// it in one piece: the same messages, the same highlight, and a last
/// message that holds the two pieces in order.
pub proof fn law_pieces_concatenate(o: TuiApp, a: Seq<char>, m: TuiApp, b: Seq<char>, n: TuiApp, whole: TuiApp)
    requires
        token_added(o, a, m),
        token_added(m, b, n),
        token_added(o, a + b, whole),
    ensures
        n.messages@.len() == whole.messages@.len(),
        n.messages@.drop_last() == whole.messages@.drop_last(),
        n.messages@.last().role@ == whole.messages@.last().role@,
        n.messages@.last().name == whole.messages@.last().name,
        n.messages@.last().content@ == whole.messages@.last().content@,
        n.selected == whole.selected,
{
    let ms = o.messages@;
    if ms.len() > 0 && ms.last().role@ == "assistant"@ {
        assert(m.messages@.last().role@ == "assistant"@);
        assert(n.messages@.drop_last() =~= m.messages@.drop_last());
        assert(n.messages@.last().content@ =~= ms.last().content@ + (a + b));
    } else {
        assert(m.messages@.len() > 0 && m.messages@.last().role@ == "assistant"@);
        assert(m.messages@.drop_last() == ms);
        assert(n.messages@.last().content@ =~= a + b);
    }
}

/// `n` is `o` with the next search match highlighted, wrapping around after
/// the last; nothing changes when there are no matches.
pub open spec fn search_advanced(o: TuiApp, n: TuiApp) -> bool {
    let count = o.search_matches@.len();
    if count == 0 {
        n == o
    } else {
        let k = (o.search_match_idx + 1) % (count as int);
        &&& n.search_match_idx == k
        &&& n.selected == Some(o.search_matches@[k])
        &&& n.status@ == match_status((k + 1) as nat, count)
        &&& n == (TuiApp { search_match_idx: n.search_match_idx, selected: n.selected, status: n.status, ..o })
    }
}

/// After `k` steps through the search matches, the list is the same and the
/// position has moved on by `k`, wrapping around.
proof fn lemma_search_steps(s: Seq<TuiApp>, k: int)
    requires
        0 <= k < s.len(),
        s[0].search_matches@.len() > 0,
        s[0].search_match_idx < s[0].search_matches@.len(),
        forall|j: int| 0 <= j < s.len() - 1 ==> search_advanced(#[trigger] s[j], s[j + 1]),
    ensures
        s[k].search_matches == s[0].search_matches,
        s[k].search_match_idx == (s[0].search_match_idx + k) % (s[0].search_matches@.len() as int),
    decreases k,
{
    let count = s[0].search_matches@.len() as int;
    if k == 0 {
        vstd::arithmetic::div_mod::lemma_small_mod(s[0].search_match_idx as nat, count as nat);
    } else {
        lemma_search_steps(s, k - 1);
        assert(search_advanced(s[k - 1], s[k]));
        vstd::arithmetic::div_mod::lemma_add_mod_noop_right(1, s[0].search_match_idx + (k - 1), count);
    }
}

/// Stepping through the search matches as many times as there are matches
/// comes back to the match one started from.
pub proof fn law_search_cycles(s: Seq<TuiApp>)
    requires
        s.len() == s[0].search_matches@.len() + 1,
        s[0].search_matches@.len() > 0,
        s[0].search_match_idx < s[0].search_matches@.len(),
        forall|k: int| 0 <= k < s.len() - 1 ==> search_advanced(#[trigger] s[k], s[k + 1]),
    ensures
        s[s.len() - 1].search_match_idx == s[0].search_match_idx,
        s[s.len() - 1].search_matches == s[0].search_matches,
        s[s.len() - 1].selected == Some(s[0].search_matches@[s[0].search_match_idx as int]),
{
    let count = s[0].search_matches@.len() as int;
    let last = s.len() - 1;
    lemma_search_steps(s, last);
    lemma_search_steps(s, last - 1);
    assert(search_advanced(s[last - 1], s[last]));
    vstd::arithmetic::div_mod::lemma_mod_add_multiples_vanish(s[0].search_match_idx as int, count);
    vstd::arithmetic::div_mod::lemma_small_mod(s[0].search_match_idx as nat, count as nat);
}

impl TuiApp {
    /// A fresh interface for a model and sandbox, with a token budget.
    pub fn new(model_name: String, sandbox_desc: String, tokens_limit: usize) -> (app: TuiApp)
        ensures
            app.messages@.len() == 0,
            app.status@ == "Ready"@,
            app.input_mode == InputMode::Normal,
            app.agent_mode == AgentMode::Build,
            app.selected is None,
            app.input_buf@.len() == 0,
            app.search_buf@.len() == 0,
            app.search_match_idx == 0,
            app.search_matches@.len() == 0,
            app.visual_start is None,
            app.visual_end is None,
            app.model_name == model_name,
            app.sandbox_desc == sandbox_desc,
            app.tokens_used == 0,
            app.tokens_limit == tokens_limit,
            app.pending_approval is None,
            app.command_palette_selected == 0,
            !app.finished,
            app.autocomplete_prefix is None,
            app.autocomplete_matches@.len() == 0,
            app.autocomplete_idx == 0,
    {
        TuiApp {
            messages: Vec::new(),
            status: String::from_str("Ready"),
            input_mode: InputMode::Normal,
            agent_mode: AgentMode::Build,
            selected: None,
            input_buf: String::new(),
            search_buf: String::new(),
            search_match_idx: 0,
            search_matches: Vec::new(),
            visual_start: None,
            visual_end: None,
            model_name,
            sandbox_desc,
            tokens_used: 0,
            tokens_limit,
            pending_approval: None,
            command_palette_selected: 0,
            finished: false,
            autocomplete_prefix: None,
            autocomplete_matches: Vec::new(),
            autocomplete_idx: 0,
        }
    }

    /// Completes the composer's slash command: the first press collects the
    /// commands that begin with the typed text, and each press puts the next
    /// of them into the composer, wrapping around.
    pub fn cycle_autocomplete(&mut self)
        requires
            cycle_ready(*old(self)),
        ensures
            autocomplete_cycled(*old(self), *final(self)),
    {
        if self.autocomplete_prefix.is_none() {
            let cmds = slash_command_list();
            let mut matches: Vec<String> = Vec::new();
            let mut i: usize = 0;
            while i < cmds.len()
                invariant
                    i <= cmds@.len(),
                    cmds@.map_values(|s: &str| s@) == slash_commands(),
                    strs(matches@) == slash_commands().take(i as int).filter(|c: Seq<char>| occurs_at(c, self.input_buf@, 0)),
                decreases cmds.len() - i,
            {
                let ghost before = strs(matches@);
                assert(slash_commands().take(i + 1) =~= slash_commands().take(i as int).push(cmds@[i as int]@));
                proof {
                    slash_commands().take(i as int).lemma_filter_push(cmds@[i as int]@, |c: Seq<char>| occurs_at(c, self.input_buf@, 0));
                }
                if str_starts_with(cmds[i], self.input_buf.as_str()) {
                    matches.push(String::from_str(cmds[i]));
                    assert(strs(matches@) =~= before.push(cmds@[i as int]@));
                }
                i = i + 1;
            }
            assert(slash_commands().take(8) =~= slash_commands());
            if matches.len() == 0 {
                return;
            }
            self.autocomplete_prefix = Some(self.input_buf.clone());
            self.autocomplete_matches = matches;
            self.autocomplete_idx = 0;
        }
        if self.autocomplete_matches.len() > 0 {
            self.input_buf = self.autocomplete_matches[self.autocomplete_idx].clone();
            self.autocomplete_idx = (self.autocomplete_idx + 1) % self.autocomplete_matches.len();
        }
    }

    /// Forgets the completion cycle.
    pub fn reset_autocomplete(&mut self)
        ensures
            autocomplete_reset(*old(self), *final(self)),
    {
        self.autocomplete_prefix = None;
        self.autocomplete_matches = Vec::new();
        self.autocomplete_idx = 0;
    }

    /// Highlights the last message, if any.
    pub fn scroll_to_bottom(&mut self)
        ensures
            old(self).messages@.len() > 0 ==> final(self).selected == Some((old(self).messages@.len() - 1) as usize),
            old(self).messages@.len() == 0 ==> final(self).selected == old(self).selected,
            *final(self) == (TuiApp { selected: final(self).selected, ..*old(self) }),
    {
        if self.messages.len() > 0 {
            self.selected = Some(self.messages.len() - 1);
        }
    }

    /// Appends a message and highlights it.
    pub fn add_message(&mut self, msg: Message)
        ensures
            final(self).messages@ == old(self).messages@.push(msg),
            final(self).selected == Some(old(self).messages@.len() as usize),
            *final(self) == (TuiApp {
                messages: final(self).messages,
                selected: final(self).selected,
                ..*old(self)
            }),
    {
        self.messages.push(msg);
        self.scroll_to_bottom();
    }

    /// Adds a streamed piece of the assistant's reply: it extends the last
    /// message when that is the assistant's, else starts a new assistant
    /// message and highlights it. Either way a piece of `n` bytes counts
    /// `n / 4` tokens.
    pub fn add_token(&mut self, piece: &str)
        requires
            old(self).tokens_used + byte_len(piece@) / 4 <= usize::MAX,
        ensures
            token_added(*old(self), piece@, *final(self)),
    {
        let n = str_byte_len(piece);
        let len = self.messages.len();
        if len > 0 && str_eq(self.messages[len - 1].role.as_str(), "assistant") {
            let mut last = self.messages.pop().unwrap();
            let ghost init = self.messages@;
            last.content.append(piece);
            self.messages.push(last);
            assert(self.messages@.drop_last() =~= init);
            self.tokens_used = self.tokens_used + n / 4;
            return;
        }
        let ghost before = self.messages@;
        self.messages.push(Message::new("assistant", String::from_str(piece), None));
        assert(self.messages@.drop_last() =~= before);
        self.tokens_used = self.tokens_used + n / 4;
        self.scroll_to_bottom();
    }

    /// Searches the messages for the search text, ignoring case, and
    /// highlights the first match.
    pub fn execute_search(&mut self)
        ensures
            search_executed(*old(self), *final(self)),
    {
        self.search_matches = Vec::new();
        if self.search_buf.as_str().is_empty() {
            return;
        }
        let needle = to_lowercase(self.search_buf.as_str());
        let mut found: Vec<usize> = Vec::new();
        let mut i: usize = 0;
        while i < self.messages.len()
            invariant
                i <= self.messages@.len(),
                needle@ == lowercase(self.search_buf@),
                found@ == matching_indices(self.messages@.take(i as int), needle@),
            decreases self.messages.len() - i,
        {
            assert(self.messages@.take(i + 1).drop_last() =~= self.messages@.take(i as int));
            assert(self.messages@.take(i + 1).last() == self.messages@[i as int]);
            let hay = to_lowercase(self.messages[i].content.as_str());
            if str_contains(hay.as_str(), needle.as_str()) {
                found.push(i);
            }
            i = i + 1;
        }
        assert(self.messages@.take(self.messages@.len() as int) =~= self.messages@);
        self.search_matches = found;
        if self.search_matches.len() > 0 {
            self.search_match_idx = 0;
            self.selected = Some(self.search_matches[0]);
            let mut s = String::from_str("Match 1/");
            let d = decimal_string(self.search_matches.len() as u64);
            s.append(d.as_str());
            assert(decimal(1) =~= seq!['1']);
            assert("Match 1/"@ =~= "Match "@ + decimal(1) + "/"@) by {
                reveal_strlit("Match 1/");
                reveal_strlit("Match ");
                reveal_strlit("/");
            }
            self.status = s;
        } else {
            self.status = String::from_str("No matches found");
        }
    }

    /// Highlights the next search match, wrapping around.
    pub fn next_search_match(&mut self)
        requires
            old(self).search_match_idx < usize::MAX,
        ensures
            search_advanced(*old(self), *final(self)),
    {
        if self.search_matches.len() == 0 {
            return;
        }
        self.search_match_idx = (self.search_match_idx + 1) % self.search_matches.len();
        let target = self.search_matches[self.search_match_idx];
        self.selected = Some(target);
        let mut s = String::from_str("Match ");
        let a = decimal_string(self.search_match_idx as u64 + 1);
        s.append(a.as_str());
        s.append("/");
        let b = decimal_string(self.search_matches.len() as u64);
        s.append(b.as_str());
        self.status = s;
    }
}

} // verus!
