//! Keys, the actions they stand for, and what each action does to the
//! interface.
use vstd::prelude::*;
use vstd::string::*;
use crate::agent::AgentEvent;
use crate::context::{copy_messages, Message};
use crate::sandbox::SandboxPolicy;
use crate::text::{concat2, decimal, decimal_string, pop_char, push_char, str_starts_with};
use crate::tui::{
    autocomplete_cycled, autocomplete_reset, cycle_ready, search_executed, AgentMode, InputMode,
    TuiApp, TuiCommand, UiEffect,
};
use crate::tui_commands::slash_handled;

verus! {

broadcast use vstd::string::group_string_axioms;

/// A key, as far as the interface tells keys apart.
#[derive(Debug, Clone, Copy, PartialEq, Eq, Structural)]
pub enum Key {
    Char(char),
    Enter,
    Esc,
    Tab,
    Backspace,
    Up,
    Down,
    Other,
}

/// A key press, with whether Control was held.
#[derive(Debug, Clone, Copy, PartialEq, Eq)]
pub struct KeyInput {
    pub code: Key,
    pub ctrl: bool,
}

/// What the user or the agent asks of the interface.
#[derive(Debug, Clone)]
pub enum Action {
    SubmitPrompt(String),
    ApproveTool(bool),
    UpdateConfig {
        /// Bit pattern of the `f32` temperature.
        temp_bits: Option<u32>,
        seed: Option<u32>,
        ctx_size: Option<u32>,
        sandbox_policy: Option<SandboxPolicy>,
    },
    ScrollUp,
    ScrollDown,
    ScrollToTop,
    ScrollToBottom,
    YankSelection,
    CycleAutocomplete,
    ResetAutocomplete,
    ToggleCommandPalette,
    SetAgentMode(AgentMode),
    SetInputMode(InputMode),
    Exit,
    AddToken(String),
    AddMessage(Message),
    SetStatus(String),
    ToolRequest { name: String, args: Vec<(String, String)> },
    ToolResult { name: String, output: String },
    Finished,
    Noop,
}

/// The agent mode that each entry of the command palette selects.
pub open spec fn palette_action(selected: usize) -> Action {
    if selected == 0 {
        Action::SetAgentMode(AgentMode::Build)
    } else if selected == 1 {
        Action::SetAgentMode(AgentMode::Plan)
    } else if selected == 2 {
        Action::SetAgentMode(AgentMode::Explore)
    } else {
        Action::Noop
    }
}

/// What a key does in normal mode.
pub open spec fn normal_key_action(k: KeyInput) -> Option<Action> {
    match k.code {
        Key::Char(c) => {
            if c == 'q' {
                Some(Action::Exit)
            } else if c == 'i' || c == 'a' {
                Some(Action::SetInputMode(InputMode::Insert))
            } else if c == 'v' || c == 'V' {
                Some(Action::SetInputMode(InputMode::Visual))
            } else if c == '/' {
                Some(Action::SetInputMode(InputMode::Search))
            } else if c == 'p' && k.ctrl {
                Some(Action::SetInputMode(InputMode::CommandPalette))
            } else {
                None
            }
        },
        Key::Enter => Some(Action::SetInputMode(InputMode::Insert)),
        _ => None,
    }
}

/// The action that the composer makes of a key.
pub open spec fn composer_action(app: TuiApp, k: KeyInput) -> Option<Action> {
    match app.input_mode {
        InputMode::Normal => normal_key_action(k),
        InputMode::Insert => match k.code {
            Key::Esc => Some(Action::SetInputMode(InputMode::Normal)),
            Key::Tab => if app.input_buf@.len() > 0 && app.input_buf@[0] == '/' {
                Some(Action::CycleAutocomplete)
            } else {
                None
            },
            Key::Enter => if app.input_buf@.len() > 0 {
                Some(Action::SubmitPrompt(app.input_buf))
            } else {
                None
            },
            Key::Char(_) => Some(Action::ResetAutocomplete),
            Key::Backspace => Some(Action::ResetAutocomplete),
            _ => None,
        },
        InputMode::Search => match k.code {
            Key::Esc => Some(Action::SetInputMode(InputMode::Normal)),
            Key::Enter => Some(Action::SetInputMode(InputMode::Normal)),
            _ => None,
        },
        InputMode::CommandPalette => match k.code {
            Key::Esc => Some(Action::SetInputMode(InputMode::Normal)),
            Key::Enter => Some(palette_action(app.command_palette_selected)),
            _ => None,
        },
        InputMode::Approval => match k.code {
            Key::Char(c) => if c == 'y' || c == 'Y' {
                Some(Action::ApproveTool(true))
            } else if c == 'n' || c == 'N' {
                Some(Action::ApproveTool(false))
            } else {
                None
            },
            Key::Esc => Some(Action::ApproveTool(false)),
            _ => None,
        },
        InputMode::Visual => match k.code {
            Key::Esc => Some(Action::SetInputMode(InputMode::Normal)),
            _ => None,
        },
    }
}

/// `s` after a backspace.
pub open spec fn backspaced(s: Seq<char>) -> Seq<char> {
    if s.len() > 0 {
        s.drop_last()
    } else {
        s
    }
}

/// A key that moves the palette's selection down.
pub open spec fn is_down_key(k: KeyInput) -> bool {
    k.code == Key::Down || k.code == Key::Char('j')
}

/// A key that moves the palette's selection up.
pub open spec fn is_up_key(k: KeyInput) -> bool {
    k.code == Key::Up || k.code == Key::Char('k')
}

/// What the composer does to the interface on a key: it edits the prompt or
/// the search text, runs a search, or moves the palette's selection.
pub open spec fn composer_effect(o: TuiApp, k: KeyInput, n: TuiApp) -> bool {
    match o.input_mode {
        InputMode::Insert => match k.code {
            Key::Enter => if o.input_buf@.len() > 0 {
                n == (TuiApp { input_buf: n.input_buf, ..o }) && n.input_buf@.len() == 0
            } else {
                n == o
            },
            Key::Char(c) => n == (TuiApp { input_buf: n.input_buf, ..o }) && n.input_buf@
                == o.input_buf@.push(c),
            Key::Backspace => n == (TuiApp { input_buf: n.input_buf, ..o }) && n.input_buf@
                == backspaced(o.input_buf@),
            _ => n == o,
        },
        InputMode::Search => match k.code {
            Key::Enter => search_executed(o, n),
            Key::Char(c) => n == (TuiApp { search_buf: n.search_buf, ..o }) && n.search_buf@
                == o.search_buf@.push(c),
            Key::Backspace => n == (TuiApp { search_buf: n.search_buf, ..o }) && n.search_buf@
                == backspaced(o.search_buf@),
            _ => n == o,
        },
        InputMode::CommandPalette => if is_down_key(k) {
            n == (TuiApp {
                command_palette_selected: ((o.command_palette_selected + 1) % 3) as usize,
                ..o
            })
        } else if is_up_key(k) {
            n == (TuiApp {
                command_palette_selected: ((o.command_palette_selected + 2) % 3) as usize,
                ..o
            })
        } else {
            n == o
        },
        _ => n == o,
    }
}

/// Moving the command palette's selection down and then up comes back to
/// the same selection, and nothing else changes.
pub proof fn law_palette_down_then_up(o: TuiApp, down: KeyInput, m: TuiApp, up: KeyInput, n: TuiApp)
    requires
        o.input_mode == InputMode::CommandPalette,
        o.command_palette_selected < 3,
        is_down_key(down),
        is_up_key(up),
        composer_effect(o, down, m),
        composer_effect(m, up, n),
    ensures
        n == o,
{
    assert(!is_down_key(up));
}

/// The action that the transcript makes of a key in a mode.
pub open spec fn transcript_action(mode: InputMode, k: KeyInput) -> Option<Action> {
    let down = k.code == Key::Char('j') || k.code == Key::Down;
    let up = k.code == Key::Char('k') || k.code == Key::Up;
    match mode {
        InputMode::Normal => if down {
            Some(Action::ScrollDown)
        } else if up {
            Some(Action::ScrollUp)
        } else if k.code == Key::Char('g') {
            Some(Action::ScrollToTop)
        } else if k.code == Key::Char('G') {
            Some(Action::ScrollToBottom)
        } else {
            None
        },
        InputMode::Visual => if down {
            Some(Action::ScrollDown)
        } else if up {
            Some(Action::ScrollUp)
        } else if k.code == Key::Char('y') {
            Some(Action::YankSelection)
        } else {
            None
        },
        _ => None,
    }
}

/// The palette's selection can move without overflow.
pub open spec fn palette_in_range(app: TuiApp) -> bool {
    app.input_mode == InputMode::CommandPalette ==> app.command_palette_selected < usize::MAX - 1
}

/// The composer: the prompt, the search text and the mode's keys.
#[derive(Debug, Clone, Copy)]
pub struct ComposerComponent;

/// The transcript: moving through the messages and the visual selection.
#[derive(Debug, Clone, Copy)]
pub struct TranscriptComponent;

impl ComposerComponent {
    /// The composer.
    pub fn new() -> ComposerComponent {
        ComposerComponent
    }

    /// Handles a key in the composer.
    pub fn handle_key_event(&mut self, key: KeyInput, app: &mut TuiApp) -> (a: Option<Action>)
        requires
            palette_in_range(*old(app)),
        ensures
            a == composer_action(*old(app), key),
            composer_effect(*old(app), key, *final(app)),
    {
        match app.input_mode {
            InputMode::Normal => match key.code {
                Key::Char(c) => {
                    if c == 'q' {
                        Some(Action::Exit)
                    } else if c == 'i' || c == 'a' {
                        Some(Action::SetInputMode(InputMode::Insert))
                    } else if c == 'v' || c == 'V' {
                        Some(Action::SetInputMode(InputMode::Visual))
                    } else if c == '/' {
                        Some(Action::SetInputMode(InputMode::Search))
                    } else if c == 'p' && key.ctrl {
                        Some(Action::SetInputMode(InputMode::CommandPalette))
                    } else {
                        None
                    }
                },
                Key::Enter => Some(Action::SetInputMode(InputMode::Insert)),
                _ => None,
            },
            InputMode::Insert => match key.code {
                Key::Esc => Some(Action::SetInputMode(InputMode::Normal)),
                Key::Tab => {
                    if str_starts_with(app.input_buf.as_str(), "/") {
                        proof {
                            reveal_strlit("/");
                            assert("/"@[0] == '/');
                            assert(app.input_buf@.subrange(0, 1)[0] == app.input_buf@[0]);
                        }
                        Some(Action::CycleAutocomplete)
                    } else {
                        proof {
                            reveal_strlit("/");
                            if app.input_buf@.len() > 0 && app.input_buf@[0] == '/' {
                                assert(app.input_buf@.subrange(0, 1) =~= "/"@);
                            }
                        }
                        None
                    }
                },
                Key::Enter => {
                    if app.input_buf.as_str().is_empty() {
                        None
                    } else {
                        let prompt = app.input_buf.clone();
                        app.input_buf = String::new();
                        Some(Action::SubmitPrompt(prompt))
                    }
                },
                Key::Char(c) => {
                    push_char(&mut app.input_buf, c);
                    Some(Action::ResetAutocomplete)
                },
                Key::Backspace => {
                    pop_char(&mut app.input_buf);
                    Some(Action::ResetAutocomplete)
                },
                _ => None,
            },
            InputMode::Search => match key.code {
                Key::Esc => Some(Action::SetInputMode(InputMode::Normal)),
                Key::Enter => {
                    app.execute_search();
                    Some(Action::SetInputMode(InputMode::Normal))
                },
                Key::Char(c) => {
                    push_char(&mut app.search_buf, c);
                    None
                },
                Key::Backspace => {
                    pop_char(&mut app.search_buf);
                    None
                },
                _ => None,
            },
            InputMode::CommandPalette => match key.code {
                Key::Esc => Some(Action::SetInputMode(InputMode::Normal)),
                Key::Enter => {
                    let selected = app.command_palette_selected;
                    let action = if selected == 0 {
                        Action::SetAgentMode(AgentMode::Build)
                    } else if selected == 1 {
                        Action::SetAgentMode(AgentMode::Plan)
                    } else if selected == 2 {
                        Action::SetAgentMode(AgentMode::Explore)
                    } else {
                        Action::Noop
                    };
                    Some(action)
                },
                Key::Down | Key::Char('j') => {
                    app.command_palette_selected = (app.command_palette_selected + 1) % 3;
                    None
                },
                Key::Up | Key::Char('k') => {
                    app.command_palette_selected = (app.command_palette_selected + 2) % 3;
                    None
                },
                _ => None,
            },
            InputMode::Approval => match key.code {
                Key::Char(c) => {
                    if c == 'y' || c == 'Y' {
                        Some(Action::ApproveTool(true))
                    } else if c == 'n' || c == 'N' {
                        Some(Action::ApproveTool(false))
                    } else {
                        None
                    }
                },
                Key::Esc => Some(Action::ApproveTool(false)),
                _ => None,
            },
            InputMode::Visual => match key.code {
                Key::Esc => Some(Action::SetInputMode(InputMode::Normal)),
                _ => None,
            },
        }
    }
}

impl TranscriptComponent {
    /// The transcript.
    pub fn new() -> TranscriptComponent {
        TranscriptComponent
    }

    /// Handles a key in the transcript.
    pub fn handle_key_event(&mut self, key: KeyInput, app: &TuiApp) -> (a: Option<Action>)
        ensures
            a == transcript_action(app.input_mode, key),
    {
        let down = key.code == Key::Char('j') || key.code == Key::Down;
        let up = key.code == Key::Char('k') || key.code == Key::Up;
        match app.input_mode {
            InputMode::Normal => {
                if down {
                    Some(Action::ScrollDown)
                } else if up {
                    Some(Action::ScrollUp)
                } else if key.code == Key::Char('g') {
                    Some(Action::ScrollToTop)
                } else if key.code == Key::Char('G') {
                    Some(Action::ScrollToBottom)
                } else {
                    None
                }
            },
            InputMode::Visual => {
                if down {
                    Some(Action::ScrollDown)
                } else if up {
                    Some(Action::ScrollUp)
                } else if key.code == Key::Char('y') {
                    Some(Action::YankSelection)
                } else {
                    None
                }
            },
            _ => None,
        }
    }
}

/// Routes a key: the composer sees it first, and the transcript only when the
/// composer made nothing of it.
pub fn route_key(app: &mut TuiApp, key: KeyInput) -> (a: Option<Action>)
    requires
        palette_in_range(*old(app)),
    ensures
        composer_effect(*old(app), key, *final(app)),
        a == match composer_action(*old(app), key) {
            Some(x) => Some(x),
            None => transcript_action(old(app).input_mode, key),
        },
{
    let mut composer = ComposerComponent::new();
    let a = composer.handle_key_event(key, app);
    match a {
        Some(x) => Some(x),
        None => {
            let mut transcript = TranscriptComponent::new();
            transcript.handle_key_event(key, app)
        },
    }
}

/// How a message is quoted when copied.
pub open spec fn yank_entry(m: Message) -> Seq<char> {
    "["@ + m.role@ + "]: "@ + m.content@
}

/// Quoted messages separated by blank lines.
pub open spec fn yank_text(ms: Seq<Message>) -> Seq<char>
    decreases ms.len(),
{
    if ms.len() == 0 {
        Seq::empty()
    } else if ms.len() == 1 {
        yank_entry(ms[0])
    } else {
        yank_text(ms.drop_last()) + "\n\n"@ + yank_entry(ms.last())
    }
}

/// The smaller of two indices.
pub open spec fn min_index(a: usize, b: usize) -> usize {
    if a <= b {
        a
    } else {
        b
    }
}

/// The larger of two indices.
pub open spec fn max_index(a: usize, b: usize) -> usize {
    if a <= b {
        b
    } else {
        a
    }
}

/// The visual selection can be copied: its first message exists and its
/// size can be counted.
pub open spec fn yank_ready(app: TuiApp) -> bool {
    match (app.visual_start, app.visual_end) {
        (Some(s), Some(e)) => min_index(s, e) < app.messages@.len() && max_index(s, e) - min_index(
            s,
            e,
        ) < usize::MAX,
        _ => true,
    }
}

/// `n` is `o` after the visual selection was copied: back in normal mode
/// without a selection. `r` holds the text to copy and the number of
/// messages selected, when both ends of a selection were set.
pub open spec fn yanked(o: TuiApp, n: TuiApp, r: Option<(String, usize)>) -> bool {
    &&& n == (TuiApp {
        input_mode: InputMode::Normal,
        visual_start: None,
        visual_end: None,
        ..o
    })
    &&& match (o.visual_start, o.visual_end) {
        (Some(s), Some(e)) => {
            let lo = min_index(s, e);
            let hi = max_index(s, e);
            let top = min_index(hi, (o.messages@.len() - 1) as usize);
            r matches Some((text, count)) && text@ == yank_text(
                o.messages@.subrange(lo as int, top + 1),
            ) && count == hi - lo + 1
        },
        _ => r is None,
    }
}

impl TuiApp {
    /// Leaves visual mode, and gives the selected messages' text and number
    /// when a selection was made.
    pub fn yank_visual_selection(&mut self) -> (r: Option<(String, usize)>)
        requires
            yank_ready(*old(self)),
        ensures
            yanked(*old(self), *final(self), r),
    {
        let r = match (self.visual_start, self.visual_end) {
            (Some(s), Some(e)) => {
                let lo = if s <= e {
                    s
                } else {
                    e
                };
                let hi = if s <= e {
                    e
                } else {
                    s
                };
                let last = self.messages.len() - 1;
                let top = if hi <= last {
                    hi
                } else {
                    last
                };
                let mut text = String::new();
                let mut i = lo;
                while i <= top
                    invariant
                        lo <= i <= top + 1,
                        top < self.messages@.len(),
                        top < usize::MAX,
                        text@ == yank_text(self.messages@.subrange(lo as int, i as int)),
                    decreases top + 1 - i,
                {
                    let ghost prev = self.messages@.subrange(lo as int, i as int);
                    assert(self.messages@.subrange(lo as int, i + 1).drop_last() =~= prev);
                    if i > lo {
                        text.append("\n\n");
                    }
                    text.append("[");
                    text.append(self.messages[i].role.as_str());
                    text.append("]: ");
                    text.append(self.messages[i].content.as_str());
                    i = i + 1;
                }
                Some((text, hi - lo + 1))
            },
            _ => None,
        };
        self.input_mode = InputMode::Normal;
        self.visual_start = None;
        self.visual_end = None;
        r
    }

    /// Reports that `count` messages went to the clipboard.
    pub fn note_yanked(&mut self, count: usize)
        ensures
            final(self).status@ == "Yanked "@ + decimal(count as nat) + " message(s) to clipboard"@,
            *final(self) == (TuiApp { status: final(self).status, ..*old(self) }),
    {
        let mut s = String::from_str("Yanked ");
        let d = decimal_string(count as u64);
        s.append(d.as_str());
        s.append(" message(s) to clipboard");
        self.status = s;
    }
}

/// `m` is a user message holding `text`.
pub open spec fn is_user_message(m: Message, text: Seq<char>) -> bool {
    &&& m.role@ == "user"@
    &&& m.content@ == text
    &&& m.name is None
}

/// `n` is `o` with the prompt `p` added as the user's message and the agent
/// announced as running; `c` hands the prompt and the whole history to the
/// worker.
pub open spec fn prompt_submitted(o: TuiApp, p: String, n: TuiApp, c: TuiCommand) -> bool {
    &&& n.messages@.len() == o.messages@.len() + 1
    &&& n.messages@.drop_last() == o.messages@
    &&& is_user_message(n.messages@.last(), p@)
    &&& n.selected == Some(o.messages@.len() as usize)
    &&& n.status@ == "Agent running..."@
    &&& n == (TuiApp { messages: n.messages, selected: n.selected, status: n.status, ..o })
    &&& c matches TuiCommand::SubmitPrompt { prompt, messages } && prompt == p && messages@
        == n.messages@
}

/// The index that the transcript highlights, the first when none is.
pub open spec fn selected_or_first(app: TuiApp) -> usize {
    match app.selected {
        Some(i) => i,
        None => 0,
    }
}

/// `n` is `o` after moving up one message: in visual mode the selection's
/// moving end moves, otherwise the highlight does.
pub open spec fn scrolled_up(o: TuiApp, n: TuiApp) -> bool {
    if o.input_mode == InputMode::Visual {
        match o.visual_end {
            Some(curr) => if curr > 0 {
                n == (TuiApp {
                    visual_end: Some((curr - 1) as usize),
                    selected: Some((curr - 1) as usize),
                    ..o
                })
            } else {
                n == o
            },
            None => n == o,
        }
    } else if o.messages@.len() > 0 && selected_or_first(o) > 0 {
        n == (TuiApp { selected: Some((selected_or_first(o) - 1) as usize), ..o })
    } else {
        n == o
    }
}

/// `n` is `o` after moving down one message, never past the last.
pub open spec fn scrolled_down(o: TuiApp, n: TuiApp) -> bool {
    if o.input_mode == InputMode::Visual {
        match o.visual_end {
            Some(curr) => if curr < o.messages@.len() - 1 {
                n == (TuiApp {
                    visual_end: Some((curr + 1) as usize),
                    selected: Some((curr + 1) as usize),
                    ..o
                })
            } else {
                n == o
            },
            None => n == o,
        }
    } else if o.messages@.len() > 0 && selected_or_first(o) < o.messages@.len() - 1 {
        n == (TuiApp { selected: Some((selected_or_first(o) + 1) as usize), ..o })
    } else {
        n == o
    }
}

/// The action can be carried out: a completion cycle is in range, a visual
/// selection moving down has messages to move over, and a copied selection
/// starts at a message.
pub open spec fn dispatch_ready(o: TuiApp, a: Action) -> bool {
    &&& a is CycleAutocomplete ==> cycle_ready(o)
    &&& (a is ScrollDown && o.input_mode == InputMode::Visual && o.visual_end is Some)
        ==> o.messages@.len() > 0
    &&& a is YankSelection ==> yank_ready(o)
}

/// `n` and `e` are what the action `a` makes of `o`, with `cwd` as the root
/// of a workspace-write sandbox policy.
pub open spec fn dispatched(o: TuiApp, a: Action, cwd: String, n: TuiApp, e: UiEffect) -> bool {
    match a {
        Action::SubmitPrompt(p) => if p@.len() > 0 && p@[0] == '/' {
            slash_handled(p@, cwd, o, n, e)
        } else {
            &&& e matches UiEffect::Send(c) && prompt_submitted(
                o,
                p,
                TuiApp { input_mode: o.input_mode, ..n },
                c,
            )
            &&& n.input_mode == InputMode::Normal
        },
        Action::ApproveTool(b) => {
            &&& e == UiEffect::Approve(b)
            &&& n == (TuiApp {
                status: n.status,
                input_mode: InputMode::Normal,
                pending_approval: None,
                ..o
            })
            &&& n.status@ == if b {
                "Approved tool execution"@
            } else {
                "Denied tool execution"@
            }
        },
        Action::UpdateConfig { temp_bits, seed, ctx_size, sandbox_policy } => {
            &&& e == UiEffect::Send(
                TuiCommand::UpdateConfig { temp_bits, seed, ctx_size, sandbox_policy },
            )
            &&& n == o
        },
        Action::ScrollUp => e is Nothing && scrolled_up(o, n),
        Action::ScrollDown => e is Nothing && scrolled_down(o, n),
        Action::ScrollToTop => e is Nothing && if o.messages@.len() > 0 {
            n == (TuiApp { selected: Some(0), ..o })
        } else {
            n == o
        },
        Action::ScrollToBottom => e is Nothing && if o.messages@.len() > 0 {
            n == (TuiApp { selected: Some((o.messages@.len() - 1) as usize), ..o })
        } else {
            n == o
        },
        Action::YankSelection => {
            &&& yanked(o, n, match e {
                UiEffect::Copy { text, count } => Some((text, count)),
                _ => None,
            })
            &&& (e is Copy || e is Nothing)
        },
        Action::CycleAutocomplete => e is Nothing && autocomplete_cycled(o, n),
        Action::ResetAutocomplete => e is Nothing && autocomplete_reset(o, n),
        Action::ToggleCommandPalette => e is Nothing && n == (TuiApp {
            input_mode: InputMode::CommandPalette,
            ..o
        }),
        Action::SetAgentMode(m) => e is Nothing && n == (TuiApp {
            agent_mode: m,
            input_mode: InputMode::Normal,
            ..o
        }),
        Action::SetInputMode(m) => e is Nothing && n == (TuiApp {
            input_mode: m,
            visual_start: if m == InputMode::Visual {
                Some(selected_or_first(o))
            } else {
                None
            },
            visual_end: if m == InputMode::Visual {
                Some(selected_or_first(o))
            } else {
                None
            },
            ..o
        }),
        Action::Exit => e is Nothing && n == (TuiApp { finished: true, ..o }),
        _ => e is Nothing && n == o,
    }
}

impl TuiApp {
    /// Adds the user's prompt, announces the agent as running, and gives the
    /// command that hands the prompt and the history to the worker.
    pub fn submit_prompt(&mut self, prompt: String) -> (c: TuiCommand)
        ensures
            prompt_submitted(*old(self), prompt, *final(self), c),
    {
        let ghost before = self.messages@;
        self.add_message(Message::new("user", prompt.clone(), None));
        assert(self.messages@.drop_last() =~= before);
        self.status = String::from_str("Agent running...");
        let messages = copy_messages(self.messages.as_slice());
        TuiCommand::SubmitPrompt { prompt, messages }
    }
}

/// Carries out an action on the interface, and names the outside work that
/// it asks for.
pub fn dispatch_action(app: &mut TuiApp, action: Action, cwd: String) -> (e: UiEffect)
    requires
        dispatch_ready(*old(app), action),
    ensures
        dispatched(*old(app), action, cwd, *final(app), e),
{
    match action {
        Action::SubmitPrompt(prompt) => {
            if str_starts_with(prompt.as_str(), "/") {
                proof {
                    reveal_strlit("/");
                    assert("/"@[0] == '/');
                    assert(prompt@.subrange(0, 1)[0] == prompt@[0]);
                }
                app.handle_slash_command(prompt.as_str(), cwd)
            } else {
                proof {
                    reveal_strlit("/");
                    if prompt@.len() > 0 && prompt@[0] == '/' {
                        assert(prompt@.subrange(0, 1) =~= "/"@);
                    }
                }
                let c = app.submit_prompt(prompt);
                app.input_mode = InputMode::Normal;
                UiEffect::Send(c)
            }
        },
        Action::ApproveTool(approved) => {
            app.status = if approved {
                String::from_str("Approved tool execution")
            } else {
                String::from_str("Denied tool execution")
            };
            app.input_mode = InputMode::Normal;
            app.pending_approval = None;
            UiEffect::Approve(approved)
        },
        Action::UpdateConfig { temp_bits, seed, ctx_size, sandbox_policy } => {
            UiEffect::Send(TuiCommand::UpdateConfig { temp_bits, seed, ctx_size, sandbox_policy })
        },
        Action::ScrollUp => {
            if app.input_mode == InputMode::Visual {
                match app.visual_end {
                    Some(curr) => {
                        if curr > 0 {
                            app.visual_end = Some(curr - 1);
                            app.selected = Some(curr - 1);
                        }
                    },
                    None => {},
                }
            } else if app.messages.len() > 0 {
                let curr = match app.selected {
                    Some(i) => i,
                    None => 0,
                };
                if curr > 0 {
                    app.selected = Some(curr - 1);
                }
            }
            UiEffect::Nothing
        },
        Action::ScrollDown => {
            if app.input_mode == InputMode::Visual {
                match app.visual_end {
                    Some(curr) => {
                        if curr < app.messages.len() - 1 {
                            app.visual_end = Some(curr + 1);
                            app.selected = Some(curr + 1);
                        }
                    },
                    None => {},
                }
            } else if app.messages.len() > 0 {
                let curr = match app.selected {
                    Some(i) => i,
                    None => 0,
                };
                if curr < app.messages.len() - 1 {
                    app.selected = Some(curr + 1);
                }
            }
            UiEffect::Nothing
        },
        Action::ScrollToTop => {
            if app.messages.len() > 0 {
                app.selected = Some(0);
            }
            UiEffect::Nothing
        },
        Action::ScrollToBottom => {
            app.scroll_to_bottom();
            UiEffect::Nothing
        },
        Action::YankSelection => {
            match app.yank_visual_selection() {
                Some((text, count)) => UiEffect::Copy { text, count },
                None => UiEffect::Nothing,
            }
        },
        Action::CycleAutocomplete => {
            app.cycle_autocomplete();
            UiEffect::Nothing
        },
        Action::ResetAutocomplete => {
            app.reset_autocomplete();
            UiEffect::Nothing
        },
        Action::ToggleCommandPalette => {
            app.input_mode = InputMode::CommandPalette;
            UiEffect::Nothing
        },
        Action::SetAgentMode(mode) => {
            app.agent_mode = mode;
            app.input_mode = InputMode::Normal;
            UiEffect::Nothing
        },
        Action::SetInputMode(mode) => {
            app.input_mode = mode;
            if mode == InputMode::Visual {
                let sel = match app.selected {
                    Some(i) => i,
                    None => 0,
                };
                app.visual_start = Some(sel);
                app.visual_end = Some(sel);
            } else {
                app.visual_start = None;
                app.visual_end = None;
            }
            UiEffect::Nothing
        },
        Action::Exit => {
            app.finished = true;
            UiEffect::Nothing
        },
        _ => UiEffect::Nothing,
    }
}

/// `n` is `o` after an event from the agent: a piece of its reply, a
/// status, a request for approval, a tool's result, or the end of the run.
pub open spec fn agent_event_applied(o: TuiApp, ev: AgentEvent, n: TuiApp) -> bool {
    match ev {
        AgentEvent::Token(t) => crate::tui::token_added(o, t@, n),
        AgentEvent::Status(st) => n == (TuiApp { status: st, ..o }),
        AgentEvent::ToolRequest { name, args } => {
            &&& n == (TuiApp {
                status: n.status,
                input_mode: InputMode::Approval,
                pending_approval: Some((name, args)),
                ..o
            })
            &&& n.status@ == "Approval requested for tool '"@ + name@ + "'"@
        },
        AgentEvent::ToolResult { name, output } => {
            &&& n.status@ == "Tool '"@ + name@ + "' finished execution."@
            &&& n.messages@.len() == o.messages@.len() + 1
            &&& n.messages@.drop_last() == o.messages@
            &&& n.messages@.last().role@ == "tool"@
            &&& n.messages@.last().content@ == "Tool output:\n"@ + output@
            &&& n.messages@.last().name == Some(name)
            &&& n.selected == Some(o.messages@.len() as usize)
            &&& n == (TuiApp { messages: n.messages, selected: n.selected, status: n.status, ..o })
        },
        AgentEvent::Finished => {
            &&& n == (TuiApp { status: n.status, input_mode: InputMode::Normal, ..o })
            &&& n.status@ == "Ready"@
        },
    }
}

impl TuiApp {
    /// Shows an event from the agent.
    pub fn apply_agent_event(&mut self, ev: AgentEvent)
        requires
            ev matches AgentEvent::Token(t) ==> old(self).tokens_used + crate::text::byte_len(t@) / 4
                <= usize::MAX,
        ensures
            agent_event_applied(*old(self), ev, *final(self)),
    {
        match ev {
            AgentEvent::Token(t) => {
                self.add_token(t.as_str());
            },
            AgentEvent::Status(st) => {
                self.status = st;
            },
            AgentEvent::ToolRequest { name, args } => {
                let mut st = String::from_str("Approval requested for tool '");
                st.append(name.as_str());
                st.append("'");
                self.status = st;
                self.input_mode = InputMode::Approval;
                self.pending_approval = Some((name, args));
            },
            AgentEvent::ToolResult { name, output } => {
                let mut st = String::from_str("Tool '");
                st.append(name.as_str());
                st.append("' finished execution.");
                self.status = st;
                let ghost before = self.messages@;
                let content = concat2("Tool output:\n", output.as_str());
                self.add_message(Message::new("tool", content, Some(name)));
                assert(self.messages@.drop_last() =~= before);
            },
            AgentEvent::Finished => {
                self.status = String::from_str("Ready");
                self.input_mode = InputMode::Normal;
            },
        }
    }
}

} // verus!
