//! What the interface shows: how transcript lines are classified, the
//! composer's title, the header's fields and the status line.
use vstd::prelude::*;
use vstd::string::*;
use crate::context::Message;
use crate::text::{
    boundary_index, byte_len, char_width, char_width_exec, chars_of, concat2, contains_seq, decimal,
    decimal_string, find_from, find_from_exec, is_boundary, lemma_boundary_unique,
    lemma_byte_len_prefix, lemma_byte_len_push, lemma_find_from, lemma_prefix_byte_len_strict,
    lines_of, lowercase, occurs_at, split_lines, str_byte_len, str_contains, str_eq,
    str_starts_with, string_of_range, to_lowercase, trim, trim_str,
};
use crate::tui::{completions, slash_command_list, slash_commands, AgentMode, InputMode, TuiApp};

verus! {

broadcast use vstd::string::group_string_axioms;

/// How a transcript line is styled.
#[derive(Debug, Clone, Copy, PartialEq, Eq, Structural)]
pub enum LineKind {
    /// A code fence, which opens or closes a code block.
    Fence,
    /// A line inside a code block, shown indented.
    Code,
    /// A line that a diff adds.
    Added,
    /// A line that a diff removes.
    Removed,
    /// A diff's hunk header.
    Hunk,
    /// A Markdown heading.
    Heading,
    /// A list item.
    Bullet,
    /// Ordinary text, where search matches are highlighted.
    Plain,
}

/// The label shown above a message of this role.
pub open spec fn role_label(role: Seq<char>) -> Seq<char> {
    if role == "user"@ {
        "› You:"@
    } else if role == "assistant"@ {
        "› Dohee:"@
    } else if role == "system"@ {
        "• System:"@
    } else {
        "• Tool:"@
    }
}

/// The label shown above a message of this role.
pub fn role_prefix(role: &str) -> (p: &'static str)
    ensures
        p@ == role_label(role@),
{
    if str_eq(role, "user") {
        "› You:"
    } else if str_eq(role, "assistant") {
        "› Dohee:"
    } else if str_eq(role, "system") {
        "• System:"
    } else {
        "• Tool:"
    }
}

/// The message reads as a diff: a tool's output, or text with a diff header.
pub open spec fn is_diff_message(m: Message) -> bool {
    ||| m.role@ == "tool"@
    ||| contains_seq(m.content@, "diff --git"@)
    ||| contains_seq(m.content@, "--- a/"@)
    ||| contains_seq(m.content@, "+++ b/"@)
}

/// Whether a message reads as a diff.
pub fn message_is_diff(m: &Message) -> (b: bool)
    ensures
        b == is_diff_message(*m),
{
    str_eq(m.role.as_str(), "tool") || str_contains(m.content.as_str(), "diff --git")
        || str_contains(m.content.as_str(), "--- a/") || str_contains(m.content.as_str(), "+++ b/")
}

/// `s` begins with `p`.
pub open spec fn starts(s: Seq<char>, p: Seq<char>) -> bool {
    occurs_at(s, p, 0)
}

/// How a line outside a code fence is styled, and whether it opens or
/// closes a code block.
pub open spec fn line_kind(line: Seq<char>, in_code: bool, is_diff: bool) -> LineKind {
    if starts(trim(line), "```"@) {
        LineKind::Fence
    } else if in_code {
        LineKind::Code
    } else if is_diff && starts(line, "+"@) && !starts(line, "+++"@) {
        LineKind::Added
    } else if is_diff && starts(line, "-"@) && !starts(line, "---"@) {
        LineKind::Removed
    } else if is_diff && starts(line, "@@"@) {
        LineKind::Hunk
    } else if starts(line, "# "@) || starts(line, "## "@) || starts(line, "### "@) {
        LineKind::Heading
    } else if starts(trim(line), "- "@) || starts(trim(line), "* "@) {
        LineKind::Bullet
    } else {
        LineKind::Plain
    }
}

/// The text shown for a line of this kind.
pub open spec fn shown_text(line: Seq<char>, kind: LineKind) -> Seq<char> {
    if kind == LineKind::Code {
        "  "@ + line
    } else {
        line
    }
}

/// Classifies one transcript line, flipping `in_code_block` at a fence, and
/// gives its kind and the text to show.
pub fn format_line(line: &str, in_code_block: &mut bool, is_diff: bool) -> (r: (LineKind, String))
    ensures
        r.0 == line_kind(line@, *old(in_code_block), is_diff),
        r.1@ == shown_text(line@, r.0),
        *final(in_code_block) == (if r.0 == LineKind::Fence {
            !*old(in_code_block)
        } else {
            *old(in_code_block)
        }),
{
    let t = trim_str(line);
    if str_starts_with(t.as_str(), "```") {
        *in_code_block = !*in_code_block;
        return (LineKind::Fence, String::from_str(line));
    }
    if *in_code_block {
        return (LineKind::Code, concat2("  ", line));
    }
    let kind = if is_diff && str_starts_with(line, "+") && !str_starts_with(line, "+++") {
        LineKind::Added
    } else if is_diff && str_starts_with(line, "-") && !str_starts_with(line, "---") {
        LineKind::Removed
    } else if is_diff && str_starts_with(line, "@@") {
        LineKind::Hunk
    } else if str_starts_with(line, "# ") || str_starts_with(line, "## ") || str_starts_with(
        line,
        "### ",
    ) {
        LineKind::Heading
    } else if str_starts_with(t.as_str(), "- ") || str_starts_with(t.as_str(), "* ") {
        LineKind::Bullet
    } else {
        LineKind::Plain
    };
    (kind, String::from_str(line))
}

/// The styled lines of a message's lines, starting outside a code block.
pub open spec fn styled_lines(ls: Seq<Seq<char>>, in_code: bool, is_diff: bool) -> Seq<(LineKind, Seq<char>)>
    decreases ls.len(),
{
    if ls.len() == 0 {
        Seq::empty()
    } else {
        let k = line_kind(ls[0], in_code, is_diff);
        let next = if k == LineKind::Fence {
            !in_code
        } else {
            in_code
        };
        seq![(k, shown_text(ls[0], k))] + styled_lines(ls.drop_first(), next, is_diff)
    }
}

/// The kind and text of each styled line.
pub open spec fn styled_view(v: Seq<(LineKind, String)>) -> Seq<(LineKind, Seq<char>)> {
    v.map_values(|p: (LineKind, String)| (p.0, p.1@))
}

/// The styled lines of a message: each line of its content, classified in
/// order, with code blocks tracked from one line to the next.
pub fn message_lines(m: &Message) -> (r: Vec<(LineKind, String)>)
    ensures
        styled_view(r@) == styled_lines(lines_of(m.content@), false, is_diff_message(*m)),
{
    let is_diff = message_is_diff(m);
    let ls = split_lines(m.content.as_str());
    let ghost all = ls@.map_values(|x: String| x@);
    let mut in_code = false;
    let mut out: Vec<(LineKind, String)> = Vec::new();
    let mut i: usize = 0;
    assert(all.skip(0) =~= all);
    while i < ls.len()
        invariant
            i <= ls@.len(),
            all == ls@.map_values(|x: String| x@),
            all == lines_of(m.content@),
            styled_lines(all, false, is_diff) == styled_view(out@) + styled_lines(all.skip(i as int), in_code, is_diff),
        decreases ls.len() - i,
    {
        let ghost rest = all.skip(i as int);
        assert(rest[0] == ls@[i as int]@);
        assert(rest.drop_first() =~= all.skip(i + 1));
        let ghost before = styled_view(out@);
        let r = format_line(ls[i].as_str(), &mut in_code, is_diff);
        out.push(r);
        assert(styled_view(out@) =~= before.push((r.0, r.1@)));
        i = i + 1;
    }
    assert(all.skip(ls@.len() as int) =~= Seq::<Seq<char>>::empty());
    assert(styled_view(out@) + Seq::<(LineKind, Seq<char>)>::empty() =~= styled_view(out@));
    out
}

/// Whether message `idx` lies in the visual selection.
pub fn in_visual_selection(app: &TuiApp, idx: usize) -> (b: bool)
    ensures
        b == match (app.visual_start, app.visual_end) {
            (Some(s), Some(e)) => (if s <= e {
                s
            } else {
                e
            }) <= idx && idx <= (if s <= e {
                e
            } else {
                s
            }),
            _ => false,
        },
{
    match (app.visual_start, app.visual_end) {
        (Some(s), Some(e)) => {
            let lo = if s <= e {
                s
            } else {
                e
            };
            let hi = if s <= e {
                e
            } else {
                s
            };
            lo <= idx && idx <= hi
        },
        _ => false,
    }
}

/// Texts joined with a separator.
pub open spec fn joined(parts: Seq<Seq<char>>, sep: Seq<char>) -> Seq<char>
    decreases parts.len(),
{
    if parts.len() == 0 {
        Seq::empty()
    } else if parts.len() == 1 {
        parts[0]
    } else {
        joined(parts.drop_last(), sep) + sep + parts.last()
    }
}

/// The composer's title in each mode; in insert mode with a slash command
/// begun, the commands that complete it.
pub open spec fn composer_title_text(mode: InputMode, input: Seq<char>) -> Seq<char> {
    match mode {
        InputMode::Normal => " [NORMAL MODE - 'i' Chat / 'v' Visual / '/' Search] "@,
        InputMode::Insert => if input.len() > 0 && input[0] == '/' {
            if completions(input).len() > 0 {
                " [INSERT MODE - Suggestions: "@ + joined(completions(input), " │ "@) + "] "@
            } else {
                " [INSERT MODE - Slash Command] "@
            }
        } else {
            " [INSERT MODE - Type prompt and press Enter] "@
        },
        InputMode::Visual => " [VISUAL MODE - 'j/k' Select / 'y' Yank] "@,
        InputMode::Search => " [SEARCH MODE - Enter query] "@,
        InputMode::CommandPalette => " [COMMAND PALETTE] "@,
        InputMode::Approval => " [APPROVAL REQUIRED - 'y' Approve / 'n' Deny] "@,
    }
}

/// The composer's title.
pub fn composer_title(app: &TuiApp) -> (s: String)
    ensures
        s@ == composer_title_text(app.input_mode, app.input_buf@),
{
    match app.input_mode {
        InputMode::Normal => String::from_str(" [NORMAL MODE - 'i' Chat / 'v' Visual / '/' Search] "),
        InputMode::Insert => {
            let starts_slash = str_starts_with(app.input_buf.as_str(), "/");
            proof {
                reveal_strlit("/");
                assert("/"@[0] == '/');
                if app.input_buf@.len() > 0 {
                    assert(app.input_buf@.subrange(0, 1)[0] == app.input_buf@[0]);
                }
                if app.input_buf@.len() > 0 && app.input_buf@[0] == '/' {
                    assert(app.input_buf@.subrange(0, 1) =~= "/"@);
                }
            }
            if starts_slash {
                let cmds = slash_command_list();
                let ghost input = app.input_buf@;
                let mut parts: Vec<&str> = Vec::new();
                let mut i: usize = 0;
                while i < cmds.len()
                    invariant
                        i <= cmds@.len(),
                        input == app.input_buf@,
                        cmds@.map_values(|s: &str| s@) == slash_commands(),
                        parts@.map_values(|s: &str| s@) == slash_commands().take(i as int).filter(
                            |c: Seq<char>| occurs_at(c, input, 0),
                        ),
                    decreases cmds.len() - i,
                {
                    let ghost before = parts@.map_values(|s: &str| s@);
                    assert(slash_commands().take(i + 1) =~= slash_commands().take(i as int).push(
                        cmds@[i as int]@,
                    ));
                    proof {
                        slash_commands().take(i as int).lemma_filter_push(
                            cmds@[i as int]@,
                            |c: Seq<char>| occurs_at(c, input, 0),
                        );
                    }
                    if str_starts_with(cmds[i], app.input_buf.as_str()) {
                        parts.push(cmds[i]);
                        assert(parts@.map_values(|s: &str| s@) =~= before.push(cmds@[i as int]@));
                    }
                    i = i + 1;
                }
                assert(slash_commands().take(8) =~= slash_commands());
                if parts.len() == 0 {
                    String::from_str(" [INSERT MODE - Slash Command] ")
                } else {
                    let ghost ps = parts@.map_values(|s: &str| s@);
                    let mut s = String::from_str(" [INSERT MODE - Suggestions: ");
                    let ghost head = s@;
                    let mut k: usize = 0;
                    while k < parts.len()
                        invariant
                            k <= parts@.len(),
                            ps == parts@.map_values(|s: &str| s@),
                            s@ == head + joined(ps.take(k as int), " │ "@),
                        decreases parts.len() - k,
                    {
                        assert(ps.take(k + 1).drop_last() =~= ps.take(k as int));
                        if k > 0 {
                            s.append(" │ ");
                        } else {
                            assert(joined(ps.take(0), " │ "@) =~= Seq::<char>::empty());
                        }
                        s.append(parts[k]);
                        k = k + 1;
                    }
                    assert(ps.take(parts@.len() as int) =~= ps);
                    s.append("] ");
                    s
                }
            } else {
                String::from_str(" [INSERT MODE - Type prompt and press Enter] ")
            }
        },
        InputMode::Visual => String::from_str(" [VISUAL MODE - 'j/k' Select / 'y' Yank] "),
        InputMode::Search => String::from_str(" [SEARCH MODE - Enter query] "),
        InputMode::CommandPalette => String::from_str(" [COMMAND PALETTE] "),
        InputMode::Approval => String::from_str(" [APPROVAL REQUIRED - 'y' Approve / 'n' Deny] "),
    }
}

/// The marker in front of the composer's text in each mode.
pub open spec fn mode_indicator_text(mode: InputMode) -> Seq<char> {
    match mode {
        InputMode::Search => " /"@,
        InputMode::CommandPalette => " :"@,
        _ => "› "@,
    }
}

/// The composer's text: the search text in search mode, the prompt
/// otherwise, after the mode's marker.
pub fn composer_text(app: &TuiApp) -> (s: String)
    ensures
        s@ == mode_indicator_text(app.input_mode) + if app.input_mode == InputMode::Search {
            app.search_buf@
        } else {
            app.input_buf@
        },
{
    let indicator = match app.input_mode {
        InputMode::Search => " /",
        InputMode::CommandPalette => " :",
        _ => "› ",
    };
    if app.input_mode == InputMode::Search {
        concat2(indicator, app.search_buf.as_str())
    } else {
        concat2(indicator, app.input_buf.as_str())
    }
}

/// The header's name for an agent mode.
pub open spec fn agent_mode_text(mode: AgentMode) -> Seq<char> {
    match mode {
        AgentMode::Build => "BUILD"@,
        AgentMode::Plan => "PLAN"@,
        AgentMode::Explore => "EXPLORE"@,
    }
}

/// The header's name for an agent mode.
pub fn agent_mode_label(mode: AgentMode) -> (s: &'static str)
    ensures
        s@ == agent_mode_text(mode),
{
    match mode {
        AgentMode::Build => "BUILD",
        AgentMode::Plan => "PLAN",
        AgentMode::Explore => "EXPLORE",
    }
}

/// The header's token usage: used over limit.
pub fn context_usage(app: &TuiApp) -> (s: String)
    ensures
        s@ == decimal(app.tokens_used as nat) + "/"@ + decimal(app.tokens_limit as nat),
{
    let mut s = decimal_string(app.tokens_used as u64);
    s.append("/");
    let d = decimal_string(app.tokens_limit as u64);
    s.append(d.as_str());
    s
}

/// The spinner's frames.
pub open spec fn spinner_frames() -> Seq<Seq<char>> {
    seq!["⠋"@, "⠙"@, "⠹"@, "⠸"@, "⠼"@, "⠴"@, "⠦"@, "⠧"@, "⠇"@, "⠏"@]
}

/// The status bar, which animates a spinner while the agent is busy.
#[derive(Debug, Clone, Copy, PartialEq, Eq)]
pub struct StatusBarComponent {
    /// Frames drawn so far while busy.
    pub spinner_tick: usize,
}

/// The status bar's text, with the spinner frame in front of the status
/// while the agent is busy.
pub open spec fn status_line_text(status: Seq<char>, spinner: Seq<char>) -> Seq<char> {
    "  Status: "@ + spinner + status + "  │  q: Exit  │  Ctrl+p: Commands"@
}

impl StatusBarComponent {
    /// A status bar whose spinner has not moved.
    pub fn new() -> (b: StatusBarComponent)
        ensures
            b.spinner_tick == 0,
    {
        StatusBarComponent { spinner_tick: 0 }
    }

    /// The status bar's text for the interface. The agent is busy unless
    /// the status is `Ready` or the interface is finishing; while it is, the
    /// current spinner frame is shown and the spinner moves on.
    pub fn line(&mut self, app: &TuiApp) -> (s: String)
        requires
            old(self).spinner_tick < usize::MAX,
        ensures
            ({
                let busy = app.status@ != "Ready"@ && !app.finished;
                &&& busy ==> final(self).spinner_tick == old(self).spinner_tick + 1
                    && s@ == status_line_text(
                    app.status@,
                    spinner_frames()[(old(self).spinner_tick % 10) as int] + " "@,
                )
                &&& !busy ==> *final(self) == *old(self) && s@ == status_line_text(
                    app.status@,
                    Seq::empty(),
                )
            }),
    {
        let busy = !str_eq(app.status.as_str(), "Ready") && !app.finished;
        let mut s = String::from_str("  Status: ");
        if busy {
            let frames: [&str; 10] = ["⠋", "⠙", "⠹", "⠸", "⠼", "⠴", "⠦", "⠧", "⠇", "⠏"];
            let k = self.spinner_tick % 10;
            let frame = frames[k];
            proof {
                assert(frames@.map_values(|f: &str| f@) =~= spinner_frames());
                assert(frames@[k as int]@ == spinner_frames()[k as int]);
            }
            self.spinner_tick = self.spinner_tick + 1;
            s.append(frame);
            s.append(" ");
        }
        s.append(app.status.as_str());
        s.append("  │  q: Exit  │  Ctrl+p: Commands");
        s
    }
}

/// The command palette's entries, in order.
pub open spec fn palette_entries() -> Seq<Seq<char>> {
    seq![
        "1. Set Agent Mode -> BUILD (Read & Write Tools)"@,
        "2. Set Agent Mode -> PLAN (Read-Only Planning)"@,
        "3. Set Agent Mode -> EXPLORE (Fast Search Only)"@,
    ]
}

/// The command palette's entries.
pub fn palette_options() -> (v: Vec<&'static str>)
    ensures
        v@.map_values(|s: &str| s@) == palette_entries(),
{
    let mut v: Vec<&'static str> = Vec::new();
    v.push("1. Set Agent Mode -> BUILD (Read & Write Tools)");
    v.push("2. Set Agent Mode -> PLAN (Read-Only Planning)");
    v.push("3. Set Agent Mode -> EXPLORE (Fast Search Only)");
    assert(v@.map_values(|s: &str| s@) =~= palette_entries());
    v
}

/// The number of characters of `t` that fill its first `b` bytes, when `b`
/// falls between two characters.
pub open spec fn char_count_at(t: Seq<char>, b: int) -> int {
    choose|k: int| 0 <= k <= t.len() && byte_len(t.take(k)) == b
}

/// The characters of `t` between byte offsets `a` and `b`.
pub open spec fn char_slice(t: Seq<char>, a: int, b: int) -> Seq<char> {
    t.subrange(char_count_at(t, a), char_count_at(t, b))
}

/// `Some(prefix + rest)` when `o` is `Some(rest)`, `None` otherwise.
pub open spec fn prepend_spans(prefix: Seq<(Seq<char>, bool)>, o: Option<Seq<(Seq<char>, bool)>>) -> Option<Seq<(Seq<char>, bool)>> {
    match o {
        Some(rest) => Some(prefix + rest),
        None => None,
    }
}

/// The spans of `t` from byte offset `last` on, given its lowercase form
/// `l`, the lowercase search text `q` and the search text's byte length
/// `n`: each next occurrence of `q` in `l` marks the `n` bytes of `t` at the
/// same offset as a match, and the text between matches stays plain. `None`
/// where an offset would fall outside a text or inside a character.
pub open spec fn highlight_from(t: Seq<char>, l: Seq<char>, q: Seq<char>, n: nat, last: int) -> Option<Seq<(Seq<char>, bool)>>
    decreases byte_len(l) + 1 - last,
{
    if last < 0 || n == 0 || !is_boundary(l, last) {
        None
    } else {
        let ci = char_count_at(l, last);
        match find_from(l, q, ci) {
            Some(mi) => {
                let ms = byte_len(l.take(mi)) as int;
                let me = ms + n;
                if !is_boundary(t, ms) || !is_boundary(t, me) || (ms > last && !is_boundary(t, last)) || me > byte_len(l) {
                    None
                } else {
                    proof {
                        lemma_find_from(l, q, ci);
                        if ci < mi {
                            lemma_prefix_byte_len_strict(l, ci, mi);
                        }
                    }
                    let head = if ms > last {
                        seq![(char_slice(t, last, ms), false)]
                    } else {
                        Seq::empty()
                    };
                    prepend_spans(head.push((char_slice(t, ms, me), true)), highlight_from(t, l, q, n, me))
                }
            },
            None => if last < byte_len(t) {
                if is_boundary(t, last) {
                    Some(seq![(char_slice(t, last, byte_len(t) as int), false)])
                } else {
                    None
                }
            } else {
                Some(Seq::empty())
            },
        }
    }
}

/// The spans in which a line shows the matches of a search, ignoring case:
/// the whole line when there is no search text.
pub open spec fn highlight_spans(text: Seq<char>, query: Seq<char>) -> Option<Seq<(Seq<char>, bool)>> {
    if query.len() == 0 {
        Some(seq![(text, false)])
    } else {
        highlight_from(text, lowercase(text), lowercase(query), byte_len(query), 0)
    }
}

/// The text and highlighting of each span.
pub open spec fn spans_view(v: Seq<(String, bool)>) -> Seq<(Seq<char>, bool)> {
    v.map_values(|p: (String, bool)| (p.0@, p.1))
}

/// The byte offset of the first `k` characters of `v`.
fn byte_offset(v: &Vec<char>, k: usize) -> (b: usize)
    requires
        k <= v@.len(),
        byte_len(v@) <= usize::MAX,
    ensures
        b == byte_len(v@.take(k as int)),
{
    let mut i: usize = 0;
    let mut acc: usize = 0;
    assert(v@.take(0) =~= Seq::<char>::empty());
    while i < k
        invariant
            i <= k <= v@.len(),
            byte_len(v@) <= usize::MAX,
            acc == byte_len(v@.take(i as int)),
        decreases k - i,
    {
        proof {
            assert(v@.take(i + 1) =~= v@.take(i as int).push(v@[i as int]));
            lemma_byte_len_push(v@.take(i as int), v@[i as int]);
            lemma_byte_len_prefix(v@, i + 1);
        }
        acc = acc + char_width_exec(v[i]);
        i = i + 1;
    }
    acc
}

/// The characters of `v` between byte offsets `a` and `b`, or `None` when
/// either falls inside a character or past the end.
fn slice_at(v: &Vec<char>, a: usize, b: usize) -> (r: Option<String>)
    requires
        a <= b,
    ensures
        (is_boundary(v@, a as int) && is_boundary(v@, b as int)) <==> r is Some,
        r matches Some(s) ==> s@ == char_slice(v@, a as int, b as int),
{
    let ia = boundary_index(v, a);
    let ib = boundary_index(v, b);
    match (ia, ib) {
        (Some(i), Some(j)) => {
            proof {
                let ka = char_count_at(v@, a as int);
                let kb = char_count_at(v@, b as int);
                lemma_boundary_unique(v@, i as int, ka);
                lemma_boundary_unique(v@, j as int, kb);
                if j < i {
                    lemma_prefix_byte_len_strict(v@, j as int, i as int);
                }
            }
            Some(string_of_range(v, i, j))
        },
        _ => None,
    }
}

/// The spans in which `text` shows the matches of `query`, ignoring case,
/// or `None` where a match's offsets in the lowercase text do not fall
/// between characters of the text.
pub fn highlight_search(text: &str, query: &str) -> (r: Option<Vec<(String, bool)>>)
    ensures
        match (r, highlight_spans(text@, query@)) {
            (Some(v), Some(w)) => spans_view(v@) == w,
            (None, None) => true,
            _ => false,
        },
{
    if query.is_empty() {
        let mut v: Vec<(String, bool)> = Vec::new();
        v.push((String::from_str(text), false));
        assert(spans_view(v@) =~= seq![(text@, false)]);
        return Some(v);
    }
    let t = chars_of(text);
    let lower = to_lowercase(text);
    let l = chars_of(lower.as_str());
    let lq = to_lowercase(query);
    let q = chars_of(lq.as_str());
    let n = str_byte_len(query);
    let l_total = str_byte_len(lower.as_str());
    let t_total = str_byte_len(text);
    let mut out: Vec<(String, bool)> = Vec::new();
    let mut last: usize = 0;
    loop
        invariant
            t@ == text@,
            l@ == lowercase(text@),
            q@ == lowercase(query@),
            n == byte_len(query@),
            n > 0,
            l_total == byte_len(l@),
            t_total == byte_len(t@),
            last <= l_total + 1,
            highlight_spans(text@, query@) == prepend_spans(
                spans_view(out@),
                highlight_from(t@, l@, q@, n as nat, last as int),
            ),
        decreases l_total + 1 - last,
    {
        let ghost before = spans_view(out@);
        let ci = match boundary_index(&l, last) {
            Some(ci) => ci,
            None => {
                return None;
            },
        };
        proof {
            let kc = char_count_at(l@, last as int);
            lemma_boundary_unique(l@, ci as int, kc);
            lemma_find_from(l@, q@, ci as int);
        }
        match find_from_exec(&l, &q, ci) {
            Some(mi) => {
                let ms = byte_offset(&l, mi);
                proof {
                    if ci < mi {
                        lemma_prefix_byte_len_strict(l@, ci as int, mi as int);
                    }
                    lemma_byte_len_prefix(l@, mi as int);
                }
                if n > l_total - ms {
                    assert(highlight_from(t@, l@, q@, n as nat, last as int) is None);
                    return None;
                }
                let me = ms + n;
                let matched = match slice_at(&t, ms, me) {
                    Some(s) => s,
                    None => {
                        return None;
                    },
                };
                if ms > last {
                    match slice_at(&t, last, ms) {
                        Some(s) => {
                            out.push((s, false));
                        },
                        None => {
                            return None;
                        },
                    }
                }
                out.push((matched, true));
                let ghost head = if ms > last {
                    seq![(char_slice(t@, last as int, ms as int), false)]
                } else {
                    Seq::<(Seq<char>, bool)>::empty()
                };
                assert(spans_view(out@) =~= before + head.push((char_slice(t@, ms as int, me as int), true)));
                assert(highlight_from(t@, l@, q@, n as nat, last as int) == prepend_spans(
                    head.push((char_slice(t@, ms as int, me as int), true)),
                    highlight_from(t@, l@, q@, n as nat, me as int),
                ));
                proof {
                    match highlight_from(t@, l@, q@, n as nat, me as int) {
                        Some(rest) => {
                            assert(before + (head.push((char_slice(t@, ms as int, me as int), true)) + rest)
                                =~= spans_view(out@) + rest);
                        },
                        None => {},
                    }
                }
                last = me;
            },
            None => {
                if last < t_total {
                    proof {
                        assert(t@.take(t@.len() as int) =~= t@);
                        assert(is_boundary(t@, t_total as int));
                    }
                    match slice_at(&t, last, t_total) {
                        Some(s) => {
                            out.push((s, false));
                            assert(spans_view(out@) =~= before + seq![(char_slice(t@, last as int, t_total as int), false)]);
                        },
                        None => {
                            return None;
                        },
                    }
                } else {
                    assert(before + Seq::<(Seq<char>, bool)>::empty() =~= before);
                }
                return Some(out);
            },
        }
    }
}

} // verus!
