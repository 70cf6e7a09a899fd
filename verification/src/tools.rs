//! The agent's tools: their outputs, their registry and the pure parts of
//! their work.
use vstd::prelude::*;
use vstd::string::*;
use crate::sandbox::SandboxPolicy;
use crate::text::{
    boundary_index, byte_len, byte_prefix, chars_of, decimal, decimal_string, find_from,
    find_from_exec, is_boundary, lemma_boundary_unique, lemma_find_from, str_byte_len, str_eq,
    string_of_range, contains_seq, str_contains, lines_of, split_lines, signed_decimal,
    signed_decimal_string, push_char, occurs_at,
};
use vstd::utf8::encode_utf8;

verus! {

broadcast use vstd::string::group_string_axioms;

// ---------------------------------------------------------------------------
// Tool outputs
// ---------------------------------------------------------------------------
/// What a tool hands back to the agent.
#[derive(Debug, Clone)]
pub struct ToolOutput {
    pub content: String,
    /// Whether `content` was cut short.
    pub truncated: bool,
    /// The byte length of the output before any cut.
    pub full_length: usize,
}

impl ToolOutput {
    /// A complete output.
    pub fn new(content: String) -> (o: ToolOutput)
        ensures
            o.content == content,
            !o.truncated,
            o.full_length == byte_len(content@),
    {
        let len = str_byte_len(content.as_str());
        ToolOutput { content, truncated: false, full_length: len }
    }

    /// An output cut short from `full_length` bytes.
    pub fn new_truncated(content: String, full_length: usize) -> (o: ToolOutput)
        ensures
            o.content == content,
            o.truncated,
            o.full_length == full_length,
    {
        ToolOutput { content, truncated: true, full_length }
    }
}

/// The output limit fits the text: either it is short enough or the limit
/// falls between two characters.
pub open spec fn cuttable(c: Seq<char>, limit: usize) -> bool {
    byte_len(c) <= limit || is_boundary(c, limit as int)
}

/// `content` as a tool output of at most `limit` bytes: kept whole when it
/// fits, otherwise its first `limit` bytes, marked as truncated and carrying
/// the length of the whole.
pub fn limit_output(content: String, limit: usize) -> (o: ToolOutput)
    requires
        cuttable(content@, limit),
    ensures
        byte_len(content@) <= limit ==> o.content == content && !o.truncated && o.full_length
            == byte_len(content@),
        byte_len(content@) > limit ==> o.content@ == byte_prefix(content@, limit as int)
            && o.truncated && o.full_length == byte_len(content@),
{
    let len = str_byte_len(content.as_str());
    if len > limit {
        let chars = chars_of(content.as_str());
        match boundary_index(&chars, limit) {
            Some(k) => {
                proof {
                    let kk = choose|kk: int|
                        0 <= kk <= content@.len() && byte_len(content@.take(kk)) == limit as int;
                    lemma_boundary_unique(content@, k as int, kk);
                }
                let cut = string_of_range(&chars, 0, k);
                ToolOutput::new_truncated(cut, len)
            },
            None => ToolOutput::new(content),
        }
    } else {
        ToolOutput::new(content)
    }
}

/// The byte limit of a file read.
pub const READ_LIMIT: usize = 10000;

/// The byte limit of a shell command's report.
pub const SHELL_LIMIT: usize = 6000;

/// The byte limit of a web search result.
pub const SEARCH_LIMIT: usize = 4000;

/// The byte limit of a fetched page.
pub const FETCH_LIMIT: usize = 8000;

// ---------------------------------------------------------------------------
// Modes
// ---------------------------------------------------------------------------
/// The agent's working mode, which decides the tools it may use.
#[derive(Debug, Clone, Copy, PartialEq, Eq)]
pub enum AgentMode {
    /// Every tool.
    Build,
    /// Everything but the tools that change files or run commands.
    Plan,
    /// Only the tools that read and search.
    Explore,
}

/// Whether mode `mode` offers the tool named `name`.
pub open spec fn mode_allows(mode: AgentMode, name: Seq<char>) -> bool {
    match mode {
        AgentMode::Build => true,
        AgentMode::Plan => name != "write_file"@ && name != "edit_file"@ && name != "run_shell"@,
        AgentMode::Explore => name == "read_file"@ || name == "list_dir"@ || name == "grep"@ || name
            == "find_definition"@ || name == "list_symbols"@,
    }
}

/// Whether mode `mode` offers the tool named `name`.
pub fn mode_allows_exec(mode: AgentMode, name: &str) -> (b: bool)
    ensures
        b == mode_allows(mode, name@),
{
    match mode {
        AgentMode::Build => true,
        AgentMode::Plan => !str_eq(name, "write_file") && !str_eq(name, "edit_file") && !str_eq(
            name,
            "run_shell",
        ),
        AgentMode::Explore => str_eq(name, "read_file") || str_eq(name, "list_dir") || str_eq(
            name,
            "grep",
        ) || str_eq(name, "find_definition") || str_eq(name, "list_symbols"),
    }
}

/// The tools each mode offers: build mode every tool; plan mode every tool
/// but write_file, edit_file and run_shell; explore mode only read_file,
/// list_dir, grep, find_definition and list_symbols.
pub proof fn law_mode_offers(name: Seq<char>)
    ensures
        mode_allows(AgentMode::Build, name),
        mode_allows(AgentMode::Plan, name) <==> !(name == "write_file"@ || name == "edit_file"@ || name
            == "run_shell"@),
        mode_allows(AgentMode::Explore, name) <==> (name == "read_file"@ || name == "list_dir"@ || name
            == "grep"@ || name == "find_definition"@ || name == "list_symbols"@),
{
}

/// Build mode offers every tool; plan mode offers none of the tools that
/// change files or run commands; explore mode offers only tools that plan
/// mode offers too.
pub proof fn law_modes_narrow(name: Seq<char>)
    ensures
        mode_allows(AgentMode::Build, name),
        name == "write_file"@ || name == "edit_file"@ || name == "run_shell"@ ==> !mode_allows(
            AgentMode::Plan,
            name,
        ),
        mode_allows(AgentMode::Explore, name) ==> mode_allows(AgentMode::Plan, name),
{
    reveal_strlit("write_file");
    reveal_strlit("edit_file");
    reveal_strlit("run_shell");
    reveal_strlit("read_file");
    reveal_strlit("list_dir");
    reveal_strlit("grep");
    reveal_strlit("find_definition");
    reveal_strlit("list_symbols");
    assert("write_file"@.len() == 10 && "list_symbols"@.len() == 12 && "find_definition"@.len() == 15);
    assert("list_dir"@.len() == 8 && "grep"@.len() == 4);
    assert("edit_file"@.len() == 9 && "edit_file"@[0] == 'e');
    assert("run_shell"@.len() == 9 && "run_shell"@[1] == 'u');
    assert("read_file"@.len() == 9 && "read_file"@[0] == 'r' && "read_file"@[1] == 'e');
}

// ---------------------------------------------------------------------------
// The registry
// ---------------------------------------------------------------------------
/// The tools of an agent, each under its name. They are held as a list of
/// entries whose names are unique, which Verus can reason about; vstd
/// specifies no lookup in a `HashMap` keyed by `String`.
pub struct ToolRegistry<T> {
    entries: Vec<(String, T)>,
}

/// The map from names to tools that a list of entries describes.
pub open spec fn entries_map<T>(es: Seq<(String, T)>) -> Map<Seq<char>, T>
    decreases es.len(),
{
    if es.len() == 0 {
        Map::empty()
    } else {
        entries_map(es.drop_last()).insert(es.last().0@, es.last().1)
    }
}

/// No two entries share a name.
pub open spec fn names_unique<T>(es: Seq<(String, T)>) -> bool {
    forall|i: int, j: int| 0 <= i < es.len() && 0 <= j < es.len() && i != j ==> es[i].0@ != es[j].0@
}

/// The map of a list of uniquely named entries holds exactly their names and values.
pub proof fn lemma_entries_map<T>(es: Seq<(String, T)>)
    requires
        names_unique(es),
    ensures
        forall|k: Seq<char>|
            entries_map(es).dom().contains(k) <==> exists|i: int| 0 <= i < es.len() && es[i].0@ == k,
        forall|i: int| 0 <= i < es.len() ==> #[trigger] entries_map(es)[es[i].0@] == es[i].1,
        entries_map(es).dom().finite(),
    decreases es.len(),
{
    if es.len() > 0 {
        let init = es.drop_last();
        assert(names_unique(init));
        lemma_entries_map(init);
        assert forall|k: Seq<char>|
            entries_map(es).dom().contains(k) <==> exists|i: int| 0 <= i < es.len() && es[i].0@ == k by {
            if entries_map(es).dom().contains(k) && k != es.last().0@ {
                let i = choose|i: int| 0 <= i < init.len() && init[i].0@ == k;
                assert(es[i] == init[i]);
            }
            if exists|i: int| 0 <= i < es.len() && es[i].0@ == k {
                let i = choose|i: int| 0 <= i < es.len() && es[i].0@ == k;
                if i < es.len() - 1 {
                    assert(init[i] == es[i]);
                }
            }
        }
        assert forall|i: int| 0 <= i < es.len() implies #[trigger] entries_map(es)[es[i].0@] == es[i].1 by {
            if i < es.len() - 1 {
                assert(init[i] == es[i]);
            }
        }
    }
}

impl<T> ToolRegistry<T> {
    #[verifier::type_invariant]
    spec fn unique(self) -> bool {
        names_unique(self.entries@)
    }

    /// The registered tools by name.
    pub closed spec fn tools(self) -> Map<Seq<char>, T> {
        entries_map(self.entries@)
    }

    /// An empty registry.
    pub fn new() -> (r: Self)
        ensures
            r.tools() == Map::<Seq<char>, T>::empty(),
    {
        ToolRegistry { entries: Vec::new() }
    }

    fn position(&self, name: &str) -> (r: Option<usize>)
        ensures
            r matches Some(i) ==> i < self.entries@.len() && self.entries@[i as int].0@ == name@,
            r is None ==> forall|i: int| 0 <= i < self.entries@.len() ==> self.entries@[i].0@ != name@,
    {
        let mut i: usize = 0;
        while i < self.entries.len()
            invariant
                i <= self.entries@.len(),
                forall|j: int| 0 <= j < i ==> self.entries@[j].0@ != name@,
            decreases self.entries.len() - i,
        {
            if str_eq(self.entries[i].0.as_str(), name) {
                return Some(i);
            }
            i = i + 1;
        }
        None
    }

    /// Registers `tool` under `name`, replacing any tool of that name.
    pub fn register(&mut self, name: &str, tool: T)
        ensures
            final(self).tools() == old(self).tools().insert(name@, tool),
    {
        proof {
            use_type_invariant(&*self);
            lemma_entries_map(self.entries@);
        }
        let ghost before = self.entries@;
        let mut entries = Vec::new();
        std::mem::swap(&mut entries, &mut self.entries);
        let mut i: usize = 0;
        let mut at: Option<usize> = None;
        while i < entries.len()
            invariant
                entries@ == before,
                i <= entries@.len(),
                at matches Some(k) ==> k < entries@.len() && entries@[k as int].0@ == name@,
                at is None ==> forall|j: int| 0 <= j < i ==> entries@[j].0@ != name@,
            decreases entries.len() - i,
        {
            if at.is_none() && str_eq(entries[i].0.as_str(), name) {
                at = Some(i);
            }
            i = i + 1;
        }
        match at {
            Some(k) => {
                entries.set(k, (String::from_str(name), tool));
                proof {
                    let after = entries@;
                    assert(names_unique(after));
                    lemma_entries_map(after);
                    assert(entries_map(after) =~= entries_map(before).insert(name@, tool)) by {
                        assert forall|key: Seq<char>| #[trigger] entries_map(after).dom().contains(key) <==> entries_map(before).insert(name@, tool).dom().contains(key) by {
                            if entries_map(after).dom().contains(key) {
                                let j = choose|j: int| 0 <= j < after.len() && after[j].0@ == key;
                                if j != k {
                                    assert(before[j] == after[j]);
                                    assert(exists|i: int| 0 <= i < before.len() && before[i].0@ == key);
                                }
                            }
                            if entries_map(before).insert(name@, tool).dom().contains(key) {
                                if key == name@ {
                                    assert(after[k as int].0@ == key);
                                    assert(exists|i: int| 0 <= i < after.len() && after[i].0@ == key);
                                } else {
                                    let j = choose|j: int| 0 <= j < before.len() && before[j].0@ == key;
                                    assert(before[j] == after[j]);
                                    assert(exists|i: int| 0 <= i < after.len() && after[i].0@ == key);
                                }
                            }
                        }
                        assert forall|key: Seq<char>| #[trigger] entries_map(after).dom().contains(key) implies entries_map(after)[key] == entries_map(before).insert(name@, tool)[key] by {
                            let j = choose|j: int| 0 <= j < after.len() && after[j].0@ == key;
                            assert(entries_map(after)[after[j].0@] == after[j].1);
                            if j != k {
                                assert(before[j] == after[j]);
                                assert(entries_map(before)[before[j].0@] == before[j].1);
                            }
                        }
                    }
                }
            },
            None => {
                entries.push((String::from_str(name), tool));
                proof {
                    assert(entries@.drop_last() =~= before);
                }
            },
        }
        self.entries = entries;
    }

    /// The tool registered under `name`.
    pub fn get(&self, name: &str) -> (r: Option<&T>)
        ensures
            self.tools().dom().contains(name@) ==> (r matches Some(t) && *t == self.tools()[name@]),
            !self.tools().dom().contains(name@) ==> r is None,
    {
        proof {
            use_type_invariant(self);
            lemma_entries_map(self.entries@);
        }
        match self.position(name) {
            Some(i) => Some(&self.entries[i].1),
            None => None,
        }
    }

    /// The number of registered tools.
    pub fn len(&self) -> (n: usize)
        ensures
            n == self.tools().dom().len(),
    {
        proof {
            use_type_invariant(self);
            lemma_entries_len(self.entries@);
        }
        self.entries.len()
    }

    /// All registered tools, each once.
    pub fn list(&self) -> (r: Vec<&T>)
        ensures
            r@.len() == self.tools().dom().len(),
            forall|i: int| 0 <= i < r@.len() ==> self.tools().values().contains(*#[trigger] r@[i]),
            forall|k: Seq<char>| self.tools().dom().contains(k) ==> exists|i: int| 0 <= i < r@.len() && *r@[i] == self.tools()[k],
    {
        proof {
            use_type_invariant(self);
            lemma_entries_map(self.entries@);
            lemma_entries_len(self.entries@);
        }
        let mut r: Vec<&T> = Vec::new();
        let mut i: usize = 0;
        while i < self.entries.len()
            invariant
                i <= self.entries@.len(),
                r@.len() == i,
                forall|j: int| 0 <= j < i ==> *r@[j] == self.entries@[j].1,
            decreases self.entries.len() - i,
        {
            r.push(&self.entries[i].1);
            i = i + 1;
        }
        proof {
            assert forall|j: int| 0 <= j < r@.len() implies self.tools().values().contains(*#[trigger] r@[j]) by {
                assert(entries_map(self.entries@)[self.entries@[j].0@] == self.entries@[j].1);
                assert(exists|i: int| 0 <= i < self.entries@.len() && self.entries@[i].0@ == self.entries@[j].0@);
                assert(self.tools().dom().contains(self.entries@[j].0@));
            }
            assert forall|k: Seq<char>| self.tools().dom().contains(k) implies exists|j: int| 0 <= j < r@.len() && *r@[j] == self.tools()[k] by {
                let j = choose|j: int| 0 <= j < self.entries@.len() && self.entries@[j].0@ == k;
                assert(entries_map(self.entries@)[self.entries@[j].0@] == self.entries@[j].1);
                assert(*r@[j] == self.tools()[k]);
            }
        }
        r
    }
}

/// A lookup finds what was last registered under its name, and registering
/// leaves every other name as it was.
pub proof fn law_lookup_after_register<T>(before: ToolRegistry<T>, after: ToolRegistry<T>, name: Seq<char>, tool: T)
    requires
        after.tools() == before.tools().insert(name, tool),
    ensures
        after.tools().dom().contains(name),
        after.tools()[name] == tool,
        forall|k: Seq<char>| k != name ==> (#[trigger] after.tools().dom().contains(k) <==> before.tools().dom().contains(k)),
        forall|k: Seq<char>| k != name && before.tools().dom().contains(k) ==> #[trigger] after.tools()[k] == before.tools()[k],
{
}

/// Narrowing a registry to a mode twice offers the same tools as narrowing
/// it once.
pub proof fn law_mode_filter_twice(names: Set<Seq<char>>, mode: AgentMode)
    ensures
        names.filter(|k: Seq<char>| mode_allows(mode, k)).filter(|k: Seq<char>| mode_allows(mode, k))
            == names.filter(|k: Seq<char>| mode_allows(mode, k)),
{
    assert(names.filter(|k: Seq<char>| mode_allows(mode, k)).filter(|k: Seq<char>| mode_allows(mode, k))
        =~= names.filter(|k: Seq<char>| mode_allows(mode, k)));
}

impl<T: Clone> ToolRegistry<T> {
    /// The registry of the tools that mode `mode` offers, each a clone of the
    /// registered one.
    pub fn for_mode(&self, mode: AgentMode) -> (r: Self)
        ensures
            r.tools().dom() == self.tools().dom().filter(|k: Seq<char>| mode_allows(mode, k)),
            forall|k: Seq<char>| #[trigger] r.tools().dom().contains(k) ==> cloned(self.tools()[k], r.tools()[k]),
    {
        proof {
            use_type_invariant(self);
            lemma_entries_map(self.entries@);
        }
        let ghost es = self.entries@;
        let mut out: Vec<(String, T)> = Vec::new();
        let ghost mut src: Seq<int> = Seq::empty();
        let mut i: usize = 0;
        while i < self.entries.len()
            invariant
                es == self.entries@,
                names_unique(es),
                i <= es.len(),
                src.len() == out@.len(),
                forall|j: int| 0 <= j < src.len() ==> 0 <= #[trigger] src[j] < i,
                forall|j: int, l: int| 0 <= j < l < src.len() ==> src[j] < src[l],
                forall|j: int| 0 <= j < src.len() ==> out@[j].0@ == es[#[trigger] src[j]].0@ && cloned(es[src[j]].1, out@[j].1) && mode_allows(mode, out@[j].0@),
                forall|m: int| 0 <= m < i && mode_allows(mode, #[trigger] es[m].0@) ==> exists|j: int| 0 <= j < src.len() && src[j] == m,
            decreases self.entries.len() - i,
        {
            let name = &self.entries[i].0;
            if mode_allows_exec(mode, name.as_str()) {
                let t = self.entries[i].1.clone();
                assert(cloned(es[i as int].1, t));
                let ghost old_src = src;
                let ghost old_out = out@;
                out.push((name.clone(), t));
                proof {
                    src = src.push(i as int);
                    assert forall|j: int| 0 <= j < src.len() implies out@[j].0@ == es[#[trigger] src[j]].0@ && cloned(es[src[j]].1, out@[j].1) && mode_allows(mode, out@[j].0@) by {
                        if j < old_src.len() {
                            assert(src[j] == old_src[j]);
                            assert(out@[j] == old_out[j]);
                        }
                    }
                    assert forall|m: int| 0 <= m < i + 1 && mode_allows(mode, #[trigger] es[m].0@) implies exists|j: int| 0 <= j < src.len() && src[j] == m by {
                        if m == i {
                            assert(src[src.len() - 1] == m);
                        } else {
                            let j = choose|j: int| 0 <= j < old_src.len() && old_src[j] == m;
                            assert(src[j] == m);
                        }
                    }
                }
            }
            i = i + 1;
        }
        let ghost outs = out@;
        proof {
            assert(names_unique(outs)) by {
                assert forall|a: int, b: int| 0 <= a < outs.len() && 0 <= b < outs.len() && a != b implies outs[a].0@ != outs[b].0@ by {
                    assert(src[a] != src[b]);
                    assert(outs[a].0@ == es[src[a]].0@);
                    assert(outs[b].0@ == es[src[b]].0@);
                }
            }
            lemma_entries_map(outs);
            assert(entries_map(outs).dom() =~= entries_map(es).dom().filter(|k: Seq<char>| mode_allows(mode, k))) by {
                assert forall|k: Seq<char>| entries_map(outs).dom().contains(k) implies entries_map(es).dom().filter(|k: Seq<char>| mode_allows(mode, k)).contains(k) by {
                    let j = choose|j: int| 0 <= j < outs.len() && outs[j].0@ == k;
                    assert(outs[j].0@ == es[src[j]].0@);
                    assert(exists|m: int| 0 <= m < es.len() && es[m].0@ == k);
                }
                assert forall|k: Seq<char>| entries_map(es).dom().filter(|k: Seq<char>| mode_allows(mode, k)).contains(k) implies entries_map(outs).dom().contains(k) by {
                    let m = choose|m: int| 0 <= m < es.len() && es[m].0@ == k;
                    let j = choose|j: int| 0 <= j < src.len() && src[j] == m;
                    assert(outs[j].0@ == k);
                }
            }
            assert forall|k: Seq<char>| #[trigger] entries_map(outs).dom().contains(k) implies cloned(entries_map(es)[k], entries_map(outs)[k]) by {
                let j = choose|j: int| 0 <= j < outs.len() && outs[j].0@ == k;
                assert(entries_map(outs)[outs[j].0@] == outs[j].1);
                assert(entries_map(es)[es[src[j]].0@] == es[src[j]].1);
            }
        }
        ToolRegistry { entries: out }
    }
}

/// A list of uniquely named entries describes as many tools as it has entries.
pub proof fn lemma_entries_len<T>(es: Seq<(String, T)>)
    requires
        names_unique(es),
    ensures
        entries_map(es).dom().len() == es.len(),
        entries_map(es).dom().finite(),
    decreases es.len(),
{
    if es.len() > 0 {
        let init = es.drop_last();
        assert(names_unique(init));
        lemma_entries_len(init);
        lemma_entries_map(init);
        if entries_map(init).dom().contains(es.last().0@) {
            let i = choose|i: int| 0 <= i < init.len() && init[i].0@ == es.last().0@;
            assert(es[i] == init[i]);
        }
    }
}

// ---------------------------------------------------------------------------
// Editing by find and replace
// ---------------------------------------------------------------------------
/// The number of non-overlapping occurrences of a non-empty `pat` in `s` at
/// or after `start`, taken leftmost first.
pub open spec fn count_from(s: Seq<char>, pat: Seq<char>, start: int) -> nat
    decreases s.len() + 1 - start,
{
    if pat.len() == 0 || start < 0 {
        0
    } else {
        match find_from(s, pat, start) {
            None => 0,
            Some(k) => {
                proof {
                    lemma_find_from(s, pat, start);
                }
                1 + count_from(s, pat, k + pat.len())
            },
        }
    }
}

/// The number of matches of `pat` in `s` that `str::matches` yields: the
/// non-overlapping occurrences, or one per character boundary when `pat` is
/// empty.
pub open spec fn occurrences(s: Seq<char>, pat: Seq<char>) -> nat {
    if pat.len() == 0 {
        s.len() + 1
    } else {
        count_from(s, pat, 0)
    }
}

/// `s` with its first occurrence of `pat` replaced by `rep`, for a `pat` that
/// occurs in `s`.
pub open spec fn replace_first(s: Seq<char>, pat: Seq<char>, rep: Seq<char>) -> Seq<char> {
    let k = find_from(s, pat, 0)->0;
    s.take(k) + rep + s.skip(k + pat.len())
}

/// With no occurrence of a non-empty `pat` at or after `start`, there is
/// nothing to count.
proof fn lemma_count_none(s: Seq<char>, pat: Seq<char>, start: int)
    requires
        pat.len() > 0,
        0 <= start,
        forall|j: int| start <= j ==> !occurs_at(s, pat, j),
    ensures
        count_from(s, pat, start) == 0,
{
    lemma_find_from(s, pat, start);
    if find_from(s, pat, start) is Some {
        let k = find_from(s, pat, start)->0;
        assert(occurs_at(s, pat, k));
    }
}

/// With an occurrence of a non-empty `pat` at or after `start`, the count is
/// at least one.
proof fn lemma_count_some(s: Seq<char>, pat: Seq<char>, start: int, k: int)
    requires
        pat.len() > 0,
        0 <= start <= k,
        occurs_at(s, pat, k),
    ensures
        count_from(s, pat, start) >= 1,
        find_from(s, pat, start) matches Some(f) && start <= f <= k,
{
    lemma_find_from(s, pat, start);
}

/// A block that does not occur in the text is not found.
pub proof fn law_edit_of_a_missing_block(s: Seq<char>, pat: Seq<char>)
    requires
        pat.len() > 0,
        forall|j: int| !occurs_at(s, pat, j),
    ensures
        occurrences(s, pat) == 0,
{
    lemma_count_none(s, pat, 0);
}

/// A block that occurs at exactly one index `k` is found once, and the edit
/// replaces exactly that occurrence: the text before it, the replacement,
/// then the text after it.
pub proof fn law_edit_of_a_unique_block(s: Seq<char>, pat: Seq<char>, rep: Seq<char>, k: int)
    requires
        pat.len() > 0,
        occurs_at(s, pat, k),
        forall|j: int| occurs_at(s, pat, j) ==> j == k,
    ensures
        occurrences(s, pat) == 1,
        replace_first(s, pat, rep) == s.take(k) + rep + s.skip(k + pat.len()),
{
    lemma_find_from(s, pat, 0);
    assert(find_from(s, pat, 0) == Some(k));
    lemma_count_none(s, pat, k + pat.len());
}

/// A block that occurs twice without overlap is ambiguous: it is counted at
/// least twice, so no edit is made.
pub proof fn law_edit_of_a_repeated_block(s: Seq<char>, pat: Seq<char>, k1: int, k2: int)
    requires
        pat.len() > 0,
        occurs_at(s, pat, k1),
        occurs_at(s, pat, k2),
        k1 + pat.len() <= k2,
    ensures
        occurrences(s, pat) >= 2,
{
    lemma_count_some(s, pat, 0, k1);
    let f = find_from(s, pat, 0)->0;
    lemma_count_some(s, pat, f + pat.len(), k2);
}

/// What a find-and-replace edit of a file comes to.
#[derive(Debug, Clone)]
pub enum EditPlan {
    /// The block to find does not occur.
    NotFound,
    /// The block occurs this many times (more than once).
    Ambiguous(usize),
    /// The block occurs once; this is the edited text.
    Replaced(String),
}

/// Plans the edit of `content` that replaces the block `find` by `replace`:
/// the edit happens only when `find` occurs exactly once.
pub fn plan_edit(content: &str, find: &str, replace: &str) -> (p: EditPlan)
    requires
        content@.len() < usize::MAX,
    ensures
        occurrences(content@, find@) == 0 <==> (p is NotFound),
        occurrences(content@, find@) > 1 <==> (p is Ambiguous),
        p matches EditPlan::Ambiguous(n) ==> n == occurrences(content@, find@),
        p matches EditPlan::Replaced(r) ==> occurrences(content@, find@) == 1 && r@ == replace_first(
            content@,
            find@,
            replace@,
        ),
{
    let v = chars_of(content);
    let f = chars_of(find);
    if f.len() == 0 {
        if v.len() == 0 {
            let mut r = String::new();
            r.append(replace);
            proof {
                assert(v@.subrange(0, 0) =~= f@);
                assert(find_from(v@, f@, 0) == Some(0int));
                assert(content@.take(0) + replace@ + content@.skip(0) =~= replace@);
            }
            return EditPlan::Replaced(r);
        }
        return EditPlan::Ambiguous(v.len() + 1);
    }
    // Count the occurrences, remembering the first.
    let mut count: usize = 0;
    let mut first: Option<usize> = None;
    let mut p: usize = 0;
    loop
        invariant
            f@.len() > 0,
            v@ == content@,
            f@ == find@,
            p <= v.len(),
            count <= p,
            count_from(v@, f@, 0) == count + count_from(v@, f@, p as int),
            count == 0 ==> find_from(v@, f@, 0) == find_from(v@, f@, p as int),
            first matches Some(k) ==> count > 0 && find_from(v@, f@, 0) == Some(k as int),
            count > 0 ==> first is Some,
        ensures
            count_from(v@, f@, 0) == count,
            count == 0 ==> find_from(v@, f@, 0) is None,
            first matches Some(k) ==> count > 0 && find_from(v@, f@, 0) == Some(k as int),
            count > 0 ==> first is Some,
        decreases v.len() - p,
    {
        proof {
            lemma_find_from(v@, f@, p as int);
        }
        match find_from_exec(&v, &f, p) {
            None => {
                assert(count_from(v@, f@, p as int) == 0);
                break;
            },
            Some(k) => {
                if first.is_none() {
                    first = Some(k);
                }
                count = count + 1;
                p = k + f.len();
            },
        }
    }
    if count == 0 {
        EditPlan::NotFound
    } else if count > 1 {
        EditPlan::Ambiguous(count)
    } else {
        match first {
            Some(k) => {
                proof {
                    lemma_find_from(v@, f@, 0);
                }
                let mut r = string_of_range(&v, 0, k);
                r.append(replace);
                let rest = string_of_range(&v, k + f.len(), v.len());
                r.append(rest.as_str());
                assert(v@.subrange(0, k as int) =~= content@.take(k as int));
                assert(v@.subrange(k + f.len(), v.len() as int) =~= content@.skip(k + f@.len()));
                EditPlan::Replaced(r)
            },
            None => EditPlan::NotFound,
        }
    }
}

/// The report of an edit whose block was not found.
pub const EDIT_NOT_FOUND: &'static str = "Error: The 'find' text block was not found in the file.";

/// The report of an edit whose block occurs `n` times.
pub fn ambiguous_edit_message(n: usize) -> (s: String)
    ensures
        s@ == "Error: The 'find' block is ambiguous (found "@ + decimal(n as nat) + " occurrences)."@,
{
    let mut s = String::from_str("Error: The 'find' block is ambiguous (found ");
    let d = decimal_string(n as u64);
    s.append(d.as_str());
    s.append(" occurrences).");
    s
}

/// `prefix` + `path` + `suffix`: a report about one path.
pub fn path_message(prefix: &str, path: &str, suffix: &str) -> (s: String)
    ensures
        s@ == prefix@ + path@ + suffix@,
{
    let mut s = String::from_str(prefix);
    s.append(path);
    s.append(suffix);
    s
}

// ---------------------------------------------------------------------------
// Built-in tools
// ---------------------------------------------------------------------------
/// The `read_file` tool.
#[derive(Debug, Clone, Copy)]
pub struct ReadFileTool;

impl ReadFileTool {
    /// The name under which the model calls this tool.
    pub fn name(&self) -> (n: &'static str)
        ensures
            n@ == "read_file"@,
    {
        "read_file"
    }

    /// What this tool does, as the system prompt presents it.
    pub fn description(&self) -> (d: &'static str)
        ensures
            d@ == "Reads the contents of a file from disk."@,
    {
        "Reads the contents of a file from disk."
    }

    /// The JSON text of this tool's parameter schema.
    pub fn parameters_schema(&self) -> (s: &'static str)
        ensures
            s@ == "{\"properties\":{\"path\":{\"description\":\"Absolute path or relative path to the file to read.\",\"type\":\"string\"}},\"required\":[\"path\"],\"type\":\"object\"}"@,
    {
        "{\"properties\":{\"path\":{\"description\":\"Absolute path or relative path to the file to read.\",\"type\":\"string\"}},\"required\":[\"path\"],\"type\":\"object\"}"
    }
}
/// The `write_file` tool.
#[derive(Debug, Clone, Copy)]
pub struct WriteFileTool;

impl WriteFileTool {
    /// The name under which the model calls this tool.
    pub fn name(&self) -> (n: &'static str)
        ensures
            n@ == "write_file"@,
    {
        "write_file"
    }

    /// What this tool does, as the system prompt presents it.
    pub fn description(&self) -> (d: &'static str)
        ensures
            d@ == "Creates a new file or overwrites an existing one with new content."@,
    {
        "Creates a new file or overwrites an existing one with new content."
    }

    /// The JSON text of this tool's parameter schema.
    pub fn parameters_schema(&self) -> (s: &'static str)
        ensures
            s@ == "{\"properties\":{\"content\":{\"description\":\"The file content to write.\",\"type\":\"string\"},\"path\":{\"description\":\"Absolute or relative path of the file to write.\",\"type\":\"string\"}},\"required\":[\"path\",\"content\"],\"type\":\"object\"}"@,
    {
        "{\"properties\":{\"content\":{\"description\":\"The file content to write.\",\"type\":\"string\"},\"path\":{\"description\":\"Absolute or relative path of the file to write.\",\"type\":\"string\"}},\"required\":[\"path\",\"content\"],\"type\":\"object\"}"
    }
}
/// The `edit_file` tool.
#[derive(Debug, Clone, Copy)]
pub struct EditFileTool;

impl EditFileTool {
    /// The name under which the model calls this tool.
    pub fn name(&self) -> (n: &'static str)
        ensures
            n@ == "edit_file"@,
    {
        "edit_file"
    }

    /// What this tool does, as the system prompt presents it.
    pub fn description(&self) -> (d: &'static str)
        ensures
            d@ == "Replaces a specific block of text in a file with new content."@,
    {
        "Replaces a specific block of text in a file with new content."
    }

    /// The JSON text of this tool's parameter schema.
    pub fn parameters_schema(&self) -> (s: &'static str)
        ensures
            s@ == "{\"properties\":{\"find\":{\"description\":\"The exact block of text to locate. Must match exactly.\",\"type\":\"string\"},\"path\":{\"description\":\"Path to the file to edit.\",\"type\":\"string\"},\"replace\":{\"description\":\"The replacement content.\",\"type\":\"string\"}},\"required\":[\"path\",\"find\",\"replace\"],\"type\":\"object\"}"@,
    {
        "{\"properties\":{\"find\":{\"description\":\"The exact block of text to locate. Must match exactly.\",\"type\":\"string\"},\"path\":{\"description\":\"Path to the file to edit.\",\"type\":\"string\"},\"replace\":{\"description\":\"The replacement content.\",\"type\":\"string\"}},\"required\":[\"path\",\"find\",\"replace\"],\"type\":\"object\"}"
    }
}
/// The `list_dir` tool.
#[derive(Debug, Clone, Copy)]
pub struct ListDirTool;

impl ListDirTool {
    /// The name under which the model calls this tool.
    pub fn name(&self) -> (n: &'static str)
        ensures
            n@ == "list_dir"@,
    {
        "list_dir"
    }

    /// What this tool does, as the system prompt presents it.
    pub fn description(&self) -> (d: &'static str)
        ensures
            d@ == "Lists files and directories inside a directory."@,
    {
        "Lists files and directories inside a directory."
    }

    /// The JSON text of this tool's parameter schema.
    pub fn parameters_schema(&self) -> (s: &'static str)
        ensures
            s@ == "{\"properties\":{\"path\":{\"description\":\"The directory path to list. Defaults to '.' if empty.\",\"type\":\"string\"}},\"type\":\"object\"}"@,
    {
        "{\"properties\":{\"path\":{\"description\":\"The directory path to list. Defaults to '.' if empty.\",\"type\":\"string\"}},\"type\":\"object\"}"
    }
}
/// The `grep` tool.
#[derive(Debug, Clone, Copy)]
pub struct GrepTool;

impl GrepTool {
    /// The name under which the model calls this tool.
    pub fn name(&self) -> (n: &'static str)
        ensures
            n@ == "grep"@,
    {
        "grep"
    }

    /// What this tool does, as the system prompt presents it.
    pub fn description(&self) -> (d: &'static str)
        ensures
            d@ == "Searches files recursively in a directory for a specific text pattern with glob filtering."@,
    {
        "Searches files recursively in a directory for a specific text pattern with glob filtering."
    }

    /// The JSON text of this tool's parameter schema.
    pub fn parameters_schema(&self) -> (s: &'static str)
        ensures
            s@ == "{\"properties\":{\"exclude_glob\":{\"description\":\"Optional glob pattern to exclude matching files (e.g. '*test*').\",\"type\":\"string\"},\"include_glob\":{\"description\":\"Optional glob pattern to include matching files (e.g. '*.rs').\",\"type\":\"string\"},\"path\":{\"description\":\"The directory to search. Defaults to '.' if empty.\",\"type\":\"string\"},\"pattern\":{\"description\":\"The text pattern or search string.\",\"type\":\"string\"}},\"required\":[\"pattern\"],\"type\":\"object\"}"@,
    {
        "{\"properties\":{\"exclude_glob\":{\"description\":\"Optional glob pattern to exclude matching files (e.g. '*test*').\",\"type\":\"string\"},\"include_glob\":{\"description\":\"Optional glob pattern to include matching files (e.g. '*.rs').\",\"type\":\"string\"},\"path\":{\"description\":\"The directory to search. Defaults to '.' if empty.\",\"type\":\"string\"},\"pattern\":{\"description\":\"The text pattern or search string.\",\"type\":\"string\"}},\"required\":[\"pattern\"],\"type\":\"object\"}"
    }
}
/// Runs a command in `sh` under a sandbox policy.
#[derive(Debug, Clone)]
pub struct RunShellTool {
    pub policy: SandboxPolicy,
}

impl RunShellTool {
    /// A shell tool that runs its commands under `policy`.
    pub fn new(policy: SandboxPolicy) -> (t: RunShellTool)
        ensures
            t.policy == policy,
    {
        RunShellTool { policy }
    }
}

impl RunShellTool {
    /// The name under which the model calls this tool.
    pub fn name(&self) -> (n: &'static str)
        ensures
            n@ == "run_shell"@,
    {
        "run_shell"
    }

    /// What this tool does, as the system prompt presents it.
    pub fn description(&self) -> (d: &'static str)
        ensures
            d@ == "Executes a command in a system shell. Target is Linux (sh)."@,
    {
        "Executes a command in a system shell. Target is Linux (sh)."
    }

    /// The JSON text of this tool's parameter schema.
    pub fn parameters_schema(&self) -> (s: &'static str)
        ensures
            s@ == "{\"properties\":{\"command\":{\"description\":\"The command string to execute.\",\"type\":\"string\"},\"cwd\":{\"description\":\"Optional working directory for execution. Defaults to current directory.\",\"type\":\"string\"}},\"required\":[\"command\"],\"type\":\"object\"}"@,
    {
        "{\"properties\":{\"command\":{\"description\":\"The command string to execute.\",\"type\":\"string\"},\"cwd\":{\"description\":\"Optional working directory for execution. Defaults to current directory.\",\"type\":\"string\"}},\"required\":[\"command\"],\"type\":\"object\"}"
    }
}
/// The `find_definition` tool.
#[derive(Debug, Clone, Copy)]
pub struct FindDefinitionTool;

impl FindDefinitionTool {
    /// The name under which the model calls this tool.
    pub fn name(&self) -> (n: &'static str)
        ensures
            n@ == "find_definition"@,
    {
        "find_definition"
    }

    /// What this tool does, as the system prompt presents it.
    pub fn description(&self) -> (d: &'static str)
        ensures
            d@ == "Locates the AST definition of a symbol (struct, function, trait, enum) across source files."@,
    {
        "Locates the AST definition of a symbol (struct, function, trait, enum) across source files."
    }

    /// The JSON text of this tool's parameter schema.
    pub fn parameters_schema(&self) -> (s: &'static str)
        ensures
            s@ == "{\"properties\":{\"path\":{\"description\":\"Directory or file to search. Defaults to '.' if empty.\",\"type\":\"string\"},\"symbol\":{\"description\":\"The exact identifier or symbol name to find.\",\"type\":\"string\"}},\"required\":[\"symbol\"],\"type\":\"object\"}"@,
    {
        "{\"properties\":{\"path\":{\"description\":\"Directory or file to search. Defaults to '.' if empty.\",\"type\":\"string\"},\"symbol\":{\"description\":\"The exact identifier or symbol name to find.\",\"type\":\"string\"}},\"required\":[\"symbol\"],\"type\":\"object\"}"
    }
}
/// The `list_symbols` tool.
#[derive(Debug, Clone, Copy)]
pub struct ListSymbolsTool;

impl ListSymbolsTool {
    /// The name under which the model calls this tool.
    pub fn name(&self) -> (n: &'static str)
        ensures
            n@ == "list_symbols"@,
    {
        "list_symbols"
    }

    /// What this tool does, as the system prompt presents it.
    pub fn description(&self) -> (d: &'static str)
        ensures
            d@ == "Lists top-level functions, structs, enums, and traits in a source file using AST parsing."@,
    {
        "Lists top-level functions, structs, enums, and traits in a source file using AST parsing."
    }

    /// The JSON text of this tool's parameter schema.
    pub fn parameters_schema(&self) -> (s: &'static str)
        ensures
            s@ == "{\"properties\":{\"path\":{\"description\":\"Path to the source file to list symbols from.\",\"type\":\"string\"}},\"required\":[\"path\"],\"type\":\"object\"}"@,
    {
        "{\"properties\":{\"path\":{\"description\":\"Path to the source file to list symbols from.\",\"type\":\"string\"}},\"required\":[\"path\"],\"type\":\"object\"}"
    }
}
/// The `web_search` tool.
#[derive(Debug, Clone, Copy)]
pub struct WebSearchTool;

impl WebSearchTool {
    /// The name under which the model calls this tool.
    pub fn name(&self) -> (n: &'static str)
        ensures
            n@ == "web_search"@,
    {
        "web_search"
    }

    /// What this tool does, as the system prompt presents it.
    pub fn description(&self) -> (d: &'static str)
        ensures
            d@ == "Performs a web search using a metasearch engine (SearXNG / DuckDuckGo API)."@,
    {
        "Performs a web search using a metasearch engine (SearXNG / DuckDuckGo API)."
    }

    /// The JSON text of this tool's parameter schema.
    pub fn parameters_schema(&self) -> (s: &'static str)
        ensures
            s@ == "{\"properties\":{\"query\":{\"description\":\"Search query string.\",\"type\":\"string\"}},\"required\":[\"query\"],\"type\":\"object\"}"@,
    {
        "{\"properties\":{\"query\":{\"description\":\"Search query string.\",\"type\":\"string\"}},\"required\":[\"query\"],\"type\":\"object\"}"
    }
}
/// The `web_fetch` tool.
#[derive(Debug, Clone, Copy)]
pub struct WebFetchTool;

impl WebFetchTool {
    /// The name under which the model calls this tool.
    pub fn name(&self) -> (n: &'static str)
        ensures
            n@ == "web_fetch"@,
    {
        "web_fetch"
    }

    /// What this tool does, as the system prompt presents it.
    pub fn description(&self) -> (d: &'static str)
        ensures
            d@ == "Fetches a web page URL and converts HTML content into Markdown."@,
    {
        "Fetches a web page URL and converts HTML content into Markdown."
    }

    /// The JSON text of this tool's parameter schema.
    pub fn parameters_schema(&self) -> (s: &'static str)
        ensures
            s@ == "{\"properties\":{\"url\":{\"description\":\"Target web page URL to fetch.\",\"type\":\"string\"}},\"required\":[\"url\"],\"type\":\"object\"}"@,
    {
        "{\"properties\":{\"url\":{\"description\":\"Target web page URL to fetch.\",\"type\":\"string\"}},\"required\":[\"url\"],\"type\":\"object\"}"
    }
}

// ---------------------------------------------------------------------------
// Cutting outputs without a precondition
// ---------------------------------------------------------------------------
/// What an output of at most `limit` bytes keeps of `c`.
pub open spec fn limited_content(c: Seq<char>, limit: usize) -> Seq<char> {
    if byte_len(c) <= limit {
        c
    } else {
        byte_prefix(c, limit as int)
    }
}

/// `o` is `c` limited to `limit` bytes.
pub open spec fn is_limited_output(o: ToolOutput, c: Seq<char>, limit: usize) -> bool {
    &&& o.content@ == limited_content(c, limit)
    &&& o.truncated == (byte_len(c) > limit)
    &&& o.full_length == byte_len(c)
}

/// A limited output never exceeds its limit, is a prefix of the full text,
/// and is marked as truncated exactly when something was cut.
pub proof fn law_limited_output_fits(o: ToolOutput, c: Seq<char>, limit: usize)
    requires
        is_limited_output(o, c, limit),
        cuttable(c, limit),
    ensures
        byte_len(o.content@) <= limit,
        c.take(o.content@.len() as int) == o.content@,
        o.truncated <==> o.content@.len() < c.len(),
{
    if byte_len(c) > limit {
        let k = choose|k: int| 0 <= k <= c.len() && byte_len(c.take(k)) == limit as int;
        assert(o.content@ == c.take(k));
        assert(c.take(k).len() == k);
        if k == c.len() {
            assert(c.take(k) =~= c);
        }
    }
}

/// `content` limited to `limit` bytes, or `None` when the cut would fall
/// inside a character (where slicing the text would fail).
pub fn try_limit_output(content: String, limit: usize) -> (r: Option<ToolOutput>)
    ensures
        cuttable(content@, limit) <==> (r is Some),
        r matches Some(o) ==> is_limited_output(o, content@, limit),
{
    let len = str_byte_len(content.as_str());
    if len > limit {
        let chars = chars_of(content.as_str());
        match boundary_index(&chars, limit) {
            Some(k) => {
                assert(is_boundary(content@, limit as int));
                Some(limit_output(content, limit))
            },
            None => None,
        }
    } else {
        Some(limit_output(content, limit))
    }
}

// ---------------------------------------------------------------------------
// Searching file contents
// ---------------------------------------------------------------------------
/// The number of matching lines after which a search stops.
pub const GREP_MAX_MATCHES: usize = 100;

/// The note that ends a search cut short at `GREP_MAX_MATCHES` matches.
pub const GREP_LIMIT_NOTE: &'static str = "\n... [100 matches reached, remaining matches not shown. Narrow your search with a glob filter]\n";

/// Whether the glob set made of `glob` matches `path`, or `None` when `glob`
/// does not parse or its matcher cannot be built.
pub uninterp spec fn glob_match(glob: Seq<char>, path: Seq<char>) -> Option<bool>;

/// `globset::Glob::new`, then a `globset::GlobSet` built from that one glob
/// with `GlobSetBuilder`, and `GlobSet::is_match`: whether `path` matches
/// `glob`; `None` when the glob does not parse or its matcher cannot be built
/// (both are reported as errors, not panics, on this path). Globs of 2^28
/// characters or more are left out: a literal part that long would overflow
/// the state numbering of the `aho-corasick` automaton that the set builds,
/// and that build unwraps its result.
#[verifier::external_body]
fn glob_matches(glob: &str, path: &str) -> (r: Option<bool>)
    requires
        glob@.len() < 0x1000_0000,
    ensures
        r == glob_match(glob@, path@),
{
    let g = match globset::Glob::new(glob) {
        Ok(g) => g,
        Err(_) => return None,
    };
    match globset::GlobSetBuilder::new().add(g).build() {
        Ok(set) => Some(set.is_match(path)),
        Err(_) => None,
    }
}

/// Whether a search looks into the file at `path`: it must match the glob of
/// wanted files and must not match the glob of unwanted files; a glob that
/// does not compile filters nothing.
pub fn grep_selects(path: &str, wanted: Option<&str>, unwanted: Option<&str>) -> (b: bool)
    requires
        wanted matches Some(g) ==> g@.len() < 0x1000_0000,
        unwanted matches Some(g) ==> g@.len() < 0x1000_0000,
    ensures
        b == ((match wanted {
            Some(g) => glob_match(g@, path@) != Some(false),
            None => true,
        }) && (match unwanted {
            Some(g) => glob_match(g@, path@) != Some(true),
            None => true,
        })),
{
    let included = match wanted {
        Some(g) => match glob_matches(g, path) {
            Some(m) => m,
            None => true,
        },
        None => true,
    };
    let excluded = match unwanted {
        Some(g) => match glob_matches(g, path) {
            Some(m) => m,
            None => false,
        },
        None => false,
    };
    included && !excluded
}

/// The report line of a match in line `n` (counted from 1) of file `display`.
pub open spec fn grep_line(display: Seq<char>, n: nat, line: Seq<char>) -> Seq<char> {
    display + ":"@ + decimal(n) + ": "@ + line + "\n"@
}

/// What searching lines `ls[n..]` for `pattern` adds to the report, and the
/// match count afterwards, given `count` earlier matches: each line that
/// holds the pattern is reported, and the search stops with a note as soon
/// as the count reaches `GREP_MAX_MATCHES`.
pub open spec fn grep_lines(display: Seq<char>, ls: Seq<Seq<char>>, n: int, pattern: Seq<char>, count: nat) -> (Seq<char>, nat)
    decreases ls.len() - n,
{
    if n < 0 || n >= ls.len() {
        (Seq::empty(), count)
    } else if contains_seq(ls[n], pattern) {
        let text = grep_line(display, (n + 1) as nat, ls[n]);
        if count + 1 >= GREP_MAX_MATCHES {
            (text + GREP_LIMIT_NOTE@, count + 1)
        } else {
            let rest = grep_lines(display, ls, n + 1, pattern, count + 1);
            (text + rest.0, rest.1)
        }
    } else {
        grep_lines(display, ls, n + 1, pattern, count)
    }
}

/// The number of lines of `ls[n..]` that hold `pattern`.
pub open spec fn lines_holding(ls: Seq<Seq<char>>, n: int, pattern: Seq<char>) -> nat
    decreases ls.len() - n,
{
    if n < 0 || n >= ls.len() {
        0
    } else {
        (if contains_seq(ls[n], pattern) {
            1nat
        } else {
            0nat
        }) + lines_holding(ls, n + 1, pattern)
    }
}

/// While the limit is not reached, a search counts every line that holds the
/// pattern, and only those: from `count` earlier matches it ends at `count`
/// plus the number of such lines, and reports nothing when there is none.
pub proof fn law_search_counts_matching_lines(
    display: Seq<char>,
    ls: Seq<Seq<char>>,
    n: int,
    pattern: Seq<char>,
    count: nat,
)
    requires
        0 <= n,
        count + lines_holding(ls, n, pattern) < GREP_MAX_MATCHES,
    ensures
        grep_lines(display, ls, n, pattern, count).1 == count + lines_holding(ls, n, pattern),
        lines_holding(ls, n, pattern) == 0 ==> grep_lines(display, ls, n, pattern, count).0 =~= Seq::<
            char,
        >::empty(),
    decreases ls.len() - n,
{
    if n < ls.len() {
        if contains_seq(ls[n], pattern) {
            law_search_counts_matching_lines(display, ls, n + 1, pattern, count + 1);
        } else {
            law_search_counts_matching_lines(display, ls, n + 1, pattern, count);
        }
    }
}

/// A line that holds the pattern is reported as `display:n: line`, with `n`
/// counted from one, ahead of what the later lines report, as long as the
/// limit is not reached with it.
pub proof fn law_search_reports_a_matching_line(
    display: Seq<char>,
    ls: Seq<Seq<char>>,
    n: int,
    pattern: Seq<char>,
    count: nat,
)
    requires
        0 <= n < ls.len(),
        contains_seq(ls[n], pattern),
        count + 1 < GREP_MAX_MATCHES,
    ensures
        grep_lines(display, ls, n, pattern, count).0 == display + ":"@ + decimal((n + 1) as nat) + ": "@
            + ls[n] + "\n"@ + grep_lines(display, ls, n + 1, pattern, count + 1).0,
{
}

/// Searches the lines of file `display`, whose text is `content`, for
/// `pattern`, appending a report line per match to `results` and counting
/// the matches in `match_count`, up to `GREP_MAX_MATCHES` in all.
pub fn grep_file(results: &mut String, match_count: &mut usize, display: &str, content: &str, pattern: &str)
    requires
        *old(match_count) < GREP_MAX_MATCHES,
    ensures
        ({
            let g = grep_lines(display@, lines_of(content@), 0, pattern@, *old(match_count) as nat);
            &&& final(results)@ == old(results)@ + g.0
            &&& *final(match_count) == g.1
        }),
{
    let lines = split_lines(content);
    let ghost ls = lines@.map_values(|x: String| x@);
    let ghost start = results@;
    let ghost c0 = *match_count as nat;
    let mut i: usize = 0;
    while i < lines.len()
        invariant
            i <= lines@.len(),
            ls == lines@.map_values(|x: String| x@),
            ls == lines_of(content@),
            start == old(results)@,
            c0 == *old(match_count) as nat,
            *match_count < GREP_MAX_MATCHES,
            ({
                let g0 = grep_lines(display@, ls, 0, pattern@, c0);
                let gi = grep_lines(display@, ls, i as int, pattern@, *match_count as nat);
                &&& g0.1 == gi.1
                &&& start + g0.0 == results@ + gi.0
            }),
        decreases lines.len() - i,
    {
        let line = &lines[i];
        if str_contains(line.as_str(), pattern) {
            let ghost before = results@;
            let ghost old_count = *match_count as nat;
            results.append(display);
            results.append(":");
            let num = decimal_string(i as u64 + 1);
            results.append(num.as_str());
            results.append(": ");
            results.append(line.as_str());
            results.append("\n");
            *match_count = *match_count + 1;
            if *match_count >= GREP_MAX_MATCHES {
                let ghost mid = results@;
                results.append(GREP_LIMIT_NOTE);
                assert(mid == before + grep_line(display@, (i + 1) as nat, ls[i as int]));
                assert(grep_lines(display@, ls, i as int, pattern@, old_count) == (
                grep_line(display@, (i + 1) as nat, ls[i as int]) + GREP_LIMIT_NOTE@,
                old_count + 1,
                ));
                assert(results@ =~= before + (grep_line(display@, (i + 1) as nat, ls[i as int]) + GREP_LIMIT_NOTE@));
                return;
            }
            assert(results@ == before + grep_line(display@, (i + 1) as nat, ls[i as int]));
        }
        i = i + 1;
    }
}

/// What a search says when it found nothing.
pub const GREP_NO_MATCHES: &'static str = "No matches found.";

/// The output of a search that gathered `results`: the results, or a note
/// that nothing matched when there are none.
pub fn grep_output(results: String) -> (o: ToolOutput)
    ensures
        !o.truncated,
        results@.len() == 0 ==> o.content@ == GREP_NO_MATCHES@,
        results@.len() > 0 ==> o.content == results,
        o.full_length == byte_len(o.content@),
{
    if results.as_str().is_empty() {
        ToolOutput::new(String::from_str(GREP_NO_MATCHES))
    } else {
        ToolOutput::new(results)
    }
}

/// The note of a definition search that found nothing for `symbol`.
pub open spec fn no_definition_text(symbol: Seq<char>) -> Seq<char> {
    "No AST definition found for symbol '"@ + symbol + "'."@
}

/// The output of a definition search that found `count` definitions of
/// `symbol`, reported in `results`: the results, or a note that there are
/// none.
pub fn definition_output(symbol: &str, results: String, count: usize) -> (o: ToolOutput)
    ensures
        !o.truncated,
        count == 0 ==> o.content@ == no_definition_text(symbol@),
        count > 0 ==> o.content == results,
        o.full_length == byte_len(o.content@),
{
    if count == 0 {
        let mut s = String::from_str("No AST definition found for symbol '");
        s.append(symbol);
        s.append("'.");
        ToolOutput::new(s)
    } else {
        ToolOutput::new(results)
    }
}

// ---------------------------------------------------------------------------
// Reports of the other tools
// ---------------------------------------------------------------------------
/// The report of a shell command: its exit code, then its standard output
/// and standard error when they are not empty.
pub open spec fn shell_report_text(exit_code: int, stdout: Seq<char>, stderr: Seq<char>) -> Seq<char> {
    "Exit code: "@ + signed_decimal(exit_code) + "\n"@ + (if stdout.len() > 0 {
        "Stdout:\n"@ + stdout
    } else {
        Seq::empty()
    }) + (if stderr.len() > 0 {
        "Stderr:\n"@ + stderr
    } else {
        Seq::empty()
    })
}

/// The report of a shell command that exited with `exit_code`.
pub fn shell_report(exit_code: i32, stdout: &str, stderr: &str) -> (s: String)
    ensures
        s@ == shell_report_text(exit_code as int, stdout@, stderr@),
{
    let mut s = String::from_str("Exit code: ");
    let code = signed_decimal_string(exit_code as i64);
    s.append(code.as_str());
    s.append("\n");
    let ghost head = s@;
    if !stdout.is_empty() {
        s.append("Stdout:\n");
        s.append(stdout);
    }
    let ghost mid = s@;
    assert(mid == head + (if stdout@.len() > 0 { "Stdout:\n"@ + stdout@ } else { Seq::<char>::empty() }));
    if !stderr.is_empty() {
        s.append("Stderr:\n");
        s.append(stderr);
    }
    assert(s@ == mid + (if stderr@.len() > 0 { "Stderr:\n"@ + stderr@ } else { Seq::<char>::empty() }));
    s
}

/// The line that lists one directory entry.
pub open spec fn dir_entry_text(name: Seq<char>, is_dir: bool, len: nat) -> Seq<char> {
    "  ["@ + (if is_dir { "DIR "@ } else { "FILE"@ }) + "] "@ + name + " ("@ + decimal(len) + " bytes)\n"@
}

/// The line that lists one directory entry of `len` bytes.
pub fn dir_entry_line(name: &str, is_dir: bool, len: u64) -> (s: String)
    ensures
        s@ == dir_entry_text(name@, is_dir, len as nat),
{
    let mut s = String::from_str("  [");
    if is_dir {
        s.append("DIR ");
    } else {
        s.append("FILE");
    }
    s.append("] ");
    s.append(name);
    s.append(" (");
    let d = decimal_string(len);
    s.append(d.as_str());
    s.append(" bytes)\n");
    s
}

/// A syntax node kind that defines a named item.
pub open spec fn is_definition_kind(kind: Seq<char>) -> bool {
    kind == "struct_item"@ || kind == "function_item"@ || kind == "fn_item"@ || kind == "enum_item"@
        || kind == "trait_item"@
}

/// Whether syntax nodes of `kind` define a named item.
pub fn definition_kind(kind: &str) -> (b: bool)
    ensures
        b == is_definition_kind(kind@),
{
    str_eq(kind, "struct_item") || str_eq(kind, "function_item") || str_eq(kind, "fn_item")
        || str_eq(kind, "enum_item") || str_eq(kind, "trait_item")
}

/// Whether syntax nodes of `kind` are listed as top-level symbols.
pub fn symbol_kind(kind: &str) -> (b: bool)
    ensures
        b == (is_definition_kind(kind@) || kind@ == "impl_item"@),
{
    definition_kind(kind) || str_eq(kind, "impl_item")
}

/// The report line of a definition found at zero-based `row` and `column`.
pub fn definition_line(path: &str, row: usize, column: usize, symbol: &str) -> (s: String)
    requires
        row < usize::MAX,
        column < usize::MAX,
    ensures
        s@ == path@ + ":"@ + decimal(row as nat + 1) + ":"@ + decimal(column as nat + 1)
            + ": Definition of '"@ + symbol@ + "'\n"@,
{
    let mut s = String::from_str(path);
    s.append(":");
    let r = decimal_string(row as u64 + 1);
    s.append(r.as_str());
    s.append(":");
    let c = decimal_string(column as u64 + 1);
    s.append(c.as_str());
    s.append(": Definition of '");
    s.append(symbol);
    s.append("'\n");
    s
}

/// The report line of a top-level symbol at zero-based `row`: the first line
/// of its source text.
pub fn symbol_line(row: usize, source: &str) -> (s: String)
    requires
        row < usize::MAX,
    ensures
        s@ == "  Line "@ + decimal(row as nat + 1) + ": "@ + (if lines_of(source@).len() > 0 {
            lines_of(source@)[0]
        } else {
            Seq::empty()
        }) + "\n"@,
{
    let mut s = String::from_str("  Line ");
    let r = decimal_string(row as u64 + 1);
    s.append(r.as_str());
    s.append(": ");
    let ls = split_lines(source);
    if ls.len() > 0 {
        s.append(ls[0].as_str());
        assert(ls@.map_values(|x: String| x@)[0] == ls@[0]@);
    }
    s.append("\n");
    s
}

// ---------------------------------------------------------------------------
// Web pages
// ---------------------------------------------------------------------------
/// A byte that URL encoding leaves as it is: ASCII letters, digits and `-._~`.
pub open spec fn is_unreserved(b: u8) -> bool {
    (0x30 <= b <= 0x39) || (0x41 <= b <= 0x5A) || (0x61 <= b <= 0x7A) || b == 0x2D || b == 0x2E
        || b == 0x5F || b == 0x7E
}

/// The upper-case hexadecimal digit of `d < 16`.
pub open spec fn hex_digit(d: u8) -> char {
    if d < 10 {
        (0x30 + d) as char
    } else {
        (0x41 - 10 + d) as char
    }
}

/// How URL encoding writes one byte: an unreserved byte as itself, any other
/// as `%` and two upper-case hexadecimal digits.
pub open spec fn percent_code(b: u8) -> Seq<char> {
    if is_unreserved(b) {
        seq![b as char]
    } else {
        seq!['%', hex_digit(b / 16), hex_digit(b % 16)]
    }
}

/// Percent-encoding of a byte sequence, byte by byte.
pub open spec fn percent_encode(bytes: Seq<u8>) -> Seq<char>
    decreases bytes.len(),
{
    if bytes.len() == 0 {
        Seq::empty()
    } else {
        percent_encode(bytes.drop_last()) + percent_code(bytes.last())
    }
}

/// URL encoding keeps ASCII letters, digits and `-._~` as they are and
/// writes every other byte as `%` followed by its two upper-case hexadecimal
/// digits, high digit first.
pub proof fn law_percent_code(b: u8)
    ensures
        (0x30 <= b <= 0x39 || 0x41 <= b <= 0x5A || 0x61 <= b <= 0x7A || b == 0x2D || b == 0x2E || b
            == 0x5F || b == 0x7E) ==> percent_code(b) == seq![b as char],
        !(0x30 <= b <= 0x39 || 0x41 <= b <= 0x5A || 0x61 <= b <= 0x7A || b == 0x2D || b == 0x2E || b
            == 0x5F || b == 0x7E) ==> percent_code(b) == seq![
            '%',
            "0123456789ABCDEF"@[(b / 16) as int],
            "0123456789ABCDEF"@[(b % 16) as int],
        ],
{
    reveal_strlit("0123456789ABCDEF");
    assert forall|d: u8| d < 16 implies hex_digit(d) == #[trigger] "0123456789ABCDEF"@[d as int] by {
        if d == 0 { assert(hex_digit(0) == '0'); }
        else if d == 1 { assert(hex_digit(1) == '1'); }
        else if d == 2 { assert(hex_digit(2) == '2'); }
        else if d == 3 { assert(hex_digit(3) == '3'); }
        else if d == 4 { assert(hex_digit(4) == '4'); }
        else if d == 5 { assert(hex_digit(5) == '5'); }
        else if d == 6 { assert(hex_digit(6) == '6'); }
        else if d == 7 { assert(hex_digit(7) == '7'); }
        else if d == 8 { assert(hex_digit(8) == '8'); }
        else if d == 9 { assert(hex_digit(9) == '9'); }
        else if d == 10 { assert(hex_digit(10) == 'A'); }
        else if d == 11 { assert(hex_digit(11) == 'B'); }
        else if d == 12 { assert(hex_digit(12) == 'C'); }
        else if d == 13 { assert(hex_digit(13) == 'D'); }
        else if d == 14 { assert(hex_digit(14) == 'E'); }
        else { assert(hex_digit(15) == 'F'); }
    }
    assert(b / 16 < 16);
    assert(b % 16 < 16);
}

/// The hexadecimal digit of `d < 16`, in upper case.
fn hex_digit_exec(d: u8) -> (c: char)
    requires
        d < 16,
    ensures
        c == hex_digit(d),
{
    if d < 10 {
        (0x30 + d) as char
    } else {
        (0x41 - 10 + d) as char
    }
}

/// Whether URL encoding keeps `b` as it is.
fn is_unreserved_exec(b: u8) -> (r: bool)
    ensures
        r == is_unreserved(b),
{
    (0x30 <= b && b <= 0x39) || (0x41 <= b && b <= 0x5A) || (0x61 <= b && b <= 0x7A) || b == 0x2D
        || b == 0x2E || b == 0x5F || b == 0x7E
}

/// The URL encoding of the UTF-8 bytes of `s` (what `urlencoding::encode`
/// gives).
pub fn url_encode(s: &str) -> (r: String)
    ensures
        r@ == percent_encode(encode_utf8(s@)),
{
    let bytes = s.as_bytes();
    let ghost all = encode_utf8(s@);
    let mut r = String::new();
    let mut i: usize = 0;
    assert(all.take(0) =~= Seq::<u8>::empty());
    while i < bytes.len()
        invariant
            bytes@ == all,
            i <= bytes@.len(),
            r@ == percent_encode(all.take(i as int)),
        decreases bytes.len() - i,
    {
        let b = bytes[i];
        assert(all.take(i + 1).drop_last() =~= all.take(i as int));
        assert(all.take(i + 1).last() == b);
        if is_unreserved_exec(b) {
            push_char(&mut r, b as char);
        } else {
            push_char(&mut r, '%');
            push_char(&mut r, hex_digit_exec(b / 16));
            push_char(&mut r, hex_digit_exec(b % 16));
        }
        assert(r@ == percent_encode(all.take(i + 1)));
        i = i + 1;
    }
    assert(all.take(bytes@.len() as int) =~= all);
    r
}

/// The address of the search engine's result page for `query`.
pub fn search_url(query: &str) -> (u: String)
    ensures
        u@ == "https://html.duckduckgo.com/html/?q="@ + percent_encode(encode_utf8(query@)),
{
    let mut u = String::from_str("https://html.duckduckgo.com/html/?q=");
    let q = url_encode(query);
    u.append(q.as_str());
    u
}

} // verus!
