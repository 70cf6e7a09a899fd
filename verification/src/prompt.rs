//! Chat templates and the turns that a template renders.
use vstd::prelude::*;
use vstd::string::*;
pub use crate::context::{Message, Session};
use crate::context::is_tool_message;
use minijinja::{Environment, Error, ErrorKind, Value};
use std::collections::BTreeMap;
use crate::text::{chars_of, occurs_at, find_from, find_from_exec, lemma_find_from, str_eq, string_of_range};

verus! {

broadcast use vstd::string::group_string_axioms;

/// The built-in ChatML template.
pub const DEFAULT_CHAT_TEMPLATE: &'static str = "{%- for message in messages -%}\n<|im_start|>{{ message.role }}\n{{ message.content }}<|im_end|>\n{%- endfor -%}\n{%- if add_generation_prompt -%}\n<|im_start|>assistant\n{%- endif -%}";

/// Where a chat template comes from.
#[derive(Debug, Clone)]
pub enum PromptTemplate {
    /// The template text itself, such as the one a model file embeds.
    Embedded(String),
    /// A file that holds the template.
    External(String),
    /// A template that ships with the agent, by name.
    Builtin(String),
}

/// Renders a conversation into the prompt text that the model reads.
pub trait PromptRenderer {
    fn render(&self, messages: &[Message], add_generation_prompt: bool) -> Result<String, String>;
}

/// What a template source comes to before anything is compiled.
#[derive(Debug, Clone)]
pub enum TemplateText {
    /// The template text.
    Text(String),
    /// The template text must be read from this file.
    ReadFile(String),
}

/// The error for a built-in template name that the agent does not know.
pub open spec fn unknown_template_text(name: Seq<char>) -> Seq<char> {
    "Unknown built-in template name: "@ + name
}

/// The template text of `source`, the file to read it from, or the error for
/// an unknown built-in name. The only built-in template is `chatml`.
pub fn template_text(source: PromptTemplate) -> (r: Result<TemplateText, String>)
    ensures
        source matches PromptTemplate::Embedded(t) ==> (r matches Ok(TemplateText::Text(x)) && x == t),
        source matches PromptTemplate::External(p) ==> (r matches Ok(TemplateText::ReadFile(x)) && x == p),
        source matches PromptTemplate::Builtin(n) ==> if n@ == "chatml"@ {
            r matches Ok(TemplateText::Text(x)) && x@ == DEFAULT_CHAT_TEMPLATE@
        } else {
            r matches Err(e) && e@ == unknown_template_text(n@)
        },
{
    match source {
        PromptTemplate::Embedded(t) => Ok(TemplateText::Text(t)),
        PromptTemplate::External(p) => Ok(TemplateText::ReadFile(p)),
        PromptTemplate::Builtin(name) => {
            if str_eq(name.as_str(), "chatml") {
                Ok(TemplateText::Text(String::from_str(DEFAULT_CHAT_TEMPLATE)))
            } else {
                let mut e = String::from_str("Unknown built-in template name: ");
                e.append(name.as_str());
                Err(e)
            }
        },
    }
}

/// One turn handed to a template: a role and its content.
#[derive(Debug, Clone)]
pub struct ChatTurn {
    pub role: String,
    pub content: String,
}

/// The role and content that a message takes in a template: a tool output
/// becomes a user turn that names the tool.
pub open spec fn turn_of(m: Message) -> (Seq<char>, Seq<char>) {
    if is_tool_message(m) {
        (
            "user"@,
            "[Tool Output ("@ + (match m.name {
                Some(n) => n@,
                None => "unknown"@,
            }) + "): "@ + m.content@ + "]"@,
        )
    } else {
        (m.role@, m.content@)
    }
}

/// The turns of a conversation: each message's turn, consecutive turns of the
/// same role joined by a blank line.
pub open spec fn chat_turns(msgs: Seq<Message>) -> Seq<(Seq<char>, Seq<char>)>
    decreases msgs.len(),
{
    if msgs.len() == 0 {
        Seq::empty()
    } else {
        let prev = chat_turns(msgs.drop_last());
        let t = turn_of(msgs.last());
        if prev.len() > 0 && prev.last().0 == t.0 {
            prev.drop_last().push((t.0, prev.last().1 + "\n\n"@ + t.1))
        } else {
            prev.push(t)
        }
    }
}

/// The turns seen as pairs of character sequences.
pub open spec fn turns_view(ts: Seq<ChatTurn>) -> Seq<(Seq<char>, Seq<char>)> {
    ts.map_values(|t: ChatTurn| (t.role@, t.content@))
}

fn turn_of_exec(m: &Message) -> (t: ChatTurn)
    ensures
        (t.role@, t.content@) == turn_of(*m),
{
    if m.is_tool() {
        let mut c = String::from_str("[Tool Output (");
        match &m.name {
            Some(n) => c.append(n.as_str()),
            None => c.append("unknown"),
        }
        c.append("): ");
        c.append(m.content.as_str());
        c.append("]");
        ChatTurn { role: String::from_str("user"), content: c }
    } else {
        ChatTurn { role: m.role.clone(), content: m.content.clone() }
    }
}

/// The turns that a template renders for `messages`.
pub fn chat_turns_of(messages: &[Message]) -> (ts: Vec<ChatTurn>)
    ensures
        turns_view(ts@) == chat_turns(messages@),
{
    let mut ts: Vec<ChatTurn> = Vec::new();
    let mut i: usize = 0;
    while i < messages.len()
        invariant
            i <= messages@.len(),
            turns_view(ts@) == chat_turns(messages@.take(i as int)),
        decreases messages.len() - i,
    {
        let t = turn_of_exec(&messages[i]);
        let ghost prev = turns_view(ts@);
        assert(messages@.take(i + 1).drop_last() =~= messages@.take(i as int));
        assert(messages@.take(i + 1).last() == messages@[i as int]);
        let n = ts.len();
        if n > 0 && str_eq(ts[n - 1].role.as_str(), t.role.as_str()) {
            let mut last = ts.pop().unwrap();
            last.content.append("\n\n");
            last.content.append(t.content.as_str());
            ts.push(last);
            assert(turns_view(ts@) =~= prev.drop_last().push((t.role@, prev.last().1 + "\n\n"@ + t.content@)));
        } else {
            ts.push(t);
            assert(turns_view(ts@) =~= prev.push((t.role@, t.content@)));
        }
        i = i + 1;
    }
    assert(messages@.take(messages@.len() as int) =~= messages@);
    ts
}

/// No two consecutive turns of a rendered conversation have the same role.
pub proof fn law_turns_alternate(msgs: Seq<Message>)
    ensures
        forall|i: int| 0 <= i < chat_turns(msgs).len() - 1 ==> #[trigger] chat_turns(msgs)[i].0 != chat_turns(msgs)[i + 1].0,
    decreases msgs.len(),
{
    if msgs.len() > 0 {
        law_turns_alternate(msgs.drop_last());
        let prev = chat_turns(msgs.drop_last());
        let t = turn_of(msgs.last());
        let cur = chat_turns(msgs);
        if prev.len() > 0 && prev.last().0 == t.0 {
            assert forall|i: int| 0 <= i < cur.len() - 1 implies #[trigger] cur[i].0 != cur[i + 1].0 by {
                assert(cur[i] == prev[i]);
                assert(cur[i + 1].0 == prev[i + 1].0);
            }
        } else {
            assert forall|i: int| 0 <= i < cur.len() - 1 implies #[trigger] cur[i].0 != cur[i + 1].0 by {
                assert(cur[i] == prev[i]);
                if i + 1 < prev.len() {
                    assert(cur[i + 1] == prev[i + 1]);
                }
            }
        }
    }
}

/// `s` from index `start` on, with every block that runs from an `open`
/// marker to the first `close` marker after it removed, scanning left to
/// right; an `open` marker with no `close` after it stays.
pub open spec fn strip_between(s: Seq<char>, open: Seq<char>, close: Seq<char>, start: int) -> Seq<char>
    decreases s.len() + 1 - start,
{
    if start < 0 || start > s.len() || close.len() == 0 {
        s.subrange(start, s.len() as int)
    } else {
        match find_from(s, open, start) {
            Some(i) => match find_from(s, close, i + open.len()) {
                Some(j) => {
                    proof {
                        lemma_find_from(s, open, start);
                        lemma_find_from(s, close, i + open.len());
                    }
                    s.subrange(start, i) + strip_between(s, open, close, j + close.len())
                },
                None => s.subrange(start, s.len() as int),
            },
            None => s.subrange(start, s.len() as int),
        }
    }
}

/// `s` with its `<thinking>...</thinking>` blocks removed.
pub open spec fn without_thinking(s: Seq<char>) -> Seq<char> {
    strip_between(s, "<thinking>"@, "</thinking>"@, 0)
}

/// The first occurrence at or after `start` is found.
proof fn lemma_find_first_at(s: Seq<char>, pat: Seq<char>, start: int, k: int)
    requires
        0 <= start <= k,
        occurs_at(s, pat, k),
        forall|j: int| start <= j < k ==> !occurs_at(s, pat, j),
    ensures
        find_from(s, pat, start) == Some(k),
    decreases k - start,
{
    if start < k {
        lemma_find_first_at(s, pat, start + 1, k);
    }
}

/// Nothing is found when nothing occurs at or after `start`.
proof fn lemma_find_nothing(s: Seq<char>, pat: Seq<char>, start: int)
    requires
        0 <= start,
        forall|j: int| start <= j ==> !occurs_at(s, pat, j),
    ensures
        find_from(s, pat, start) is None,
    decreases s.len() + 1 - start,
{
    if start + pat.len() <= s.len() {
        lemma_find_nothing(s, pat, start + 1);
    }
}

/// A text without a `<thinking>` marker is left as it is.
pub proof fn law_text_without_thinking_is_kept(s: Seq<char>)
    requires
        forall|i: int| !occurs_at(s, "<thinking>"@, i),
    ensures
        without_thinking(s) == s,
{
    reveal_strlit("</thinking>");
    lemma_find_nothing(s, "<thinking>"@, 0);
    assert(s.subrange(0, s.len() as int) =~= s);
}

/// One thinking block between two texts without markup is removed, marker
/// and all, and the texts around it are joined:
/// `a<thinking>x</thinking>b` becomes `ab` when none of `a`, `x`, `b` holds
/// a `<`.
pub proof fn law_one_thinking_block_is_removed(a: Seq<char>, x: Seq<char>, b: Seq<char>)
    requires
        forall|i: int| 0 <= i < a.len() ==> a[i] != '<',
        forall|i: int| 0 <= i < x.len() ==> x[i] != '<',
        forall|i: int| 0 <= i < b.len() ==> b[i] != '<',
    ensures
        without_thinking(a + "<thinking>"@ + x + "</thinking>"@ + b) == a + b,
{
    let o = "<thinking>"@;
    let c = "</thinking>"@;
    reveal_strlit("<thinking>");
    reveal_strlit("</thinking>");
    let s = a + o + x + c + b;
    let na = a.len() as int;
    let nx = x.len() as int;
    let nb = b.len() as int;
    assert(o.len() == 10 && c.len() == 11);
    assert(s.len() == na + nx + nb + 21);
    // `<` stands only at the two markers.
    assert forall|i: int| 0 <= i < s.len() && s[i] == '<' implies i == na || i == na + 10 + nx by {
        if i < na {
            assert(s[i] == a[i]);
        } else if i < na + 10 {
            assert(s[i] == o[i - na]);
        } else if i < na + 10 + nx {
            assert(s[i] == x[i - na - 10]);
        } else if i < na + 21 + nx {
            assert(s[i] == c[i - na - 10 - nx]);
        } else {
            assert(s[i] == b[i - na - 21 - nx]);
        }
    }
    assert(s.subrange(na, na + 10) =~= o);
    assert forall|j: int| 0 <= j < na implies !occurs_at(s, o, j) by {
        if occurs_at(s, o, j) {
            assert(s.subrange(j, j + 10)[0] == o[0]);
        }
    }
    lemma_find_first_at(s, o, 0, na);
    assert(s.subrange(na + 10 + nx, na + 21 + nx) =~= c);
    assert forall|j: int| na + 10 <= j < na + 10 + nx implies !occurs_at(s, c, j) by {
        if occurs_at(s, c, j) {
            assert(s.subrange(j, j + 11)[0] == c[0]);
        }
    }
    lemma_find_first_at(s, c, na + 10, na + 10 + nx);
    let e = na + 21 + nx;
    assert forall|j: int| e <= j implies !occurs_at(s, o, j) by {
        if occurs_at(s, o, j) {
            assert(s.subrange(j, j + 10)[0] == o[0]);
        }
    }
    lemma_find_nothing(s, o, e);
    assert(strip_between(s, o, c, e) == s.subrange(e, s.len() as int));
    assert(s.subrange(e, s.len() as int) =~= b);
    assert(s.subrange(0, na) =~= a);
    assert(strip_between(s, o, c, 0) == s.subrange(0, na) + strip_between(s, o, c, e));
}

/// Removes the model's `<thinking>...</thinking>` blocks from `s`, each up
/// to the first closing tag after its opening tag.
pub fn strip_thinking(s: &str) -> (r: String)
    ensures
        r@ == without_thinking(s@),
{
    let v = chars_of(s);
    let open = chars_of("<thinking>");
    let close = chars_of("</thinking>");
    proof {
        reveal_strlit("</thinking>");
    }
    let mut out = String::new();
    let mut pos: usize = 0;
    loop
        invariant
            pos <= v@.len(),
            v@ == s@,
            open@ == "<thinking>"@,
            close@ == "</thinking>"@,
            close@.len() == 11,
            strip_between(v@, open@, close@, 0) == out@ + strip_between(v@, open@, close@, pos as int),
        decreases v@.len() - pos,
    {
        proof {
            lemma_find_from(v@, open@, pos as int);
        }
        match find_from_exec(&v, &open, pos) {
            None => {
                let rest = string_of_range(&v, pos, v.len());
                out.append(rest.as_str());
                return out;
            },
            Some(i) => {
                assert(occurs_at(v@, open@, i as int));
                let after = i + open.len();
                proof {
                    lemma_find_from(v@, close@, after as int);
                }
                match find_from_exec(&v, &close, after) {
                    None => {
                        let rest = string_of_range(&v, pos, v.len());
                        out.append(rest.as_str());
                        return out;
                    },
                    Some(j) => {
                        let kept = string_of_range(&v, pos, i);
                        let ghost before = out@;
                        out.append(kept.as_str());
                        assert(out@ + strip_between(v@, open@, close@, j + close@.len()) =~= before
                            + (v@.subrange(pos as int, i as int) + strip_between(v@, open@, close@, j + close@.len())));
                        pos = j + close.len();
                    },
                }
            },
        }
    }
}

/// What minijinja renders from `template` for a conversation of `turns`
/// (each a role and a content), with or without the opening of the
/// assistant's turn; the error's text when the template fails.
pub uninterp spec fn rendered_chat(template: Seq<char>, turns: Seq<(Seq<char>, Seq<char>)>, add_generation_prompt: bool) -> Result<Seq<char>, Seq<char>>;

/// The error's text when minijinja cannot compile `template`.
pub uninterp spec fn template_error(template: Seq<char>) -> Option<Seq<char>>;

/// `minijinja::Environment::add_template`: compiles `template`, giving the
/// error's text when that fails.
#[verifier::external_body]
fn check_template(template: &str) -> (r: Option<String>)
    ensures
        match r {
            Some(e) => template_error(template@) == Some(e@),
            None => template_error(template@) is None,
        },
{
    Environment::new().add_template("chat", template).err().map(|e| e.to_string())
}

/// `minijinja::Template::render` of `template` in an environment with the
/// `strip_thinking` and `raise_exception` filters, given the turns as the
/// `messages` list (each with `role` and `content`) and the
/// `add_generation_prompt` flag.
#[verifier::external_body]
fn render_chat(template: &str, turns: &Vec<(String, String)>, add_generation_prompt: bool) -> (r: Result<String, String>)
    ensures
        match r {
            Ok(s) => rendered_chat(template@, pair_views(turns@), add_generation_prompt) == Ok::<Seq<char>, Seq<char>>(s@),
            Err(e) => rendered_chat(template@, pair_views(turns@), add_generation_prompt) == Err::<Seq<char>, Seq<char>>(e@),
        },
{
    let mut env = Environment::new();
    env.add_filter("strip_thinking", |v: String| strip_thinking(&v));
    env.add_filter("raise_exception", |m: String| -> Result<String, Error> {
        Err(Error::new(ErrorKind::InvalidOperation, m))
    });
    let messages: Vec<BTreeMap<&str, &str>> = turns.iter().map(|t| [("role", t.0.as_str()), ("content", t.1.as_str())].into()).collect();
    let ctx = BTreeMap::from([("messages", Value::from_serialize(&messages)), ("add_generation_prompt", add_generation_prompt.into())]);
    env.add_template("chat", template).and_then(|_| env.get_template("chat")?.render(ctx)).map_err(|e| e.to_string())
}

/// Pairs of strings seen as pairs of character sequences.
pub open spec fn pair_views(v: Seq<(String, String)>) -> Seq<(Seq<char>, Seq<char>)> {
    v.map_values(|p: (String, String)| (p.0@, p.1@))
}

/// Renders conversations with a Jinja chat template.
#[derive(Debug, Clone)]
pub struct JinjaRenderer {
    template: String,
}

impl JinjaRenderer {
    /// The template this renderer uses.
    pub closed spec fn template_view(&self) -> Seq<char> {
        self.template@
    }

    /// A renderer for the template text `template`, or the error's text when
    /// the template does not compile.
    pub fn new(template: String) -> (r: Result<JinjaRenderer, String>)
        ensures
            match r {
                Ok(j) => template_error(template@) is None && j.template_view() == template@,
                Err(e) => template_error(template@) == Some(e@),
            },
    {
        match check_template(template.as_str()) {
            Some(e) => Err(e),
            None => Ok(JinjaRenderer { template }),
        }
    }
}

impl PromptRenderer for JinjaRenderer {
    fn render(&self, messages: &[Message], add_generation_prompt: bool) -> (r: Result<String, String>)
        ensures
            match r {
                Ok(s) => rendered_chat(self.template_view(), chat_turns(messages@), add_generation_prompt) == Ok::<Seq<char>, Seq<char>>(s@),
                Err(e) => rendered_chat(self.template_view(), chat_turns(messages@), add_generation_prompt) == Err::<Seq<char>, Seq<char>>(e@),
            },
    {
        let turns = chat_turns_of(messages);
        let mut pairs: Vec<(String, String)> = Vec::new();
        let mut i: usize = 0;
        while i < turns.len()
            invariant
                i <= turns@.len(),
                pair_views(pairs@) == turns_view(turns@).take(i as int),
            decreases turns.len() - i,
        {
            let ghost before = pairs@;
            let role = turns[i].role.clone();
            let content = turns[i].content.clone();
            pairs.push((role, content));
            assert(pairs@ == before.push((role, content)));
            assert(turns_view(turns@)[i as int] == (turns@[i as int].role@, turns@[i as int].content@));
            assert(turns_view(turns@).take(i + 1) =~= turns_view(turns@).take(i as int).push((role@, content@)));
            assert(pair_views(pairs@) =~= pair_views(before).push((role@, content@)));
            i = i + 1;
        }
        assert(turns_view(turns@).take(turns@.len() as int) =~= turns_view(turns@));
        render_chat(self.template.as_str(), &pairs, add_generation_prompt)
    }
}

} // verus!
