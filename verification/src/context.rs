//! Conversation messages and the context-window upkeep applied to them.
use vstd::prelude::*;
use crate::text::{
    boundary_index, byte_len, byte_prefix, chars_of, decimal, decimal_string, is_boundary,
    lemma_boundary_unique, lemma_byte_len_concat, lemma_byte_len_push, lemma_decimal_digits,
    str_byte_len, str_eq, string_of_range, trim, trim_str,
};
use vstd::string::*;

verus! {

/// One message of a conversation.
#[derive(Debug, Clone, PartialEq, Eq)]
pub struct Message {
    /// "system", "user", "assistant" or "tool".
    pub role: String,
    pub content: String,
    pub name: Option<String>,
}

/// A stored conversation.
#[derive(Debug, Clone)]
pub struct Session {
    pub messages: Vec<Message>,
    pub created_at: u64,
    pub compaction_generation: u32,
}

/// A copy of an optional string.
pub fn copy_opt_string(o: &Option<String>) -> (r: Option<String>)
    ensures
        r == *o,
{
    match o {
        Some(s) => Some(s.clone()),
        None => None,
    }
}

impl Message {
    /// A message with the given parts.
    pub fn new(role: &str, content: String, name: Option<String>) -> (m: Message)
        ensures
            m.role@ == role@,
            m.content == content,
            m.name == name,
    {
        Message { role: String::from_str(role), content, name }
    }

    /// A field-for-field copy of this message.
    pub fn duplicate(&self) -> (m: Message)
        ensures
            m == *self,
    {
        Message { role: self.role.clone(), content: self.content.clone(), name: copy_opt_string(&self.name) }
    }

    /// Whether this message carries a tool's output.
    pub fn is_tool(&self) -> (b: bool)
        ensures
            b == is_tool_message(*self),
    {
        str_eq(self.role.as_str(), "tool")
    }
}

impl Session {
    /// A new session, created at `created_at`, that holds the user's prompt.
    pub fn with_prompt(prompt: String, created_at: u64) -> (s: Session)
        ensures
            s.messages@.len() == 1,
            s.messages@[0].role@ == "user"@,
            s.messages@[0].content == prompt,
            s.messages@[0].name is None,
            s.created_at == created_at,
            s.compaction_generation == 0,
    {
        let mut messages: Vec<Message> = Vec::new();
        messages.push(Message::new("user", prompt, None));
        Session { messages, created_at, compaction_generation: 0 }
    }
}

/// A copy of a list of messages.
pub fn copy_messages(msgs: &[Message]) -> (v: Vec<Message>)
    ensures
        v@ == msgs@,
{
    let mut v: Vec<Message> = Vec::new();
    let mut i: usize = 0;
    while i < msgs.len()
        invariant
            i <= msgs@.len(),
            v@ == msgs@.take(i as int),
        decreases msgs.len() - i,
    {
        v.push(msgs[i].duplicate());
        assert(msgs@.take(i + 1) =~= msgs@.take(i as int).push(msgs@[i as int]));
        i = i + 1;
    }
    assert(msgs@.take(msgs@.len() as int) =~= msgs@);
    v
}

/// The message carries a tool's output.
pub open spec fn is_tool_message(m: Message) -> bool {
    m.role@ == "tool"@
}

/// The index of the last tool message, or -1 when there is none.
pub open spec fn last_tool_index(msgs: Seq<Message>) -> int
    decreases msgs.len(),
{
    if msgs.len() == 0 {
        -1
    } else if is_tool_message(msgs.last()) {
        msgs.len() - 1
    } else {
        last_tool_index(msgs.drop_last())
    }
}

/// `last_tool_index` names the last tool message.
pub proof fn lemma_last_tool_index(msgs: Seq<Message>)
    ensures
        -1 <= last_tool_index(msgs) < msgs.len(),
        last_tool_index(msgs) >= 0 ==> is_tool_message(msgs[last_tool_index(msgs)]),
        forall|j: int| last_tool_index(msgs) < j < msgs.len() ==> !is_tool_message(msgs[j]),
    decreases msgs.len(),
{
    if msgs.len() > 0 && !is_tool_message(msgs.last()) {
        lemma_last_tool_index(msgs.drop_last());
        assert forall|j: int| last_tool_index(msgs) < j < msgs.len() implies !is_tool_message(
            msgs[j],
        ) by {
            if j < msgs.len() - 1 {
                assert(msgs[j] == msgs.drop_last()[j]);
            }
        }
    }
}

/// Byte size above which an older tool output is pruned.
pub const PRUNE_THRESHOLD: usize = 1000;

/// Bytes of an older tool output that pruning keeps.
pub const PRUNE_KEEP: usize = 500;

/// The note that replaces the dropped part of a pruned tool output.
pub open spec fn prune_note(c: Seq<char>) -> Seq<char> {
    "\n... [Pruned old tool output, original size: "@ + decimal(byte_len(c)) + " chars]"@
}

/// Message `i` is a tool output older than the last one and larger than the threshold.
pub open spec fn needs_prune(msgs: Seq<Message>, i: int) -> bool {
    &&& is_tool_message(msgs[i])
    &&& i < last_tool_index(msgs)
    &&& byte_len(msgs[i].content@) > PRUNE_THRESHOLD
}

/// Every message that pruning shortens can be cut at byte `PRUNE_KEEP`.
pub open spec fn prune_cuts_on_boundaries(msgs: Seq<Message>) -> bool {
    forall|i: int| 0 <= i < msgs.len() && needs_prune(msgs, i) ==> is_boundary(
        msgs[i].content@,
        PRUNE_KEEP as int,
    )
}

/// The content that message `m` has after pruning, given that it needs it.
pub open spec fn pruned_content(c: Seq<char>) -> Seq<char> {
    byte_prefix(c, PRUNE_KEEP as int) + prune_note(c)
}

/// `b` is `a` with every tool output that needs pruning pruned, and every
/// other message as it was.
pub open spec fn pruned(a: Seq<Message>, b: Seq<Message>) -> bool {
    &&& b.len() == a.len()
    &&& forall|i: int|
        0 <= i < a.len() ==> if needs_prune(a, i) {
            &&& b[i].role == a[i].role
            &&& b[i].name == a[i].name
            &&& b[i].content@ == pruned_content(a[i].content@)
        } else {
            b[i] == a[i]
        }
}

/// Shortens every tool output that is older than the most recent tool output
/// and longer than `PRUNE_THRESHOLD` bytes to its first `PRUNE_KEEP` bytes
/// followed by a note that gives its size before the cut. Other messages stay as
/// they are.
pub fn prune_old_tool_outputs(messages: &mut [Message])
    requires
        prune_cuts_on_boundaries(old(messages)@),
    ensures
        pruned(old(messages)@, final(messages)@),
        forall|i: int| 0 <= i < final(messages)@.len() ==> !needs_prune(final(messages)@, i),
        prune_cuts_on_boundaries(final(messages)@),
{
    let ghost orig = messages@;
    proof {
        lemma_last_tool_index(orig);
    }
    let n = messages.len();
    // Locate the most recent tool output.
    let mut last: Option<usize> = None;
    let mut i: usize = 0;
    while i < n
        invariant
            n == messages@.len(),
            messages@ == orig,
            i <= n,
            last matches Some(l) ==> l < i && is_tool_message(orig[l as int]),
            forall|j: int| (if let Some(l) = last { l < j } else { 0 <= j }) && j < i ==> !is_tool_message(orig[j]),
        decreases n - i,
    {
        if messages[i].is_tool() {
            last = Some(i);
        }
        i = i + 1;
    }
    let last_idx = match last {
        Some(l) => {
            assert(l as int == last_tool_index(orig));
            l
        },
        None => {
            assert(last_tool_index(orig) == -1);
            return;
        },
    };
    let ghost last_i = last_idx as int;
    let mut i: usize = 0;
    while i < n
        invariant
            n == messages@.len(),
            n == orig.len(),
            i <= n,
            last_idx as int == last_tool_index(orig),
            prune_cuts_on_boundaries(orig),
            forall|j: int|
                0 <= j < i ==> if needs_prune(orig, j) {
                    &&& messages@[j].role == orig[j].role
                    &&& messages@[j].name == orig[j].name
                    &&& messages@[j].content@ == pruned_content(orig[j].content@)
                } else {
                    messages@[j] == orig[j]
                },
            forall|j: int| i <= j < n ==> messages@[j] == orig[j],
            forall|j: int|
                #![trigger messages@[j]]
                0 <= j < i && needs_prune(orig, j) ==> byte_len(messages@[j].content@) <= PRUNE_THRESHOLD,
        decreases n - i,
    {
        if i < last_idx && messages[i].is_tool() {
            let len = str_byte_len(messages[i].content.as_str());
            if len > PRUNE_THRESHOLD {
                let chars = chars_of(messages[i].content.as_str());
                let cut = boundary_index(&chars, PRUNE_KEEP);
                match cut {
                    Some(k) => {
                        let ghost c = orig[i as int].content@;
                        proof {
                            let kk = choose|kk: int| 0 <= kk <= c.len() && byte_len(c.take(kk)) == PRUNE_KEEP as int;
                            lemma_boundary_unique(c, k as int, kk);
                            lemma_pruned_is_short(c);
                        }
                        let mut content = string_of_range(&chars, 0, k);
                        content.append("\n... [Pruned old tool output, original size: ");
                        let size = decimal_string(len as u64);
                        content.append(size.as_str());
                        content.append(" chars]");
                        let m = Message {
                            role: messages[i].role.clone(),
                            content,
                            name: copy_opt_string(&messages[i].name),
                        };
                        messages[i] = m;
                        assert(messages@[i as int].content@ == pruned_content(c));
                        assert(byte_len(messages@[i as int].content@) <= PRUNE_THRESHOLD);
                    },
                    None => {
                        assert(needs_prune(orig, i as int));
                    },
                }
            }
        }
        i = i + 1;
    }
    proof {
        let fin = messages@;
        assert forall|j: int| 0 <= j < orig.len() implies #[trigger] fin[j].role == orig[j].role by {
            if !needs_prune(orig, j) {
                assert(fin[j] == orig[j]);
            }
        }
        lemma_same_roles_same_last_tool(orig, fin);
        assert forall|j: int| 0 <= j < fin.len() implies !needs_prune(fin, j) by {
            if !needs_prune(orig, j) {
                assert(fin[j] == orig[j]);
            }
        }
    }
}


/// `10` to the power `k`.
pub open spec fn ten_pow(k: nat) -> nat
    decreases k,
{
    if k == 0 {
        1
    } else {
        10 * ten_pow((k - 1) as nat)
    }
}

/// A number below `10^k` has at most `k` decimal digits.
proof fn lemma_decimal_len(n: nat, k: nat)
    requires
        k >= 1,
        n < ten_pow(k),
    ensures
        decimal(n).len() <= k,
    decreases k,
{
    if n >= 10 {
        assert(k >= 2) by {
            if k == 1 {
                assert(ten_pow(1) == 10);
            }
        }
        assert(n / 10 < ten_pow((k - 1) as nat)) by (nonlinear_arith)
            requires
                n < ten_pow(k),
                ten_pow(k) == 10 * ten_pow((k - 1) as nat),
        ;
        lemma_decimal_len(n / 10, (k - 1) as nat);
    }
}

/// Every character of `s` is ASCII.
pub open spec fn all_ascii(s: Seq<char>) -> bool {
    forall|i: int| 0 <= i < s.len() ==> (#[trigger] s[i] as u32) < 0x80
}

/// An ASCII text takes one byte per character.
proof fn lemma_ascii_byte_len(s: Seq<char>)
    requires
        all_ascii(s),
    ensures
        byte_len(s) == s.len(),
    decreases s.len(),
{
    if s.len() > 0 {
        let init = s.drop_last();
        assert(all_ascii(init)) by {
            assert forall|i: int| 0 <= i < init.len() implies (#[trigger] init[i] as u32) < 0x80 by {
                assert(init[i] == s[i]);
            }
        }
        lemma_ascii_byte_len(init);
        assert(s =~= init.push(s.last()));
        lemma_byte_len_push(init, s.last());
        assert((s.last() as u32) < 0x80);
    }
}

/// A pruned output is short enough never to be pruned again.
proof fn lemma_pruned_is_short(c: Seq<char>)
    requires
        is_boundary(c, PRUNE_KEEP as int),
        byte_len(c) <= u64::MAX,
    ensures
        byte_len(pruned_content(c)) <= PRUNE_THRESHOLD,
{
    let k = choose|k: int| 0 <= k <= c.len() && byte_len(c.take(k)) == PRUNE_KEEP as int;
    let head = byte_prefix(c, PRUNE_KEEP as int);
    assert(byte_len(head) == PRUNE_KEEP);
    let open = "\n... [Pruned old tool output, original size: "@;
    let close = " chars]"@;
    let digits = decimal(byte_len(c));
    reveal_strlit("\n... [Pruned old tool output, original size: ");
    reveal_strlit(" chars]");
    assert(open.len() == 45);
    assert(close.len() == 7);
    assert(all_ascii(open));
    assert(all_ascii(close));
    lemma_ascii_byte_len(open);
    lemma_ascii_byte_len(close);
    lemma_decimal_digits(byte_len(c));
    assert(all_ascii(digits)) by {
        assert forall|i: int| 0 <= i < digits.len() implies (#[trigger] digits[i] as u32) < 0x80 by {
            assert('0' <= digits[i] <= '9');
        }
    }
    lemma_ascii_byte_len(digits);
    assert(ten_pow(20) == 100000000000000000000nat) by {
        reveal_with_fuel(ten_pow, 21);
    }
    lemma_decimal_len(byte_len(c), 20);
    lemma_byte_len_concat(open, digits);
    lemma_byte_len_concat(open + digits, close);
    lemma_byte_len_concat(head, prune_note(c));
    assert(prune_note(c) == open + digits + close);
}

/// Tool messages sit at the same places in two histories whose messages
/// have the same roles.
proof fn lemma_same_roles_same_last_tool(a: Seq<Message>, b: Seq<Message>)
    requires
        a.len() == b.len(),
        forall|i: int| 0 <= i < a.len() ==> #[trigger] b[i].role == a[i].role,
    ensures
        last_tool_index(a) == last_tool_index(b),
    decreases a.len(),
{
    if a.len() > 0 {
        assert(b.last().role == a.last().role);
        lemma_same_roles_same_last_tool(a.drop_last(), b.drop_last());
    }
}

/// Pruning never touches the most recent tool output (the last message whose
/// role is `tool`), whatever messages follow it.
pub proof fn law_latest_tool_output_is_kept(a: Seq<Message>, b: Seq<Message>, j: int)
    requires
        pruned(a, b),
        0 <= j < a.len(),
        a[j].role@ == "tool"@,
        forall|k: int| j < k < a.len() ==> a[k].role@ != "tool"@,
    ensures
        b[j] == a[j],
{
    lemma_last_tool_index(a);
    assert(last_tool_index(a) == j) by {
        if last_tool_index(a) < j {
            assert(is_tool_message(a[j]));
        } else if last_tool_index(a) > j {
            let l = last_tool_index(a);
            assert(is_tool_message(a[l]));
            assert(a[l].role@ != "tool"@);
        }
    }
    assert(!needs_prune(a, j));
}

/// Pruning changes only tool outputs of more than 1000 bytes that come before
/// another tool output, and keeps their role and name; every other message
/// stays as it was.
pub proof fn law_only_older_long_tool_outputs_change(a: Seq<Message>, b: Seq<Message>, i: int)
    requires
        pruned(a, b),
        0 <= i < a.len(),
        b[i] != a[i],
    ensures
        a[i].role@ == "tool"@,
        byte_len(a[i].content@) > 1000,
        exists|k: int| i < k < a.len() && a[k].role@ == "tool"@,
        b[i].role == a[i].role,
        b[i].name == a[i].name,
{
    lemma_last_tool_index(a);
    assert(needs_prune(a, i));
    let l = last_tool_index(a);
    assert(is_tool_message(a[l]));
}

/// Pruning a history in which nothing needs pruning changes nothing. With
/// the `ensures` of `prune_old_tool_outputs` (after it, nothing needs
/// pruning), a second pruning leaves what the first one made.
pub proof fn law_pruning_settles(b: Seq<Message>, c: Seq<Message>)
    requires
        forall|i: int| 0 <= i < b.len() ==> !needs_prune(b, i),
        pruned(b, c),
    ensures
        c == b,
{
    assert forall|i: int| 0 <= i < b.len() implies #[trigger] c[i] == b[i] by {
        assert(!needs_prune(b, i));
    }
    assert(c =~= b);
}

/// Pruning twice is pruning once: a pruned history has nothing left to
/// prune.
pub proof fn law_pruning_is_idempotent(a: Seq<Message>, b: Seq<Message>, c: Seq<Message>)
    requires
        prune_cuts_on_boundaries(a),
        forall|i: int| 0 <= i < a.len() ==> byte_len(#[trigger] a[i].content@) <= u64::MAX,
        pruned(a, b),
        pruned(b, c),
    ensures
        c == b,
{
    assert forall|i: int| 0 <= i < a.len() implies #[trigger] b[i].role == a[i].role by {
        if needs_prune(a, i) {
        } else {
            assert(b[i] == a[i]);
        }
    }
    lemma_same_roles_same_last_tool(a, b);
    assert forall|i: int| 0 <= i < b.len() implies !needs_prune(b, i) by {
        if needs_prune(a, i) {
            lemma_pruned_is_short(a[i].content@);
        } else {
            assert(b[i] == a[i]);
        }
    }
    assert forall|i: int| 0 <= i < b.len() implies #[trigger] c[i] == b[i] by {
        assert(!needs_prune(b, i));
    }
    assert(c =~= b);
}

/// The instruction that opens a summarisation prompt.
pub const SUMMARY_INSTRUCTION: &'static str = "<|im_start|>system\nYou are a concise summarizer. Summarize the following conversation history between the User and the Assistant into a structured summary containing: Goal, Constraints, Progress, Decisions, Next Steps.\n<|im_end|>\n";

/// The opening of the user turn of a summarisation prompt.
pub const SUMMARY_USER_OPEN: &'static str = "<|im_start|>user\n";

/// The close of a summarisation prompt, which hands the turn to the model.
pub const SUMMARY_CLOSE: &'static str = "\nProvide the summary now:\n<|im_end|>\n<|im_start|>assistant\n";

/// How many of the latest messages survive a compaction unchanged.
pub const KEEP_RECENT: usize = 3;

/// One `role: content` line per message.
pub open spec fn transcript(msgs: Seq<Message>) -> Seq<char>
    decreases msgs.len(),
{
    if msgs.len() == 0 {
        Seq::empty()
    } else {
        transcript(msgs.drop_last()) + msgs.last().role@ + ": "@ + msgs.last().content@ + "\n"@
    }
}

/// The messages that a compaction summarises: all but the first and the last three.
pub open spec fn compacted_span(msgs: Seq<Message>) -> Seq<Message> {
    msgs.subrange(1, msgs.len() - KEEP_RECENT)
}

/// The prompt that asks the model to summarise the middle of a history.
pub open spec fn compaction_prompt_text(msgs: Seq<Message>) -> Seq<char> {
    SUMMARY_INSTRUCTION@ + SUMMARY_USER_OPEN@ + transcript(compacted_span(msgs)) + SUMMARY_CLOSE@
}

/// The prompt for summarising `messages`, or `None` when the history has at
/// most four messages and there is nothing to compact.
pub fn compaction_prompt(messages: &[Message]) -> (r: Option<String>)
    ensures
        messages@.len() <= 4 ==> r is None,
        messages@.len() > 4 ==> (r matches Some(p) && p@ == compaction_prompt_text(messages@)),
{
    if messages.len() <= 4 {
        return None;
    }
    let mut prompt = String::from_str(SUMMARY_INSTRUCTION);
    prompt.append(SUMMARY_USER_OPEN);
    let ghost head = prompt@;
    let end = messages.len() - KEEP_RECENT;
    let mut i: usize = 1;
    assert(messages@.subrange(1, 1) =~= Seq::<Message>::empty());
    while i < end
        invariant
            1 <= i <= end,
            end == messages@.len() - KEEP_RECENT,
            prompt@ == head + transcript(messages@.subrange(1, i as int)),
        decreases end - i,
    {
        let m = &messages[i];
        prompt.append(m.role.as_str());
        prompt.append(": ");
        prompt.append(m.content.as_str());
        prompt.append("\n");
        assert(messages@.subrange(1, i + 1).drop_last() =~= messages@.subrange(1, i as int));
        i = i + 1;
    }
    prompt.append(SUMMARY_CLOSE);
    Some(prompt)
}

/// Opens a compaction of `messages`: the generation counter advances by one
/// whatever follows (also when there is nothing to compact, and when the
/// summary then cannot be made), and the prompt that asks for the summary is
/// given back, or `None` when the history has at most four messages. The
/// summary is then applied under the new generation.
pub fn begin_compaction(messages: &[Message], compaction_gen: &mut u32) -> (r: Option<String>)
    requires
        *old(compaction_gen) < u32::MAX,
    ensures
        *final(compaction_gen) == *old(compaction_gen) + 1,
        messages@.len() <= 4 ==> r is None,
        messages@.len() > 4 ==> (r matches Some(p) && p@ == compaction_prompt_text(messages@)),
{
    *compaction_gen = *compaction_gen + 1;
    compaction_prompt(messages)
}

/// The system message that carries a summary of generation `generation`.
pub open spec fn summary_text(generation: nat, summary: Seq<char>) -> Seq<char> {
    "--- [Conversation History Summary (Generation "@ + decimal(generation) + ")] ---\n"@ + trim(
        summary,
    ) + "\n-------------------------------------------------"@
}

/// Replaces the middle of a history of more than four messages by one system
/// message that holds the trimmed `summary`: the result is the first message,
/// the summary message, then the last three messages.
pub fn apply_compaction(messages: &mut Vec<Message>, generation: u32, summary: &str)
    requires
        old(messages)@.len() > 4,
    ensures
        final(messages)@.len() == 2 + KEEP_RECENT,
        final(messages)@[0] == old(messages)@[0],
        final(messages)@[1].role@ == "system"@,
        final(messages)@[1].content@ == summary_text(generation as nat, summary@),
        final(messages)@[1].name is None,
        final(messages)@.skip(2) == old(messages)@.skip(old(messages)@.len() - KEEP_RECENT),
{
    let ghost orig = messages@;
    let n = messages.len();
    let mut content = String::from_str("--- [Conversation History Summary (Generation ");
    let g = decimal_string(generation as u64);
    content.append(g.as_str());
    content.append(")] ---\n");
    let t = trim_str(summary);
    content.append(t.as_str());
    content.append("\n-------------------------------------------------");
    let mut out: Vec<Message> = Vec::new();
    out.push(messages[0].duplicate());
    out.push(Message::new("system", content, None));
    let mut i = n - KEEP_RECENT;
    while i < n
        invariant
            n == orig.len(),
            messages@ == orig,
            n - KEEP_RECENT <= i <= n,
            out@.len() == 2 + i - (n - KEEP_RECENT),
            out@[0] == orig[0],
            out@[1].role@ == "system"@,
            out@[1].content@ == summary_text(generation as nat, summary@),
            out@[1].name is None,
            forall|j: int| 2 <= j < out@.len() ==> out@[j] == orig[n - KEEP_RECENT + j - 2],
        decreases n - i,
    {
        out.push(messages[i].duplicate());
        i = i + 1;
    }
    assert(out@.skip(2) =~= orig.skip(n - KEEP_RECENT));
    *messages = out;
}

} // verus!
