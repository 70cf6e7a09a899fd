//! The client side of the Model Context Protocol: request numbering, what
//! each line the server sends means for a pending request, and the text of a
//! tool call's reply.
use vstd::prelude::*;
use vstd::string::*;
use crate::text::concat2;

verus! {

broadcast use vstd::string::group_string_axioms;

/// The error when the server closes its output before answering.
pub const MCP_DISCONNECTED: &'static str = "MCP server disconnected";

/// The numbering of a connection's requests.
#[derive(Debug, Clone, Copy, PartialEq, Eq)]
pub struct McpRequests {
    /// The id of the last request sent; 0 before the first.
    pub request_id: i64,
}

impl McpRequests {
    /// A connection that has sent nothing.
    pub fn new() -> (r: McpRequests)
        ensures
            r.request_id == 0,
    {
        McpRequests { request_id: 0 }
    }

    /// The id of the next request, which is also recorded as the last one.
    pub fn next_id(&mut self) -> (id: i64)
        requires
            old(self).request_id < i64::MAX,
        ensures
            id == old(self).request_id + 1,
            final(self).request_id == id,
    {
        self.request_id = self.request_id + 1;
        self.request_id
    }
}

/// What a line from the server says, as far as a pending request cares.
#[derive(Debug, Clone)]
pub struct McpReply {
    /// The line is a JSON value.
    pub parsed: bool,
    /// The value has an `id` member.
    pub has_id: bool,
    /// That member as an integer, when it is one.
    pub id: Option<i64>,
    /// The `error` member as JSON text, when there is one.
    pub error: Option<String>,
}

/// What a line means for the request `expected`.
#[derive(Debug, Clone, PartialEq, Eq)]
pub enum ReplyStep {
    /// Not the answer (unreadable, a notification, or another request's): read on.
    Skip,
    /// The server answered with an error, described by this text.
    Fail(String),
    /// The server answered; its `result` is the request's result.
    Done,
}

/// The meaning of a line for the request numbered `expected`: only a parsed
/// value whose `id` is `expected` answers it, with an error when it has one.
pub fn classify_reply(reply: &McpReply, expected: i64) -> (s: ReplyStep)
    ensures
        !(reply.parsed && reply.has_id && reply.id == Some(expected)) ==> s is Skip,
        reply.parsed && reply.has_id && reply.id == Some(expected) ==> match reply.error {
            Some(e) => s matches ReplyStep::Fail(m) && m@ == "MCP server error: "@ + e@,
            None => s is Done,
        },
{
    if !reply.parsed || !reply.has_id {
        return ReplyStep::Skip;
    }
    match reply.id {
        Some(i) => {
            if i != expected {
                return ReplyStep::Skip;
            }
        },
        None => {
            return ReplyStep::Skip;
        },
    }
    match &reply.error {
        Some(e) => ReplyStep::Fail(concat2("MCP server error: ", e.as_str())),
        None => ReplyStep::Done,
    }
}

/// The texts of the items that have one, in order, joined.
pub open spec fn joined_texts(items: Seq<Option<String>>) -> Seq<char>
    decreases items.len(),
{
    if items.len() == 0 {
        Seq::empty()
    } else {
        joined_texts(items.drop_last()) + match items.last() {
            Some(t) => t@,
            None => Seq::empty(),
        }
    }
}

/// The output of a tool call: the `text` of each content item that has one.
pub fn tool_call_text(items: &[Option<String>]) -> (s: String)
    ensures
        s@ == joined_texts(items@),
{
    let mut s = String::new();
    let mut i: usize = 0;
    while i < items.len()
        invariant
            i <= items@.len(),
            s@ == joined_texts(items@.take(i as int)),
        decreases items.len() - i,
    {
        assert(items@.take(i + 1).drop_last() =~= items@.take(i as int));
        match &items[i] {
            Some(t) => {
                s.append(t.as_str());
            },
            None => {
                assert(s@ + Seq::<char>::empty() =~= s@);
            },
        }
        i = i + 1;
    }
    assert(items@.take(items@.len() as int) =~= items@);
    s
}

} // verus!
