//! The tool-call markup that the model writes: checking that it is closed and
//! extracting the calls it requests.
use vstd::prelude::*;
use vstd::string::*;
use crate::text::{
    chars_of, contains_exec, find_from, find_from_exec, is_ws, is_ws_exec, occurs_at,
    occurs_at_exec, string_of_range, trim, trim_str, contains_seq, str_eq,
};

verus! {

broadcast use vstd::string::group_string_axioms;

// ---------------------------------------------------------------------------
// Unclosed tags
// ---------------------------------------------------------------------------
/// The model opened `open` somewhere in `t` but never wrote `close`.
pub open spec fn unclosed(t: Seq<char>, open: Seq<char>, close: Seq<char>) -> bool {
    contains_seq(t, open) && !contains_seq(t, close)
}

/// The correction that asks the model to close `open` with `close`.
pub open spec fn unclosed_message(open: Seq<char>, close: Seq<char>) -> Seq<char> {
    "Error: You opened a tool tag '"@ + open + "' but did not close it with '"@ + close
        + "'. Please ensure all tool tags are closed correctly."@
}

/// What `validate_formatting` answers: the correction for the first of the
/// four action tags that is opened and never closed, in the order
/// write_file, edit_file, run_shell, run_command.
pub open spec fn formatting_error(t: Seq<char>) -> Option<Seq<char>> {
    if unclosed(t, "<write_file"@, "</write_file>"@) {
        Some(unclosed_message("<write_file"@, "</write_file>"@))
    } else if unclosed(t, "<edit_file"@, "</edit_file>"@) {
        Some(unclosed_message("<edit_file"@, "</edit_file>"@))
    } else if unclosed(t, "<run_shell>"@, "</run_shell>"@) {
        Some(unclosed_message("<run_shell>"@, "</run_shell>"@))
    } else if unclosed(t, "<run_command>"@, "</run_command>"@) {
        Some(unclosed_message("<run_command>"@, "</run_command>"@))
    } else {
        None
    }
}

fn unclosed_message_exec(open: &str, close: &str) -> (s: String)
    ensures
        s@ == unclosed_message(open@, close@),
{
    let mut s = String::from_str("Error: You opened a tool tag '");
    s.append(open);
    s.append("' but did not close it with '");
    s.append(close);
    s.append("'. Please ensure all tool tags are closed correctly.");
    s
}

fn check_pair(t: &Vec<char>, open: &str, close: &str) -> (r: Option<String>)
    ensures
        unclosed(t@, open@, close@) ==> (r matches Some(s) && s@ == unclosed_message(open@, close@)),
        !unclosed(t@, open@, close@) ==> r is None,
{
    let o = chars_of(open);
    let c = chars_of(close);
    if contains_exec(t, &o) && !contains_exec(t, &c) {
        Some(unclosed_message_exec(open, close))
    } else {
        None
    }
}

/// A correction for the model when it opened an action tag and never closed it.
pub fn validate_formatting(text: &str) -> (r: Option<String>)
    ensures
        r matches Some(s) ==> formatting_error(text@) == Some(s@),
        r is None ==> formatting_error(text@) is None,
{
    let t = chars_of(text);
    if let Some(e) = check_pair(&t, "<write_file", "</write_file>") {
        return Some(e);
    }
    if let Some(e) = check_pair(&t, "<edit_file", "</edit_file>") {
        return Some(e);
    }
    if let Some(e) = check_pair(&t, "<run_shell>", "</run_shell>") {
        return Some(e);
    }
    check_pair(&t, "<run_command>", "</run_command>")
}

// ---------------------------------------------------------------------------
// Matching the tool-call markup
// ---------------------------------------------------------------------------
// Each matcher describes the leftmost match of one pattern at or after a
// position, as a regular-expression engine with lazy repetition finds it, and
// the position after that match, where the search for the next one resumes.
/// `<tag>(.*?)</tag>` (dot matching newlines): the content between the first
/// `open` at or after `p` and the first `close` after it, and the end of that
/// `close`.
pub open spec fn simple_match(t: Seq<char>, open: Seq<char>, close: Seq<char>, p: int) -> Option<
    (int, int, int),
> {
    match find_from(t, open, p) {
        None => None,
        Some(i) => match find_from(t, close, i + open.len()) {
            None => None,
            Some(j) => Some((i + open.len(), j, j + close.len())),
        },
    }
}

/// The contents of all successive `<tag>(.*?)</tag>` matches from `p` on.
/// (A match that would not move the search forward ends the list; with
/// non-empty tags every match does move it.)
pub open spec fn simple_captures(t: Seq<char>, open: Seq<char>, close: Seq<char>, p: int) -> Seq<
    Seq<char>,
>
    decreases t.len() - p,
{
    match simple_match(t, open, close, p) {
        None => Seq::empty(),
        Some((a, b, e)) => if e <= p || e > t.len() {
            Seq::empty()
        } else {
            seq![t.subrange(a, b)] + simple_captures(t, open, close, e)
        },
    }
}

/// The content of the first `<tag>(.*?)</tag>` match in `s`, or nothing.
pub open spec fn first_capture(s: Seq<char>, open: Seq<char>, close: Seq<char>) -> Seq<char> {
    match simple_match(s, open, close, 0) {
        Some((a, b, e)) => s.subrange(a, b),
        None => Seq::empty(),
    }
}

/// The number of whitespace characters from `w` on.
pub open spec fn ws_run(t: Seq<char>, w: int) -> nat
    decreases t.len() - w,
{
    if 0 <= w < t.len() && is_ws(t[w]) {
        1 + ws_run(t, w + 1)
    } else {
        0
    }
}

/// A character that a path may hold in the lenient form of a tag:
/// `[a-zA-Z0-9_./-]`.
pub open spec fn is_path_char(c: char) -> bool {
    ||| 'a' <= c <= 'z'
    ||| 'A' <= c <= 'Z'
    ||| '0' <= c <= '9'
    ||| c == '_'
    ||| c == '.'
    ||| c == '/'
    ||| c == '-'
}

/// The number of path characters from `w` on.
pub open spec fn path_run(t: Seq<char>, w: int) -> nat
    decreases t.len() - w,
{
    if 0 <= w < t.len() && is_path_char(t[w]) {
        1 + path_run(t, w + 1)
    } else {
        0
    }
}

/// A single or double quote.
pub open spec fn is_quote(c: char) -> bool {
    c == '"' || c == '\''
}

/// The first index at or after `a` of a quote followed by `>`.
pub open spec fn find_quote_gt(t: Seq<char>, a: int) -> Option<int>
    decreases t.len() - a,
{
    if a < 0 || a + 1 >= t.len() {
        None
    } else if is_quote(t[a]) && t[a + 1] == '>' {
        Some(a)
    } else {
        find_quote_gt(t, a + 1)
    }
}

/// `<tag\s+path=["'](.*?)["']>(.*?)</tag>` matched at exactly `i`: the
/// bounds of the path, the bounds of the body, and the end of the match.
pub open spec fn attr_match_at(t: Seq<char>, open: Seq<char>, close: Seq<char>, i: int) -> Option<
    (int, int, int, int, int),
> {
    if !occurs_at(t, open, i) {
        None
    } else {
        let w = i + open.len();
        let r = ws_run(t, w);
        let q = w + r + 5;
        if r == 0 || !occurs_at(t, "path="@, w + r) || q >= t.len() || !is_quote(t[q]) {
            None
        } else {
            match find_quote_gt(t, q + 1) {
                None => None,
                Some(k) => match find_from(t, close, k + 2) {
                    None => None,
                    Some(j) => Some((q + 1, k, k + 2, j, j + close.len())),
                },
            }
        }
    }
}

/// The leftmost match of `<tag\s+path=["'](.*?)["']>(.*?)</tag>` at or after `p`.
pub open spec fn attr_first(t: Seq<char>, open: Seq<char>, close: Seq<char>, p: int) -> Option<
    (int, int, int, int, int),
>
    decreases t.len() - p,
{
    if p < 0 || p >= t.len() {
        None
    } else if attr_match_at(t, open, close, p) is Some {
        attr_match_at(t, open, close, p)
    } else {
        attr_first(t, open, close, p + 1)
    }
}

/// The (path, body) pairs of all successive attribute-tag matches from `p` on.
/// (A match that would not move the search forward ends the list; every
/// match of a non-empty tag does move it.)
pub open spec fn attr_captures(t: Seq<char>, open: Seq<char>, close: Seq<char>, p: int) -> Seq<
    (Seq<char>, Seq<char>),
>
    decreases t.len() - p,
{
    match attr_first(t, open, close, p) {
        None => Seq::empty(),
        Some((a1, b1, a2, b2, e)) => if e <= p || e > t.len() {
            Seq::empty()
        } else {
            seq![(t.subrange(a1, b1), t.subrange(a2, b2))] + attr_captures(t, open, close, e)
        },
    }
}

/// `<tag>\s*([a-zA-Z0-9_./-]+)` matched at exactly `i`: the bounds of the path.
pub open spec fn lenient_match_at(t: Seq<char>, open: Seq<char>, i: int) -> Option<(int, int)> {
    if !occurs_at(t, open, i) {
        None
    } else {
        let s = i + open.len() + ws_run(t, i + open.len());
        let m = path_run(t, s);
        if m == 0 {
            None
        } else {
            Some((s, s + m))
        }
    }
}

/// The leftmost match of `<tag>\s*([a-zA-Z0-9_./-]+)` at or after `p`.
pub open spec fn lenient_first(t: Seq<char>, open: Seq<char>, p: int) -> Option<(int, int)>
    decreases t.len() - p,
{
    if p < 0 || p >= t.len() {
        None
    } else if lenient_match_at(t, open, p) is Some {
        lenient_match_at(t, open, p)
    } else {
        lenient_first(t, open, p + 1)
    }
}

/// The paths of all successive lenient matches from `p` on.
pub open spec fn lenient_captures(t: Seq<char>, open: Seq<char>, p: int) -> Seq<Seq<char>>
    decreases t.len() - p,
{
    match lenient_first(t, open, p) {
        None => Seq::empty(),
        Some((a, b)) => if b <= p || b > t.len() {
            Seq::empty()
        } else {
            seq![t.subrange(a, b)] + lenient_captures(t, open, b)
        },
    }
}

fn simple_match_exec(t: &Vec<char>, open: &Vec<char>, close: &Vec<char>, p: usize) -> (r: Option<
    (usize, usize, usize),
>)
    requires
        close.len() <= t.len(),
    ensures
        r matches Some(m) ==> simple_match(t@, open@, close@, p as int) == Some(
            (m.0 as int, m.1 as int, m.2 as int),
        ) && m.0 <= m.1 <= m.2 <= t.len(),
        r is None ==> simple_match(t@, open@, close@, p as int) is None,
{
    match find_from_exec(t, open, p) {
        None => None,
        Some(i) => {
            proof {
                crate::text::lemma_find_from(t@, open@, p as int);
            }
            let a = i + open.len();
            match find_from_exec(t, close, a) {
                None => None,
                Some(j) => {
                    proof {
                        crate::text::lemma_find_from(t@, close@, a as int);
                    }
                    Some((a, j, j + close.len()))
                },
            }
        },
    }
}

/// The contents of all `<tag>(.*?)</tag>` matches in `t`.
fn simple_captures_exec(t: &Vec<char>, open: &str, close: &str) -> (r: Vec<String>)
    ensures
        r@.map_values(|s: String| s@) == simple_captures(t@, open@, close@, 0),
{
    let o = chars_of(open);
    let c = chars_of(close);
    let mut out: Vec<String> = Vec::new();
    if c.len() > t.len() {
        assert(find_from(t@, c@, 0) is None) by {
            crate::text::lemma_find_from(t@, c@, 0);
        }
        assert forall|i: int| 0 <= i implies find_from(t@, c@, i) is None by {
            crate::text::lemma_find_from(t@, c@, i);
        }
        return out;
    }
    let mut p: usize = 0;
    loop
        invariant
            p <= t.len(),
            c.len() <= t.len(),
            o@ == open@,
            c@ == close@,
            simple_captures(t@, open@, close@, 0) == out@.map_values(|s: String| s@)
                + simple_captures(t@, open@, close@, p as int),
        decreases t.len() - p,
    {
        match simple_match_exec(t, &o, &c, p) {
            None => {
                assert(out@.map_values(|s: String| s@) + Seq::<Seq<char>>::empty() =~= out@.map_values(|s: String| s@));
                return out;
            },
            Some((a, b, e)) => {
                if e <= p {
                    assert(out@.map_values(|s: String| s@) + Seq::<Seq<char>>::empty() =~= out@.map_values(|s: String| s@));
                    return out;
                }
                let ghost before = out@.map_values(|s: String| s@);
                let cap = string_of_range(t, a, b);
                out.push(cap);
                assert(out@.map_values(|s: String| s@) =~= before.push(t@.subrange(a as int, b as int)));
                assert(before + (seq![t@.subrange(a as int, b as int)] + simple_captures(t@, open@, close@, e as int))
                    =~= before.push(t@.subrange(a as int, b as int)) + simple_captures(t@, open@, close@, e as int));
                p = e;
            },
        }
    }
}

fn ws_run_exec(t: &Vec<char>, w: usize) -> (r: usize)
    requires
        w <= t.len(),
    ensures
        r == ws_run(t@, w as int),
        w + r <= t.len(),
{
    let mut k = w;
    while k < t.len() && is_ws_exec(t[k])
        invariant
            w <= k <= t.len(),
            ws_run(t@, w as int) == (k - w) + ws_run(t@, k as int),
        decreases t.len() - k,
    {
        k = k + 1;
    }
    k - w
}

/// Whether `c` may appear in a path of the lenient tag form.
pub fn is_path_char_exec(c: char) -> (b: bool)
    ensures
        b == is_path_char(c),
{
    ('a' <= c && c <= 'z') || ('A' <= c && c <= 'Z') || ('0' <= c && c <= '9') || c == '_' || c
        == '.' || c == '/' || c == '-'
}

fn path_run_exec(t: &Vec<char>, w: usize) -> (r: usize)
    requires
        w <= t.len(),
    ensures
        r == path_run(t@, w as int),
        w + r <= t.len(),
{
    let mut k = w;
    while k < t.len() && is_path_char_exec(t[k])
        invariant
            w <= k <= t.len(),
            path_run(t@, w as int) == (k - w) + path_run(t@, k as int),
        decreases t.len() - k,
    {
        k = k + 1;
    }
    k - w
}

fn find_quote_gt_exec(t: &Vec<char>, a: usize) -> (r: Option<usize>)
    ensures
        r matches Some(k) ==> find_quote_gt(t@, a as int) == Some(k as int) && a <= k && k + 1 < t.len(),
        r is None ==> find_quote_gt(t@, a as int) is None,
{
    let mut k = a;
    while k < t.len() && k + 1 < t.len()
        invariant
            a <= k,
            find_quote_gt(t@, a as int) == find_quote_gt(t@, k as int),
        decreases t.len() - k,
    {
        if (t[k] == '"' || t[k] == '\'') && t[k + 1] == '>' {
            return Some(k);
        }
        k = k + 1;
    }
    None
}

fn attr_match_at_exec(t: &Vec<char>, open: &Vec<char>, close: &Vec<char>, path_eq: &Vec<char>, i: usize) -> (r: Option<
    (usize, usize, usize, usize, usize),
>)
    requires
        path_eq@ == "path="@,
    ensures
        r matches Some(m) ==> attr_match_at(t@, open@, close@, i as int) == Some(
            (m.0 as int, m.1 as int, m.2 as int, m.3 as int, m.4 as int),
        ) && m.0 <= m.1 <= m.2 <= m.3 <= m.4 <= t.len() && i < m.4,
        r is None ==> attr_match_at(t@, open@, close@, i as int) is None,
{
    if !occurs_at_exec(t, open, i) {
        return None;
    }
    assert(i + open.len() <= t.len());
    let w = i + open.len();
    let r = ws_run_exec(t, w);
    proof {
        reveal_strlit("path=");
    }
    if r == 0 || !occurs_at_exec(t, path_eq, w + r) {
        return None;
    }
    let q = w + r + 5;
    if q >= t.len() || !(t[q] == '"' || t[q] == '\'') {
        return None;
    }
    match find_quote_gt_exec(t, q + 1) {
        None => None,
        Some(k) => {
            match find_from_exec(t, close, k + 2) {
                None => None,
                Some(j) => {
                    proof {
                        crate::text::lemma_find_from(t@, close@, k + 2);
                    }
                    Some((q + 1, k, k + 2, j, j + close.len()))
                },
            }
        },
    }
}

fn attr_first_exec(t: &Vec<char>, open: &Vec<char>, close: &Vec<char>, path_eq: &Vec<char>, p: usize) -> (r: Option<
    (usize, usize, usize, usize, usize),
>)
    requires
        path_eq@ == "path="@,
    ensures
        r matches Some(m) ==> attr_first(t@, open@, close@, p as int) == Some(
            (m.0 as int, m.1 as int, m.2 as int, m.3 as int, m.4 as int),
        ) && m.0 <= m.1 <= m.2 <= m.3 <= m.4 <= t.len() && p < m.4,
        r is None ==> attr_first(t@, open@, close@, p as int) is None,
{
    let mut i = p;
    while i < t.len()
        invariant
            p <= i,
            path_eq@ == "path="@,
            attr_first(t@, open@, close@, p as int) == attr_first(t@, open@, close@, i as int),
        decreases t.len() - i,
    {
        let m = attr_match_at_exec(t, open, close, path_eq, i);
        if m.is_some() {
            return m;
        }
        i = i + 1;
    }
    None
}

/// The (path, body) pairs of all attribute-tag matches in `t`.
fn attr_captures_exec(t: &Vec<char>, open: &str, close: &str) -> (r: Vec<(String, String)>)
    ensures
        r@.map_values(|x: (String, String)| (x.0@, x.1@)) == attr_captures(t@, open@, close@, 0),
{
    let o = chars_of(open);
    let c = chars_of(close);
    let pe = chars_of("path=");
    let mut out: Vec<(String, String)> = Vec::new();
    let mut p: usize = 0;
    loop
        invariant
            p <= t.len(),
            o@ == open@,
            c@ == close@,
            pe@ == "path="@,
            attr_captures(t@, open@, close@, 0) == out@.map_values(|x: (String, String)| (x.0@, x.1@))
                + attr_captures(t@, open@, close@, p as int),
        decreases t.len() - p,
    {
        let ghost before = out@.map_values(|x: (String, String)| (x.0@, x.1@));
        let found = attr_first_exec(t, &o, &c, &pe, p);
        match found {
            None => {
                assert(before + Seq::<(Seq<char>, Seq<char>)>::empty() =~= before);
                return out;
            },
            Some((a1, b1, a2, b2, e)) => {
                if e <= p {
                    assert(before + Seq::<(Seq<char>, Seq<char>)>::empty() =~= before);
                    return out;
                }
                let x = string_of_range(t, a1, b1);
                let y = string_of_range(t, a2, b2);
                out.push((x, y));
                let ghost item = (t@.subrange(a1 as int, b1 as int), t@.subrange(a2 as int, b2 as int));
                assert(out@.map_values(|x: (String, String)| (x.0@, x.1@)) =~= before.push(item));
                assert(before + (seq![item] + attr_captures(t@, open@, close@, e as int))
                    =~= before.push(item) + attr_captures(t@, open@, close@, e as int));
                p = e;
            },
        }
    }
}

fn lenient_match_at_exec(t: &Vec<char>, open: &Vec<char>, i: usize) -> (r: Option<(usize, usize)>)
    ensures
        r matches Some(m) ==> lenient_match_at(t@, open@, i as int) == Some((m.0 as int, m.1 as int))
            && m.0 < m.1 <= t.len() && i < m.1,
        r is None ==> lenient_match_at(t@, open@, i as int) is None,
{
    if !occurs_at_exec(t, open, i) {
        return None;
    }
    assert(i + open.len() <= t.len());
    let w = i + open.len();
    let r = ws_run_exec(t, w);
    let s = w + r;
    let m = path_run_exec(t, s);
    if m == 0 {
        None
    } else {
        Some((s, s + m))
    }
}

fn lenient_first_exec(t: &Vec<char>, open: &Vec<char>, p: usize) -> (r: Option<(usize, usize)>)
    ensures
        r matches Some(m) ==> lenient_first(t@, open@, p as int) == Some((m.0 as int, m.1 as int))
            && m.0 < m.1 <= t.len() && p < m.1,
        r is None ==> lenient_first(t@, open@, p as int) is None,
{
    let mut i = p;
    while i < t.len()
        invariant
            p <= i,
            lenient_first(t@, open@, p as int) == lenient_first(t@, open@, i as int),
        decreases t.len() - i,
    {
        let m = lenient_match_at_exec(t, open, i);
        if m.is_some() {
            return m;
        }
        i = i + 1;
    }
    None
}

/// The paths of all lenient matches `<tag>\s*([a-zA-Z0-9_./-]+)` in `t`.
fn lenient_captures_exec(t: &Vec<char>, open: &str) -> (r: Vec<String>)
    ensures
        r@.map_values(|s: String| s@) == lenient_captures(t@, open@, 0),
{
    let o = chars_of(open);
    let mut out: Vec<String> = Vec::new();
    let mut p: usize = 0;
    loop
        invariant
            p <= t.len(),
            o@ == open@,
            lenient_captures(t@, open@, 0) == out@.map_values(|s: String| s@) + lenient_captures(t@, open@, p as int),
        decreases t.len() - p,
    {
        let ghost before = out@.map_values(|s: String| s@);
        let found = lenient_first_exec(t, &o, p);
        match found {
            None => {
                assert(before + Seq::<Seq<char>>::empty() =~= before);
                return out;
            },
            Some((a, b)) => {
                if b <= p {
                    assert(before + Seq::<Seq<char>>::empty() =~= before);
                    return out;
                }
                let x = string_of_range(t, a, b);
                out.push(x);
                assert(out@.map_values(|s: String| s@) =~= before.push(t@.subrange(a as int, b as int)));
                assert(before + (seq![t@.subrange(a as int, b as int)] + lenient_captures(t@, open@, b as int))
                    =~= before.push(t@.subrange(a as int, b as int)) + lenient_captures(t@, open@, b as int));
                p = b;
            },
        }
    }
}

// ---------------------------------------------------------------------------
// Tool calls
// ---------------------------------------------------------------------------
/// One tool invocation that the model requested: the tool's name and its
/// string arguments as (key, value) pairs.
#[derive(Debug, Clone)]
pub struct ParsedToolCall {
    pub name: String,
    pub args: Vec<(String, String)>,
}

/// A call seen as its name and its (key, value) pairs.
pub type CallView = (Seq<char>, Seq<(Seq<char>, Seq<char>)>);

/// The (key, value) pairs of an argument list.
pub open spec fn args_view(args: Seq<(String, String)>) -> Seq<(Seq<char>, Seq<char>)> {
    args.map_values(|a: (String, String)| (a.0@, a.1@))
}

/// A call seen as plain character sequences.
pub open spec fn call_view(c: ParsedToolCall) -> CallView {
    (c.name@, args_view(c.args@))
}

/// A list of calls seen as plain character sequences.
pub open spec fn calls_view(cs: Seq<ParsedToolCall>) -> Seq<CallView> {
    cs.map_values(|c: ParsedToolCall| call_view(c))
}

/// The value of the first argument named `key`.
pub open spec fn arg_value(args: Seq<(Seq<char>, Seq<char>)>, key: Seq<char>) -> Option<Seq<char>>
    decreases args.len(),
{
    if args.len() == 0 {
        None
    } else if args[0].0 == key {
        Some(args[0].1)
    } else {
        arg_value(args.drop_first(), key)
    }
}

impl ParsedToolCall {
    /// The value of the argument named `key`, if the call has one.
    pub fn arg(&self, key: &str) -> (r: Option<String>)
        ensures
            r matches Some(v) ==> arg_value(args_view(self.args@), key@) == Some(v@),
            r is None ==> arg_value(args_view(self.args@), key@) is None,
    {
        let mut i: usize = 0;
        assert(args_view(self.args@).skip(0) =~= args_view(self.args@));
        while i < self.args.len()
            invariant
                i <= self.args@.len(),
                arg_value(args_view(self.args@), key@) == arg_value(args_view(self.args@).skip(i as int), key@),
            decreases self.args.len() - i,
        {
            assert(args_view(self.args@).skip(i as int).drop_first() =~= args_view(self.args@).skip(i + 1));
            if str_eq(self.args[i].0.as_str(), key) {
                return Some(self.args[i].1.clone());
            }
            i = i + 1;
        }
        None
    }
}

/// Calls of tool `name` that each pass one trimmed capture as argument `key`.
pub open spec fn keyed_calls(name: Seq<char>, key: Seq<char>, caps: Seq<Seq<char>>) -> Seq<CallView> {
    caps.map_values(|c: Seq<char>| (name, seq![(key, trim(c))]))
}

/// The write_file calls for the given (path, body) captures.
pub open spec fn write_calls(ws: Seq<(Seq<char>, Seq<char>)>) -> Seq<CallView> {
    ws.map_values(|w: (Seq<char>, Seq<char>)| ("write_file"@, seq![("path"@, trim(w.0)), ("content"@, w.1)]))
}

/// The edit_file calls for the given (path, body) captures: the body's first
/// `<find>` and `<replace>` blocks, empty when absent.
pub open spec fn edit_calls(es: Seq<(Seq<char>, Seq<char>)>) -> Seq<CallView> {
    es.map_values(
        |e: (Seq<char>, Seq<char>)|
            (
                "edit_file"@,
                seq![
                    ("path"@, trim(e.0)),
                    ("find"@, first_capture(e.1, "<find>"@, "</find>"@)),
                    ("replace"@, first_capture(e.1, "<replace>"@, "</replace>"@)),
                ],
            ),
    )
}

/// The find_definition calls that name a path.
pub open spec fn def_calls(ds: Seq<(Seq<char>, Seq<char>)>) -> Seq<CallView> {
    ds.map_values(|d: (Seq<char>, Seq<char>)| ("find_definition"@, seq![("path"@, trim(d.0)), ("symbol"@, trim(d.1))]))
}

/// The trimmed symbols of `caps` that are not in `seen` and not repeated.
pub open spec fn new_symbols(seen: Seq<Seq<char>>, caps: Seq<Seq<char>>) -> Seq<Seq<char>>
    decreases caps.len(),
{
    if caps.len() == 0 {
        Seq::empty()
    } else {
        let s = trim(caps[0]);
        if seen.contains(s) {
            new_symbols(seen, caps.drop_first())
        } else {
            seq![s] + new_symbols(seen.push(s), caps.drop_first())
        }
    }
}

/// The find_definition calls that search the whole workspace.
pub open spec fn workspace_def_calls(syms: Seq<Seq<char>>) -> Seq<CallView> {
    syms.map_values(|s: Seq<char>| ("find_definition"@, seq![("symbol"@, s), ("path"@, "."@)]))
}

/// The calls that `parse_tool_calls` extracts from `t`, in its order: list_dir,
/// read_file (both falling back to the lenient form when the closed form is
/// absent), write_file, edit_file, run_shell (then run_command, also as
/// run_shell), find_definition with a path, find_definition without one for
/// symbols not yet requested, list_symbols.
pub open spec fn tool_calls_of(t: Seq<char>) -> Seq<CallView> {
    let lists = simple_captures(t, "<list_dir>"@, "</list_dir>"@, 0);
    let list_paths = if lists.len() > 0 {
        lists
    } else {
        lenient_captures(t, "<list_dir>"@, 0)
    };
    let reads = simple_captures(t, "<read_file>"@, "</read_file>"@, 0);
    let read_paths = if reads.len() > 0 {
        reads
    } else {
        lenient_captures(t, "<read_file>"@, 0)
    };
    let defs = attr_captures(t, "<find_definition"@, "</find_definition>"@, 0);
    keyed_calls("list_dir"@, "path"@, list_paths) + keyed_calls("read_file"@, "path"@, read_paths)
        + write_calls(attr_captures(t, "<write_file"@, "</write_file>"@, 0)) + edit_calls(
        attr_captures(t, "<edit_file"@, "</edit_file>"@, 0),
    ) + keyed_calls("run_shell"@, "command"@, simple_captures(t, "<run_shell>"@, "</run_shell>"@, 0))
        + keyed_calls(
        "run_shell"@,
        "command"@,
        simple_captures(t, "<run_command>"@, "</run_command>"@, 0),
    ) + def_calls(defs) + workspace_def_calls(
        new_symbols(
            defs.map_values(|d: (Seq<char>, Seq<char>)| trim(d.1)),
            simple_captures(t, "<find_definition>"@, "</find_definition>"@, 0),
        ),
    ) + keyed_calls("list_symbols"@, "path"@, simple_captures(t, "<list_symbols>"@, "</list_symbols>"@, 0))
}

fn one_pair(k: &str, v: String) -> (r: Vec<(String, String)>)
    ensures
        args_view(r@) == seq![(k@, v@)],
{
    let mut r: Vec<(String, String)> = Vec::new();
    r.push((String::from_str(k), v));
    assert(args_view(r@) =~= seq![(k@, v@)]);
    r
}

fn push_keyed(calls: &mut Vec<ParsedToolCall>, name: &str, key: &str, caps: &Vec<String>)
    ensures
        calls_view(final(calls)@) == calls_view(old(calls)@) + keyed_calls(
            name@,
            key@,
            caps@.map_values(|s: String| s@),
        ),
{
    let ghost start = calls_view(calls@);
    let ghost cv = caps@.map_values(|s: String| s@);
    let mut i: usize = 0;
    while i < caps.len()
        invariant
            i <= caps@.len(),
            cv == caps@.map_values(|s: String| s@),
            calls_view(calls@) == start + keyed_calls(name@, key@, cv.take(i as int)),
        decreases caps.len() - i,
    {
        let v = trim_str(caps[i].as_str());
        let call = ParsedToolCall { name: String::from_str(name), args: one_pair(key, v) };
        let ghost before = calls_view(calls@);
        calls.push(call);
        assert(calls_view(calls@) =~= before.push(call_view(call)));
        assert(keyed_calls(name@, key@, cv.take(i + 1)) =~= keyed_calls(name@, key@, cv.take(i as int)).push(call_view(call)));
        i = i + 1;
    }
    assert(cv.take(caps@.len() as int) =~= cv);
}

fn first_capture_exec(s: &String, open: &str, close: &str) -> (r: String)
    ensures
        r@ == first_capture(s@, open@, close@),
{
    let t = chars_of(s.as_str());
    let o = chars_of(open);
    let c = chars_of(close);
    if c.len() > t.len() {
        proof {
            crate::text::lemma_find_from(t@, c@, 0);
            assert forall|i: int| 0 <= i implies find_from(t@, c@, i) is None by {
                crate::text::lemma_find_from(t@, c@, i);
            }
        }
        return String::new();
    }
    match simple_match_exec(&t, &o, &c, 0) {
        Some((a, b, _e)) => string_of_range(&t, a, b),
        None => String::new(),
    }
}

/// Whether `seen` holds `s`.
fn holds(seen: &Vec<String>, s: &String) -> (b: bool)
    ensures
        b == seen@.map_values(|x: String| x@).contains(s@),
{
    let ghost sv = seen@.map_values(|x: String| x@);
    let mut i: usize = 0;
    while i < seen.len()
        invariant
            i <= seen@.len(),
            sv == seen@.map_values(|x: String| x@),
            forall|j: int| 0 <= j < i ==> sv[j] != s@,
        decreases seen.len() - i,
    {
        if str_eq(seen[i].as_str(), s.as_str()) {
            assert(sv[i as int] == s@);
            return true;
        }
        i = i + 1;
    }
    false
}

/// Parses every tool invocation that the model wrote in `text`, in the order
/// described by `tool_calls_of`.
pub fn parse_tool_calls(text: &str) -> (calls: Vec<ParsedToolCall>)
    ensures
        calls_view(calls@) == tool_calls_of(text@),
{
    let t = chars_of(text);
    let mut calls: Vec<ParsedToolCall> = Vec::new();
    // list_dir
    let lists = simple_captures_exec(&t, "<list_dir>", "</list_dir>");
    if lists.len() > 0 {
        push_keyed(&mut calls, "list_dir", "path", &lists);
    } else {
        let lenient = lenient_captures_exec(&t, "<list_dir>");
        push_keyed(&mut calls, "list_dir", "path", &lenient);
    }
    // read_file
    let reads = simple_captures_exec(&t, "<read_file>", "</read_file>");
    if reads.len() > 0 {
        push_keyed(&mut calls, "read_file", "path", &reads);
    } else {
        let lenient = lenient_captures_exec(&t, "<read_file>");
        push_keyed(&mut calls, "read_file", "path", &lenient);
    }
    let ghost after_reads = calls_view(calls@);
    // write_file
    let writes = attr_captures_exec(&t, "<write_file", "</write_file>");
    let ghost wv = writes@.map_values(|x: (String, String)| (x.0@, x.1@));
    let mut i: usize = 0;
    while i < writes.len()
        invariant
            i <= writes@.len(),
            wv == writes@.map_values(|x: (String, String)| (x.0@, x.1@)),
            calls_view(calls@) == after_reads + write_calls(wv.take(i as int)),
        decreases writes.len() - i,
    {
        let mut args: Vec<(String, String)> = Vec::new();
        args.push((String::from_str("path"), trim_str(writes[i].0.as_str())));
        args.push((String::from_str("content"), writes[i].1.clone()));
        let call = ParsedToolCall { name: String::from_str("write_file"), args };
        assert(args_view(call.args@) =~= seq![("path"@, trim(wv[i as int].0)), ("content"@, wv[i as int].1)]);
        let ghost before = calls_view(calls@);
        calls.push(call);
        assert(calls_view(calls@) =~= before.push(call_view(call)));
        assert(write_calls(wv.take(i + 1)) =~= write_calls(wv.take(i as int)).push(call_view(call)));
        i = i + 1;
    }
    assert(wv.take(writes@.len() as int) =~= wv);
    let ghost after_writes = calls_view(calls@);
    // edit_file
    let edits = attr_captures_exec(&t, "<edit_file", "</edit_file>");
    let ghost ev = edits@.map_values(|x: (String, String)| (x.0@, x.1@));
    let mut i: usize = 0;
    while i < edits.len()
        invariant
            i <= edits@.len(),
            ev == edits@.map_values(|x: (String, String)| (x.0@, x.1@)),
            calls_view(calls@) == after_writes + edit_calls(ev.take(i as int)),
        decreases edits.len() - i,
    {
        let mut args: Vec<(String, String)> = Vec::new();
        args.push((String::from_str("path"), trim_str(edits[i].0.as_str())));
        args.push((String::from_str("find"), first_capture_exec(&edits[i].1, "<find>", "</find>")));
        args.push((String::from_str("replace"), first_capture_exec(&edits[i].1, "<replace>", "</replace>")));
        let call = ParsedToolCall { name: String::from_str("edit_file"), args };
        assert(args_view(call.args@) =~= seq![
            ("path"@, trim(ev[i as int].0)),
            ("find"@, first_capture(ev[i as int].1, "<find>"@, "</find>"@)),
            ("replace"@, first_capture(ev[i as int].1, "<replace>"@, "</replace>"@)),
        ]);
        let ghost before = calls_view(calls@);
        calls.push(call);
        assert(calls_view(calls@) =~= before.push(call_view(call)));
        assert(edit_calls(ev.take(i + 1)) =~= edit_calls(ev.take(i as int)).push(call_view(call)));
        i = i + 1;
    }
    assert(ev.take(edits@.len() as int) =~= ev);
    // run_shell and run_command
    let shells = simple_captures_exec(&t, "<run_shell>", "</run_shell>");
    push_keyed(&mut calls, "run_shell", "command", &shells);
    let commands = simple_captures_exec(&t, "<run_command>", "</run_command>");
    push_keyed(&mut calls, "run_shell", "command", &commands);
    let ghost after_shell = calls_view(calls@);
    // find_definition with a path
    let defs = attr_captures_exec(&t, "<find_definition", "</find_definition>");
    let ghost dv = defs@.map_values(|x: (String, String)| (x.0@, x.1@));
    let mut seen: Vec<String> = Vec::new();
    let mut i: usize = 0;
    while i < defs.len()
        invariant
            i <= defs@.len(),
            dv == defs@.map_values(|x: (String, String)| (x.0@, x.1@)),
            calls_view(calls@) == after_shell + def_calls(dv.take(i as int)),
            seen@.map_values(|x: String| x@) == dv.take(i as int).map_values(|d: (Seq<char>, Seq<char>)| trim(d.1)),
        decreases defs.len() - i,
    {
        let sym = trim_str(defs[i].1.as_str());
        let mut args: Vec<(String, String)> = Vec::new();
        args.push((String::from_str("path"), trim_str(defs[i].0.as_str())));
        args.push((String::from_str("symbol"), sym.clone()));
        let call = ParsedToolCall { name: String::from_str("find_definition"), args };
        assert(args_view(call.args@) =~= seq![("path"@, trim(dv[i as int].0)), ("symbol"@, trim(dv[i as int].1))]);
        let ghost before = calls_view(calls@);
        let ghost seen_before = seen@.map_values(|x: String| x@);
        calls.push(call);
        seen.push(sym);
        assert(calls_view(calls@) =~= before.push(call_view(call)));
        assert(def_calls(dv.take(i + 1)) =~= def_calls(dv.take(i as int)).push(call_view(call)));
        assert(seen@.map_values(|x: String| x@) =~= seen_before.push(trim(dv[i as int].1)));
        assert(dv.take(i + 1).map_values(|d: (Seq<char>, Seq<char>)| trim(d.1)) =~= dv.take(i as int).map_values(|d: (Seq<char>, Seq<char>)| trim(d.1)).push(trim(dv[i as int].1)));
        i = i + 1;
    }
    assert(dv.take(defs@.len() as int) =~= dv);
    let ghost after_defs = calls_view(calls@);
    let ghost seen0 = seen@.map_values(|x: String| x@);
    // find_definition without a path, skipping symbols already requested
    let simple_defs = simple_captures_exec(&t, "<find_definition>", "</find_definition>");
    let ghost sd = simple_defs@.map_values(|s: String| s@);
    let ghost mut added: Seq<Seq<char>> = Seq::empty();
    assert(sd.skip(0) =~= sd);
    assert(added + new_symbols(seen0, sd) =~= new_symbols(seen0, sd));
    let mut i: usize = 0;
    while i < simple_defs.len()
        invariant
            i <= simple_defs@.len(),
            sd == simple_defs@.map_values(|s: String| s@),
            calls_view(calls@) == after_defs + workspace_def_calls(added),
            added + new_symbols(seen@.map_values(|x: String| x@), sd.skip(i as int)) == new_symbols(seen0, sd),
        decreases simple_defs.len() - i,
    {
        let sym = trim_str(simple_defs[i].as_str());
        let ghost sv = seen@.map_values(|x: String| x@);
        assert(sd.skip(i as int).drop_first() =~= sd.skip(i + 1));
        assert(sd.skip(i as int)[0] == sd[i as int]);
        if !holds(&seen, &sym) {
            let mut args: Vec<(String, String)> = Vec::new();
            args.push((String::from_str("symbol"), sym.clone()));
            args.push((String::from_str("path"), String::from_str(".")));
            let call = ParsedToolCall { name: String::from_str("find_definition"), args };
            assert(args_view(call.args@) =~= seq![("symbol"@, sym@), ("path"@, "."@)]);
            let ghost before = calls_view(calls@);
            calls.push(call);
            seen.push(sym);
            assert(calls_view(calls@) =~= before.push(call_view(call)));
            assert(workspace_def_calls(added.push(sym@)) =~= workspace_def_calls(added).push(call_view(call)));
            assert(seen@.map_values(|x: String| x@) =~= sv.push(sym@));
            proof {
                assert(added.push(sym@) + new_symbols(sv.push(sym@), sd.skip(i + 1)) =~= added + (seq![sym@] + new_symbols(sv.push(sym@), sd.skip(i + 1))));
                added = added.push(sym@);
            }
        }
        i = i + 1;
    }
    assert(added + Seq::<Seq<char>>::empty() =~= added);
    // list_symbols
    let syms = simple_captures_exec(&t, "<list_symbols>", "</list_symbols>");
    push_keyed(&mut calls, "list_symbols", "path", &syms);
    calls
}


/// Every trimmed capture that `new_symbols` is given and that is not in `seen`
/// is among the symbols it keeps.
proof fn lemma_new_symbols_keeps(seen: Seq<Seq<char>>, caps: Seq<Seq<char>>, c: Seq<char>)
    requires
        caps.contains(c),
        !seen.contains(trim(c)),
    ensures
        new_symbols(seen, caps).contains(trim(c)),
    decreases caps.len(),
{
    let s = trim(caps[0]);
    if caps[0] == c {
        assert(!seen.contains(s));
        assert((seq![s] + new_symbols(seen.push(s), caps.drop_first()))[0] == s);
    } else {
        let k = choose|k: int| 0 <= k < caps.len() && caps[k] == c;
        assert(caps.drop_first()[k - 1] == c);
        if seen.contains(s) {
            lemma_new_symbols_keeps(seen, caps.drop_first(), c);
        } else {
            if s == trim(c) {
                assert((seq![s] + new_symbols(seen.push(s), caps.drop_first()))[0] == trim(c));
            } else {
                assert(!seen.push(s).contains(trim(c))) by {
                    if seen.push(s).contains(trim(c)) {
                        let m = choose|m: int| 0 <= m < seen.push(s).len() && seen.push(s)[m] == trim(c);
                        if m < seen.len() {
                            assert(seen[m] == trim(c));
                        }
                    }
                }
                lemma_new_symbols_keeps(seen.push(s), caps.drop_first(), c);
                let rest = new_symbols(seen.push(s), caps.drop_first());
                let j = choose|j: int| 0 <= j < rest.len() && rest[j] == trim(c);
                assert((seq![s] + rest)[j + 1] == trim(c));
            }
        }
    }
}

/// A definition request without a path, `<find_definition>s</find_definition>`,
/// asks for a search of the whole workspace: unless the same trimmed symbol
/// was already requested with a path, the parsed calls hold a find_definition
/// call with that symbol and the path `.`.
pub proof fn law_bare_definition_request_searches_workspace(t: Seq<char>, s: Seq<char>)
    requires
        simple_captures(t, "<find_definition>"@, "</find_definition>"@, 0).contains(s),
        !attr_captures(t, "<find_definition"@, "</find_definition>"@, 0).map_values(
            |d: (Seq<char>, Seq<char>)| trim(d.1),
        ).contains(trim(s)),
    ensures
        tool_calls_of(t).contains(("find_definition"@, seq![("symbol"@, trim(s)), ("path"@, "."@)])),
{
    let defs = attr_captures(t, "<find_definition"@, "</find_definition>"@, 0);
    let seen = defs.map_values(|d: (Seq<char>, Seq<char>)| trim(d.1));
    let caps = simple_captures(t, "<find_definition>"@, "</find_definition>"@, 0);
    lemma_new_symbols_keeps(seen, caps, s);
    let syms = new_symbols(seen, caps);
    let j = choose|j: int| 0 <= j < syms.len() && syms[j] == trim(s);
    let w = workspace_def_calls(syms);
    let call: CallView = ("find_definition"@, seq![("symbol"@, trim(s)), ("path"@, "."@)]);
    assert(w[j] == call);
    let lists = simple_captures(t, "<list_dir>"@, "</list_dir>"@, 0);
    let list_paths = if lists.len() > 0 {
        lists
    } else {
        lenient_captures(t, "<list_dir>"@, 0)
    };
    let reads = simple_captures(t, "<read_file>"@, "</read_file>"@, 0);
    let read_paths = if reads.len() > 0 {
        reads
    } else {
        lenient_captures(t, "<read_file>"@, 0)
    };
    let front = keyed_calls("list_dir"@, "path"@, list_paths) + keyed_calls("read_file"@, "path"@, read_paths)
        + write_calls(attr_captures(t, "<write_file"@, "</write_file>"@, 0)) + edit_calls(
        attr_captures(t, "<edit_file"@, "</edit_file>"@, 0),
    ) + keyed_calls("run_shell"@, "command"@, simple_captures(t, "<run_shell>"@, "</run_shell>"@, 0))
        + keyed_calls(
        "run_shell"@,
        "command"@,
        simple_captures(t, "<run_command>"@, "</run_command>"@, 0),
    ) + def_calls(defs);
    let back = keyed_calls("list_symbols"@, "path"@, simple_captures(t, "<list_symbols>"@, "</list_symbols>"@, 0));
    assert(tool_calls_of(t) == front + w + back);
    assert((front + w + back)[front.len() + j] == call);
}

/// `find_from` finds the first occurrence at or after `start`.
proof fn lemma_find_from_first(s: Seq<char>, pat: Seq<char>, start: int, k: int)
    requires
        0 <= start <= k,
        occurs_at(s, pat, k),
        forall|j: int| start <= j < k ==> !occurs_at(s, pat, j),
    ensures
        find_from(s, pat, start) == Some(k),
    decreases k - start,
{
    if start < k {
        lemma_find_from_first(s, pat, start + 1, k);
    }
}

/// No attribute-tag match starts at or after `p` when none starts at any
/// index from `p` on.
proof fn lemma_attr_first_none(t: Seq<char>, open: Seq<char>, close: Seq<char>, p: int)
    requires
        0 <= p,
        forall|i: int| p <= i < t.len() ==> attr_match_at(t, open, close, i) is None,
    ensures
        attr_first(t, open, close, p) is None,
    decreases t.len() - p,
{
    if p < t.len() {
        lemma_attr_first_none(t, open, close, p + 1);
    }
}

/// In `<find_definition>x</find_definition>` with no `<` in `x`, the bare
/// form captures `x` once and the form with a path captures nothing.
proof fn lemma_bare_request_captures(x: Seq<char>)
    requires
        forall|i: int| 0 <= i < x.len() ==> x[i] != '<',
    ensures
        simple_captures("<find_definition>"@ + x + "</find_definition>"@, "<find_definition>"@, "</find_definition>"@, 0)
            =~= seq![x],
        attr_captures("<find_definition>"@ + x + "</find_definition>"@, "<find_definition"@, "</find_definition>"@, 0)
            =~= Seq::<(Seq<char>, Seq<char>)>::empty(),
{
    let o = "<find_definition>"@;
    let c = "</find_definition>"@;
    let a = "<find_definition"@;
    reveal_strlit("<find_definition>");
    reveal_strlit("</find_definition>");
    reveal_strlit("<find_definition");
    let t = o + x + c;
    let n = x.len() as int;
    assert(o.len() == 17 && c.len() == 18 && a.len() == 16);
    assert(t.len() == 35 + n);
    // Characters of `t` that are `<`: only its first and the first of the close tag.
    assert forall|i: int| 0 <= i < t.len() && t[i] == '<' implies i == 0 || i == 17 + n by {
        if i < 17 {
            assert(t[i] == o[i]);
        } else if i < 17 + n {
            assert(t[i] == x[i - 17]);
        } else {
            assert(t[i] == c[i - 17 - n]);
        }
    }
    // The bare form matches once, around `x`.
    assert(t.subrange(0, 17) =~= o);
    assert(occurs_at(t, o, 0));
    lemma_find_from_first(t, o, 0, 0);
    assert(t.subrange(17 + n, 35 + n) =~= c);
    assert forall|j: int| 17 <= j < 17 + n implies !occurs_at(t, c, j) by {
        if occurs_at(t, c, j) {
            assert(t.subrange(j, j + 18)[0] == c[0]);
            assert(t[j] == x[j - 17]);
        }
    }
    lemma_find_from_first(t, c, 17, 17 + n);
    assert(simple_match(t, o, c, 0) == Some((17int, 17 + n, 35 + n)));
    assert(simple_match(t, o, c, 35 + n) is None);
    assert(simple_captures(t, o, c, 35 + n) =~= Seq::<Seq<char>>::empty());
    assert(t.subrange(17, 17 + n) =~= x);
    let caps = simple_captures(t, o, c, 0);
    assert(caps =~= seq![x]);
    assert(caps[0] == x);
    // No attribute form matches: after `<find_definition` comes `>`, and the
    // close tag begins `</`.
    assert(t[16] == '>');
    assert(!is_ws('>'));
    assert(ws_run(t, 16) == 0);
    assert forall|i: int| 0 <= i < t.len() implies attr_match_at(t, a, c, i) is None by {
        if i > 0 && occurs_at(t, a, i) {
            assert(t.subrange(i, i + 16)[0] == a[0]);
            assert(t[i] == '<');
            assert(i == 17 + n);
            assert(t.subrange(i, i + 16)[1] == a[1]);
            assert(t[i + 1] == c[1]);
        }
    }
    lemma_attr_first_none(t, a, c, 0);
    let defs = attr_captures(t, a, c, 0);
    assert(defs =~= Seq::<(Seq<char>, Seq<char>)>::empty());
}

/// A completion that is one bare definition request,
/// `<find_definition>x</find_definition>` with no `<` in `x`, asks for a
/// search of the whole workspace for the trimmed `x`.
pub proof fn law_one_bare_definition_request(x: Seq<char>)
    requires
        forall|i: int| 0 <= i < x.len() ==> x[i] != '<',
    ensures
        tool_calls_of("<find_definition>"@ + x + "</find_definition>"@).contains(
            ("find_definition"@, seq![("symbol"@, trim(x)), ("path"@, "."@)]),
        ),
{
    let t = "<find_definition>"@ + x + "</find_definition>"@;
    lemma_bare_request_captures(x);
    let defs = attr_captures(t, "<find_definition"@, "</find_definition>"@, 0);
    assert(defs.map_values(|d: (Seq<char>, Seq<char>)| trim(d.1)) =~= Seq::<Seq<char>>::empty());
    assert(simple_captures(t, "<find_definition>"@, "</find_definition>"@, 0)[0] == x);
    law_bare_definition_request_searches_workspace(t, x);
}

/// `find_from` finds nothing when nothing occurs at or after `start`.
proof fn lemma_find_from_none(s: Seq<char>, pat: Seq<char>, start: int)
    requires
        0 <= start,
        forall|j: int| start <= j ==> !occurs_at(s, pat, j),
    ensures
        find_from(s, pat, start) is None,
    decreases s.len() + 1 - start,
{
    if start + pat.len() <= s.len() {
        lemma_find_from_none(s, pat, start + 1);
    }
}

/// No lenient match starts at or after `p` when none starts at any index
/// from `p` on.
proof fn lemma_lenient_first_none(t: Seq<char>, open: Seq<char>, p: int)
    requires
        0 <= p,
        forall|i: int| p <= i < t.len() ==> lenient_match_at(t, open, i) is None,
    ensures
        lenient_first(t, open, p) is None,
    decreases t.len() - p,
{
    if p < t.len() {
        lemma_lenient_first_none(t, open, p + 1);
    }
}

/// A tag that never occurs in `t` yields no capture of any form.
proof fn lemma_absent_tag(t: Seq<char>, open: Seq<char>, close: Seq<char>)
    requires
        forall|i: int| !occurs_at(t, open, i),
    ensures
        simple_captures(t, open, close, 0) =~= Seq::<Seq<char>>::empty(),
        lenient_captures(t, open, 0) =~= Seq::<Seq<char>>::empty(),
        attr_captures(t, open, close, 0) =~= Seq::<(Seq<char>, Seq<char>)>::empty(),
{
    lemma_find_from_none(t, open, 0);
    lemma_lenient_first_none(t, open, 0);
    lemma_attr_first_none(t, open, close, 0);
}

/// The text `<find_definition>x</find_definition>` has a `<` only at its
/// start and at the start of its close tag, so a tag that begins `<` and
/// whose second character is neither `f` nor `/` never occurs in it.
proof fn lemma_other_tags_absent(x: Seq<char>, tag: Seq<char>)
    requires
        forall|i: int| 0 <= i < x.len() ==> x[i] != '<',
        tag.len() >= 2,
        tag[0] == '<',
        tag[1] != 'f',
        tag[1] != '/',
    ensures
        forall|i: int| !occurs_at("<find_definition>"@ + x + "</find_definition>"@, tag, i),
{
    let o = "<find_definition>"@;
    let c = "</find_definition>"@;
    reveal_strlit("<find_definition>");
    reveal_strlit("</find_definition>");
    let t = o + x + c;
    let n = x.len() as int;
    assert forall|i: int| !occurs_at(t, tag, i) by {
        if occurs_at(t, tag, i) {
            assert(t.subrange(i, i + tag.len())[0] == tag[0]);
            assert(t.subrange(i, i + tag.len())[1] == tag[1]);
            if i < 17 {
                assert(t[i] == o[i]);
                assert(i == 0);
                assert(t[1] == o[1]);
            } else if i < 17 + n {
                assert(t[i] == x[i - 17]);
            } else {
                assert(t[i] == c[i - 17 - n]);
                assert(i == 17 + n);
                assert(t[i + 1] == c[1]);
            }
        }
    }
}

/// A completion that is exactly one bare definition request,
/// `<find_definition>x</find_definition>` with no `<` in `x`, parses to
/// exactly one call: find_definition of the trimmed `x` over the whole
/// workspace (path `.`).
pub proof fn law_one_bare_definition_request_is_one_call(x: Seq<char>)
    requires
        forall|i: int| 0 <= i < x.len() ==> x[i] != '<',
    ensures
        tool_calls_of("<find_definition>"@ + x + "</find_definition>"@) == seq![
            ("find_definition"@, seq![("symbol"@, trim(x)), ("path"@, "."@)]),
        ],
{
    let o = "<find_definition>"@;
    let c = "</find_definition>"@;
    let a = "<find_definition"@;
    let t = o + x + c;
    lemma_bare_request_captures(x);
    reveal_strlit("<list_dir>");
    reveal_strlit("<read_file>");
    reveal_strlit("<write_file");
    reveal_strlit("<edit_file");
    reveal_strlit("<run_shell>");
    reveal_strlit("<run_command>");
    reveal_strlit("<list_symbols>");
    reveal_strlit("<find_definition>");
    reveal_strlit("</find_definition>");
    reveal_strlit("<find_definition");
    lemma_other_tags_absent(x, "<list_dir>"@);
    lemma_other_tags_absent(x, "<read_file>"@);
    lemma_other_tags_absent(x, "<write_file"@);
    lemma_other_tags_absent(x, "<edit_file"@);
    lemma_other_tags_absent(x, "<run_shell>"@);
    lemma_other_tags_absent(x, "<run_command>"@);
    lemma_other_tags_absent(x, "<list_symbols>"@);
    lemma_absent_tag(t, "<list_dir>"@, "</list_dir>"@);
    lemma_absent_tag(t, "<read_file>"@, "</read_file>"@);
    lemma_absent_tag(t, "<write_file"@, "</write_file>"@);
    lemma_absent_tag(t, "<edit_file"@, "</edit_file>"@);
    lemma_absent_tag(t, "<run_shell>"@, "</run_shell>"@);
    lemma_absent_tag(t, "<run_command>"@, "</run_command>"@);
    lemma_absent_tag(t, "<list_symbols>"@, "</list_symbols>"@);
    let defs = attr_captures(t, a, c, 0);
    let caps = simple_captures(t, o, c, 0);
    assert(defs =~= Seq::<(Seq<char>, Seq<char>)>::empty());
    assert(caps =~= seq![x]);
    let seen = defs.map_values(|d: (Seq<char>, Seq<char>)| trim(d.1));
    assert(seen =~= Seq::<Seq<char>>::empty());
    assert(!seen.contains(trim(x)));
    assert(caps.drop_first() =~= Seq::<Seq<char>>::empty());
    assert(caps[0] == x);
    assert(!seen.contains(trim(caps[0])));
    assert(new_symbols(seen.push(trim(x)), caps.drop_first()) =~= Seq::<Seq<char>>::empty());
    assert(new_symbols(seen, caps) =~= seq![trim(x)] + new_symbols(seen.push(trim(x)), caps.drop_first()));
    assert(new_symbols(seen, caps) =~= seq![trim(x)]);
    let call: CallView = ("find_definition"@, seq![("symbol"@, trim(x)), ("path"@, "."@)]);
    assert(workspace_def_calls(seq![trim(x)]) =~= seq![call]);
    assert(tool_calls_of(t) =~= seq![call]);
}

/// In `open + x + close`, with `<` only at the start of `open` and of `close`
/// (whose second character is `/`) and nowhere in `x`, a tag that begins `<`,
/// whose second character is not `/`, and that differs from `open` at some
/// index never occurs.
proof fn lemma_tag_absent(open: Seq<char>, x: Seq<char>, close: Seq<char>, tag: Seq<char>, k: int)
    requires
        open.len() >= 2,
        close.len() >= 2,
        open[0] == '<',
        close[0] == '<',
        close[1] == '/',
        forall|i: int| 1 <= i < open.len() ==> open[i] != '<',
        forall|i: int| 1 <= i < close.len() ==> close[i] != '<',
        forall|i: int| 0 <= i < x.len() ==> x[i] != '<',
        tag.len() >= 2,
        tag[0] == '<',
        tag[1] != '/',
        0 <= k < tag.len(),
        k < open.len(),
        tag[k] != open[k],
    ensures
        forall|i: int| !occurs_at(open + x + close, tag, i),
{
    let t = open + x + close;
    let m = open.len() as int;
    let n = x.len() as int;
    assert forall|i: int| !occurs_at(t, tag, i) by {
        if occurs_at(t, tag, i) {
            assert(t.subrange(i, i + tag.len())[0] == tag[0]);
            if i == 0 {
                assert(t.subrange(0, tag.len() as int)[k] == tag[k]);
                assert(t[k] == open[k]);
            } else if i < m {
                assert(t[i] == open[i]);
            } else if i < m + n {
                assert(t[i] == x[i - m]);
            } else if i == m + n {
                assert(t.subrange(i, i + tag.len())[1] == tag[1]);
                assert(t[i + 1] == close[1]);
            } else {
                assert(t[i] == close[i - m - n]);
            }
        }
    }
}

/// In `open + x + close` (as for `lemma_tag_absent`), the bare form of the
/// tag captures `x`, once.
proof fn lemma_single_capture(open: Seq<char>, x: Seq<char>, close: Seq<char>)
    requires
        open.len() >= 2,
        close.len() >= 2,
        open[0] == '<',
        close[0] == '<',
        close[1] == '/',
        forall|i: int| 1 <= i < open.len() ==> open[i] != '<',
        forall|i: int| 1 <= i < close.len() ==> close[i] != '<',
        forall|i: int| 0 <= i < x.len() ==> x[i] != '<',
    ensures
        simple_captures(open + x + close, open, close, 0) =~= seq![x],
{
    let t = open + x + close;
    let m = open.len() as int;
    let n = x.len() as int;
    let e = t.len() as int;
    assert(t.subrange(0, m) =~= open);
    lemma_find_from_first(t, open, 0, 0);
    assert(t.subrange(m + n, e) =~= close);
    assert forall|j: int| m <= j < m + n implies !occurs_at(t, close, j) by {
        if occurs_at(t, close, j) {
            assert(t.subrange(j, j + close.len())[0] == close[0]);
            assert(t[j] == x[j - m]);
        }
    }
    lemma_find_from_first(t, close, m, m + n);
    assert(simple_match(t, open, close, 0) == Some((m, m + n, e)));
    assert(simple_match(t, open, close, e) is None);
    assert(simple_captures(t, open, close, e) =~= Seq::<Seq<char>>::empty());
    assert(t.subrange(m, m + n) =~= x);
}

/// A completion that is exactly one `<list_dir>x</list_dir>` request, with no `<` in `x`,
/// parses to exactly one call: list_dir with `path` the trimmed `x`.
pub proof fn law_one_list_dir_request_is_one_call(x: Seq<char>)
    requires
        forall|i: int| 0 <= i < x.len() ==> x[i] != '<',
    ensures
        tool_calls_of("<list_dir>"@ + x + "</list_dir>"@) == seq![("list_dir"@, seq![("path"@, trim(x))])],
{
    let t = "<list_dir>"@ + x + "</list_dir>"@;
    reveal_strlit("</list_dir>");
    reveal_strlit("</edit_file>");
    reveal_strlit("</list_symbols>");
    reveal_strlit("<run_shell>");
    reveal_strlit("</find_definition>");
    reveal_strlit("<run_command>");
    reveal_strlit("<read_file>");
    reveal_strlit("<find_definition>");
    reveal_strlit("</run_shell>");
    reveal_strlit("<find_definition");
    reveal_strlit("<write_file");
    reveal_strlit("<list_dir>");
    reveal_strlit("</write_file>");
    reveal_strlit("<edit_file");
    reveal_strlit("</read_file>");
    reveal_strlit("<list_symbols>");
    reveal_strlit("</run_command>");
    lemma_single_capture("<list_dir>"@, x, "</list_dir>"@);
    assert("<read_file>"@[1] != "<list_dir>"@[1]);
    lemma_tag_absent("<list_dir>"@, x, "</list_dir>"@, "<read_file>"@, 1);
    lemma_absent_tag(t, "<read_file>"@, "</read_file>"@);
    assert("<write_file"@[1] != "<list_dir>"@[1]);
    lemma_tag_absent("<list_dir>"@, x, "</list_dir>"@, "<write_file"@, 1);
    lemma_absent_tag(t, "<write_file"@, "</write_file>"@);
    assert("<edit_file"@[1] != "<list_dir>"@[1]);
    lemma_tag_absent("<list_dir>"@, x, "</list_dir>"@, "<edit_file"@, 1);
    lemma_absent_tag(t, "<edit_file"@, "</edit_file>"@);
    assert("<run_shell>"@[1] != "<list_dir>"@[1]);
    lemma_tag_absent("<list_dir>"@, x, "</list_dir>"@, "<run_shell>"@, 1);
    lemma_absent_tag(t, "<run_shell>"@, "</run_shell>"@);
    assert("<run_command>"@[1] != "<list_dir>"@[1]);
    lemma_tag_absent("<list_dir>"@, x, "</list_dir>"@, "<run_command>"@, 1);
    lemma_absent_tag(t, "<run_command>"@, "</run_command>"@);
    assert("<find_definition"@[1] != "<list_dir>"@[1]);
    lemma_tag_absent("<list_dir>"@, x, "</list_dir>"@, "<find_definition"@, 1);
    lemma_absent_tag(t, "<find_definition"@, "</find_definition>"@);
    assert("<find_definition>"@[1] != "<list_dir>"@[1]);
    lemma_tag_absent("<list_dir>"@, x, "</list_dir>"@, "<find_definition>"@, 1);
    lemma_absent_tag(t, "<find_definition>"@, "</find_definition>"@);
    assert("<list_symbols>"@[6] != "<list_dir>"@[6]);
    lemma_tag_absent("<list_dir>"@, x, "</list_dir>"@, "<list_symbols>"@, 6);
    lemma_absent_tag(t, "<list_symbols>"@, "</list_symbols>"@);
    let call: CallView = ("list_dir"@, seq![("path"@, trim(x))]);
    assert(keyed_calls("list_dir"@, "path"@, seq![x]) =~= seq![call]);
    let defs = attr_captures(t, "<find_definition"@, "</find_definition>"@, 0);
    assert(defs.map_values(|d: (Seq<char>, Seq<char>)| trim(d.1)) =~= Seq::<Seq<char>>::empty());
    assert(new_symbols(Seq::<Seq<char>>::empty(), Seq::<Seq<char>>::empty()) =~= Seq::<Seq<char>>::empty());
    assert(tool_calls_of(t) =~= seq![call]);
}

/// A completion that is exactly one `<read_file>x</read_file>` request, with no `<` in `x`,
/// parses to exactly one call: read_file with `path` the trimmed `x`.
pub proof fn law_one_read_file_request_is_one_call(x: Seq<char>)
    requires
        forall|i: int| 0 <= i < x.len() ==> x[i] != '<',
    ensures
        tool_calls_of("<read_file>"@ + x + "</read_file>"@) == seq![("read_file"@, seq![("path"@, trim(x))])],
{
    let t = "<read_file>"@ + x + "</read_file>"@;
    reveal_strlit("</list_dir>");
    reveal_strlit("</edit_file>");
    reveal_strlit("</list_symbols>");
    reveal_strlit("<run_shell>");
    reveal_strlit("</find_definition>");
    reveal_strlit("<run_command>");
    reveal_strlit("<read_file>");
    reveal_strlit("<find_definition>");
    reveal_strlit("</run_shell>");
    reveal_strlit("<find_definition");
    reveal_strlit("<write_file");
    reveal_strlit("<list_dir>");
    reveal_strlit("</write_file>");
    reveal_strlit("<edit_file");
    reveal_strlit("</read_file>");
    reveal_strlit("<list_symbols>");
    reveal_strlit("</run_command>");
    lemma_single_capture("<read_file>"@, x, "</read_file>"@);
    assert("<list_dir>"@[1] != "<read_file>"@[1]);
    lemma_tag_absent("<read_file>"@, x, "</read_file>"@, "<list_dir>"@, 1);
    lemma_absent_tag(t, "<list_dir>"@, "</list_dir>"@);
    assert("<write_file"@[1] != "<read_file>"@[1]);
    lemma_tag_absent("<read_file>"@, x, "</read_file>"@, "<write_file"@, 1);
    lemma_absent_tag(t, "<write_file"@, "</write_file>"@);
    assert("<edit_file"@[1] != "<read_file>"@[1]);
    lemma_tag_absent("<read_file>"@, x, "</read_file>"@, "<edit_file"@, 1);
    lemma_absent_tag(t, "<edit_file"@, "</edit_file>"@);
    assert("<run_shell>"@[2] != "<read_file>"@[2]);
    lemma_tag_absent("<read_file>"@, x, "</read_file>"@, "<run_shell>"@, 2);
    lemma_absent_tag(t, "<run_shell>"@, "</run_shell>"@);
    assert("<run_command>"@[2] != "<read_file>"@[2]);
    lemma_tag_absent("<read_file>"@, x, "</read_file>"@, "<run_command>"@, 2);
    lemma_absent_tag(t, "<run_command>"@, "</run_command>"@);
    assert("<find_definition"@[1] != "<read_file>"@[1]);
    lemma_tag_absent("<read_file>"@, x, "</read_file>"@, "<find_definition"@, 1);
    lemma_absent_tag(t, "<find_definition"@, "</find_definition>"@);
    assert("<find_definition>"@[1] != "<read_file>"@[1]);
    lemma_tag_absent("<read_file>"@, x, "</read_file>"@, "<find_definition>"@, 1);
    lemma_absent_tag(t, "<find_definition>"@, "</find_definition>"@);
    assert("<list_symbols>"@[1] != "<read_file>"@[1]);
    lemma_tag_absent("<read_file>"@, x, "</read_file>"@, "<list_symbols>"@, 1);
    lemma_absent_tag(t, "<list_symbols>"@, "</list_symbols>"@);
    let call: CallView = ("read_file"@, seq![("path"@, trim(x))]);
    assert(keyed_calls("read_file"@, "path"@, seq![x]) =~= seq![call]);
    let defs = attr_captures(t, "<find_definition"@, "</find_definition>"@, 0);
    assert(defs.map_values(|d: (Seq<char>, Seq<char>)| trim(d.1)) =~= Seq::<Seq<char>>::empty());
    assert(new_symbols(Seq::<Seq<char>>::empty(), Seq::<Seq<char>>::empty()) =~= Seq::<Seq<char>>::empty());
    assert(tool_calls_of(t) =~= seq![call]);
}

/// A completion that is exactly one `<run_shell>x</run_shell>` request, with no `<` in `x`,
/// parses to exactly one call: run_shell with `command` the trimmed `x`.
pub proof fn law_one_run_shell_request_is_one_call(x: Seq<char>)
    requires
        forall|i: int| 0 <= i < x.len() ==> x[i] != '<',
    ensures
        tool_calls_of("<run_shell>"@ + x + "</run_shell>"@) == seq![("run_shell"@, seq![("command"@, trim(x))])],
{
    let t = "<run_shell>"@ + x + "</run_shell>"@;
    reveal_strlit("</list_dir>");
    reveal_strlit("</edit_file>");
    reveal_strlit("</list_symbols>");
    reveal_strlit("<run_shell>");
    reveal_strlit("</find_definition>");
    reveal_strlit("<run_command>");
    reveal_strlit("<read_file>");
    reveal_strlit("<find_definition>");
    reveal_strlit("</run_shell>");
    reveal_strlit("<find_definition");
    reveal_strlit("<write_file");
    reveal_strlit("<list_dir>");
    reveal_strlit("</write_file>");
    reveal_strlit("<edit_file");
    reveal_strlit("</read_file>");
    reveal_strlit("<list_symbols>");
    reveal_strlit("</run_command>");
    lemma_single_capture("<run_shell>"@, x, "</run_shell>"@);
    assert("<list_dir>"@[1] != "<run_shell>"@[1]);
    lemma_tag_absent("<run_shell>"@, x, "</run_shell>"@, "<list_dir>"@, 1);
    lemma_absent_tag(t, "<list_dir>"@, "</list_dir>"@);
    assert("<read_file>"@[2] != "<run_shell>"@[2]);
    lemma_tag_absent("<run_shell>"@, x, "</run_shell>"@, "<read_file>"@, 2);
    lemma_absent_tag(t, "<read_file>"@, "</read_file>"@);
    assert("<write_file"@[1] != "<run_shell>"@[1]);
    lemma_tag_absent("<run_shell>"@, x, "</run_shell>"@, "<write_file"@, 1);
    lemma_absent_tag(t, "<write_file"@, "</write_file>"@);
    assert("<edit_file"@[1] != "<run_shell>"@[1]);
    lemma_tag_absent("<run_shell>"@, x, "</run_shell>"@, "<edit_file"@, 1);
    lemma_absent_tag(t, "<edit_file"@, "</edit_file>"@);
    assert("<run_command>"@[5] != "<run_shell>"@[5]);
    lemma_tag_absent("<run_shell>"@, x, "</run_shell>"@, "<run_command>"@, 5);
    lemma_absent_tag(t, "<run_command>"@, "</run_command>"@);
    assert("<find_definition"@[1] != "<run_shell>"@[1]);
    lemma_tag_absent("<run_shell>"@, x, "</run_shell>"@, "<find_definition"@, 1);
    lemma_absent_tag(t, "<find_definition"@, "</find_definition>"@);
    assert("<find_definition>"@[1] != "<run_shell>"@[1]);
    lemma_tag_absent("<run_shell>"@, x, "</run_shell>"@, "<find_definition>"@, 1);
    lemma_absent_tag(t, "<find_definition>"@, "</find_definition>"@);
    assert("<list_symbols>"@[1] != "<run_shell>"@[1]);
    lemma_tag_absent("<run_shell>"@, x, "</run_shell>"@, "<list_symbols>"@, 1);
    lemma_absent_tag(t, "<list_symbols>"@, "</list_symbols>"@);
    let call: CallView = ("run_shell"@, seq![("command"@, trim(x))]);
    assert(keyed_calls("run_shell"@, "command"@, seq![x]) =~= seq![call]);
    let defs = attr_captures(t, "<find_definition"@, "</find_definition>"@, 0);
    assert(defs.map_values(|d: (Seq<char>, Seq<char>)| trim(d.1)) =~= Seq::<Seq<char>>::empty());
    assert(new_symbols(Seq::<Seq<char>>::empty(), Seq::<Seq<char>>::empty()) =~= Seq::<Seq<char>>::empty());
    assert(tool_calls_of(t) =~= seq![call]);
}

/// A completion that is exactly one `<run_command>x</run_command>` request, with no `<` in `x`,
/// parses to exactly one call: run_shell (a `run_command` request runs as run_shell too) with `command` the trimmed `x`.
pub proof fn law_one_run_command_request_is_one_call(x: Seq<char>)
    requires
        forall|i: int| 0 <= i < x.len() ==> x[i] != '<',
    ensures
        tool_calls_of("<run_command>"@ + x + "</run_command>"@) == seq![("run_shell"@, seq![("command"@, trim(x))])],
{
    let t = "<run_command>"@ + x + "</run_command>"@;
    reveal_strlit("</list_dir>");
    reveal_strlit("</edit_file>");
    reveal_strlit("</list_symbols>");
    reveal_strlit("<run_shell>");
    reveal_strlit("</find_definition>");
    reveal_strlit("<run_command>");
    reveal_strlit("<read_file>");
    reveal_strlit("<find_definition>");
    reveal_strlit("</run_shell>");
    reveal_strlit("<find_definition");
    reveal_strlit("<write_file");
    reveal_strlit("<list_dir>");
    reveal_strlit("</write_file>");
    reveal_strlit("<edit_file");
    reveal_strlit("</read_file>");
    reveal_strlit("<list_symbols>");
    reveal_strlit("</run_command>");
    lemma_single_capture("<run_command>"@, x, "</run_command>"@);
    assert("<list_dir>"@[1] != "<run_command>"@[1]);
    lemma_tag_absent("<run_command>"@, x, "</run_command>"@, "<list_dir>"@, 1);
    lemma_absent_tag(t, "<list_dir>"@, "</list_dir>"@);
    assert("<read_file>"@[2] != "<run_command>"@[2]);
    lemma_tag_absent("<run_command>"@, x, "</run_command>"@, "<read_file>"@, 2);
    lemma_absent_tag(t, "<read_file>"@, "</read_file>"@);
    assert("<write_file"@[1] != "<run_command>"@[1]);
    lemma_tag_absent("<run_command>"@, x, "</run_command>"@, "<write_file"@, 1);
    lemma_absent_tag(t, "<write_file"@, "</write_file>"@);
    assert("<edit_file"@[1] != "<run_command>"@[1]);
    lemma_tag_absent("<run_command>"@, x, "</run_command>"@, "<edit_file"@, 1);
    lemma_absent_tag(t, "<edit_file"@, "</edit_file>"@);
    assert("<run_shell>"@[5] != "<run_command>"@[5]);
    lemma_tag_absent("<run_command>"@, x, "</run_command>"@, "<run_shell>"@, 5);
    lemma_absent_tag(t, "<run_shell>"@, "</run_shell>"@);
    assert("<find_definition"@[1] != "<run_command>"@[1]);
    lemma_tag_absent("<run_command>"@, x, "</run_command>"@, "<find_definition"@, 1);
    lemma_absent_tag(t, "<find_definition"@, "</find_definition>"@);
    assert("<find_definition>"@[1] != "<run_command>"@[1]);
    lemma_tag_absent("<run_command>"@, x, "</run_command>"@, "<find_definition>"@, 1);
    lemma_absent_tag(t, "<find_definition>"@, "</find_definition>"@);
    assert("<list_symbols>"@[1] != "<run_command>"@[1]);
    lemma_tag_absent("<run_command>"@, x, "</run_command>"@, "<list_symbols>"@, 1);
    lemma_absent_tag(t, "<list_symbols>"@, "</list_symbols>"@);
    let call: CallView = ("run_shell"@, seq![("command"@, trim(x))]);
    assert(keyed_calls("run_shell"@, "command"@, seq![x]) =~= seq![call]);
    let defs = attr_captures(t, "<find_definition"@, "</find_definition>"@, 0);
    assert(defs.map_values(|d: (Seq<char>, Seq<char>)| trim(d.1)) =~= Seq::<Seq<char>>::empty());
    assert(new_symbols(Seq::<Seq<char>>::empty(), Seq::<Seq<char>>::empty()) =~= Seq::<Seq<char>>::empty());
    assert(tool_calls_of(t) =~= seq![call]);
}

/// A completion that is exactly one `<list_symbols>x</list_symbols>` request, with no `<` in `x`,
/// parses to exactly one call: list_symbols with `path` the trimmed `x`.
pub proof fn law_one_list_symbols_request_is_one_call(x: Seq<char>)
    requires
        forall|i: int| 0 <= i < x.len() ==> x[i] != '<',
    ensures
        tool_calls_of("<list_symbols>"@ + x + "</list_symbols>"@) == seq![("list_symbols"@, seq![("path"@, trim(x))])],
{
    let t = "<list_symbols>"@ + x + "</list_symbols>"@;
    reveal_strlit("</list_dir>");
    reveal_strlit("</edit_file>");
    reveal_strlit("</list_symbols>");
    reveal_strlit("<run_shell>");
    reveal_strlit("</find_definition>");
    reveal_strlit("<run_command>");
    reveal_strlit("<read_file>");
    reveal_strlit("<find_definition>");
    reveal_strlit("</run_shell>");
    reveal_strlit("<find_definition");
    reveal_strlit("<write_file");
    reveal_strlit("<list_dir>");
    reveal_strlit("</write_file>");
    reveal_strlit("<edit_file");
    reveal_strlit("</read_file>");
    reveal_strlit("<list_symbols>");
    reveal_strlit("</run_command>");
    lemma_single_capture("<list_symbols>"@, x, "</list_symbols>"@);
    assert("<list_dir>"@[6] != "<list_symbols>"@[6]);
    lemma_tag_absent("<list_symbols>"@, x, "</list_symbols>"@, "<list_dir>"@, 6);
    lemma_absent_tag(t, "<list_dir>"@, "</list_dir>"@);
    assert("<read_file>"@[1] != "<list_symbols>"@[1]);
    lemma_tag_absent("<list_symbols>"@, x, "</list_symbols>"@, "<read_file>"@, 1);
    lemma_absent_tag(t, "<read_file>"@, "</read_file>"@);
    assert("<write_file"@[1] != "<list_symbols>"@[1]);
    lemma_tag_absent("<list_symbols>"@, x, "</list_symbols>"@, "<write_file"@, 1);
    lemma_absent_tag(t, "<write_file"@, "</write_file>"@);
    assert("<edit_file"@[1] != "<list_symbols>"@[1]);
    lemma_tag_absent("<list_symbols>"@, x, "</list_symbols>"@, "<edit_file"@, 1);
    lemma_absent_tag(t, "<edit_file"@, "</edit_file>"@);
    assert("<run_shell>"@[1] != "<list_symbols>"@[1]);
    lemma_tag_absent("<list_symbols>"@, x, "</list_symbols>"@, "<run_shell>"@, 1);
    lemma_absent_tag(t, "<run_shell>"@, "</run_shell>"@);
    assert("<run_command>"@[1] != "<list_symbols>"@[1]);
    lemma_tag_absent("<list_symbols>"@, x, "</list_symbols>"@, "<run_command>"@, 1);
    lemma_absent_tag(t, "<run_command>"@, "</run_command>"@);
    assert("<find_definition"@[1] != "<list_symbols>"@[1]);
    lemma_tag_absent("<list_symbols>"@, x, "</list_symbols>"@, "<find_definition"@, 1);
    lemma_absent_tag(t, "<find_definition"@, "</find_definition>"@);
    assert("<find_definition>"@[1] != "<list_symbols>"@[1]);
    lemma_tag_absent("<list_symbols>"@, x, "</list_symbols>"@, "<find_definition>"@, 1);
    lemma_absent_tag(t, "<find_definition>"@, "</find_definition>"@);
    let call: CallView = ("list_symbols"@, seq![("path"@, trim(x))]);
    assert(keyed_calls("list_symbols"@, "path"@, seq![x]) =~= seq![call]);
    let defs = attr_captures(t, "<find_definition"@, "</find_definition>"@, 0);
    assert(defs.map_values(|d: (Seq<char>, Seq<char>)| trim(d.1)) =~= Seq::<Seq<char>>::empty());
    assert(new_symbols(Seq::<Seq<char>>::empty(), Seq::<Seq<char>>::empty()) =~= Seq::<Seq<char>>::empty());
    assert(tool_calls_of(t) =~= seq![call]);
}

/// `find_quote_gt` finds the first quote followed by `>` at or after `a`.
proof fn lemma_find_quote_gt_first(t: Seq<char>, a: int, k: int)
    requires
        0 <= a <= k,
        k + 1 < t.len(),
        is_quote(t[k]),
        t[k + 1] == '>',
        forall|j: int| a <= j < k ==> !is_quote(t[j]),
    ensures
        find_quote_gt(t, a) == Some(k),
    decreases k - a,
{
    if a < k {
        lemma_find_quote_gt_first(t, a + 1, k);
    }
}

/// A completion that is exactly one `<write_file path="p">b</write_file>`
/// request, with no `<` in `p` or `b` and no quote in `p`, parses to exactly
/// one call: write_file with `path` the trimmed `p` and `content` exactly
/// `b`.
pub proof fn law_one_write_file_request_is_one_call(p: Seq<char>, b: Seq<char>)
    requires
        forall|i: int| 0 <= i < p.len() ==> p[i] != '<' && !is_quote(p[i]),
        forall|i: int| 0 <= i < b.len() ==> b[i] != '<',
    ensures
        tool_calls_of("<write_file path=\""@ + p + "\">"@ + b + "</write_file>"@) == seq![
            ("write_file"@, seq![("path"@, trim(p)), ("content"@, b)]),
        ],
{
    let o = "<write_file path=\""@;
    let q = "\">"@;
    let c = "</write_file>"@;
    let a = "<write_file"@;
    reveal_strlit("\">");
    reveal_strlit("</edit_file>");
    reveal_strlit("</find_definition>");
    reveal_strlit("</list_dir>");
    reveal_strlit("</list_symbols>");
    reveal_strlit("</read_file>");
    reveal_strlit("</run_command>");
    reveal_strlit("</run_shell>");
    reveal_strlit("</write_file>");
    reveal_strlit("<edit_file");
    reveal_strlit("<find_definition");
    reveal_strlit("<find_definition>");
    reveal_strlit("<list_dir>");
    reveal_strlit("<list_symbols>");
    reveal_strlit("<read_file>");
    reveal_strlit("<run_command>");
    reveal_strlit("<run_shell>");
    reveal_strlit("<write_file");
    reveal_strlit("<write_file path=\"");
    reveal_strlit("path=");
    let x = p + q + b;
    let t = o + x + c;
    assert(t =~= o + p + q + b + c);
    let np = p.len() as int;
    let nb = b.len() as int;
    assert(o.len() == 18 && q.len() == 2 && c.len() == 13 && a.len() == 11);
    assert forall|i: int| 0 <= i < x.len() implies x[i] != '<' by {
        if i < np {
            assert(x[i] == p[i]);
        } else if i < np + 2 {
            assert(x[i] == q[i - np]);
        } else {
            assert(x[i] == b[i - np - 2]);
        }
    }
    lemma_tag_absent(o, x, c, "<list_dir>"@, 1);
    lemma_absent_tag(t, "<list_dir>"@, "</list_dir>"@);
    lemma_tag_absent(o, x, c, "<read_file>"@, 1);
    lemma_absent_tag(t, "<read_file>"@, "</read_file>"@);
    lemma_tag_absent(o, x, c, "<edit_file"@, 1);
    lemma_absent_tag(t, "<edit_file"@, "</edit_file>"@);
    lemma_tag_absent(o, x, c, "<run_shell>"@, 1);
    lemma_absent_tag(t, "<run_shell>"@, "</run_shell>"@);
    lemma_tag_absent(o, x, c, "<run_command>"@, 1);
    lemma_absent_tag(t, "<run_command>"@, "</run_command>"@);
    lemma_tag_absent(o, x, c, "<find_definition"@, 1);
    lemma_absent_tag(t, "<find_definition"@, "</find_definition>"@);
    lemma_tag_absent(o, x, c, "<find_definition>"@, 1);
    lemma_absent_tag(t, "<find_definition>"@, "</find_definition>"@);
    lemma_tag_absent(o, x, c, "<list_symbols>"@, 1);
    lemma_absent_tag(t, "<list_symbols>"@, "</list_symbols>"@);
    // The attribute form matches once, from the start to the end.
    assert(t.subrange(0, 11) =~= a);
    assert(t[11] == ' ' && t[12] == 'p');
    assert(ws_run(t, 12) == 0);
    assert(ws_run(t, 11) == 1);
    assert(t.subrange(12, 17) =~= "path="@);
    assert(t[17] == '"');
    assert(t[18 + np] == '"' && t[19 + np] == '>');
    assert forall|j: int| 18 <= j < 18 + np implies !is_quote(t[j]) by {
        assert(t[j] == p[j - 18]);
    }
    lemma_find_quote_gt_first(t, 18, 18 + np);
    assert(t.subrange(20 + np + nb, 33 + np + nb) =~= c);
    assert forall|j: int| 20 + np <= j < 20 + np + nb implies !occurs_at(t, c, j) by {
        if occurs_at(t, c, j) {
            assert(t.subrange(j, j + 13)[0] == c[0]);
            assert(t[j] == b[j - 20 - np]);
        }
    }
    lemma_find_from_first(t, c, 20 + np, 20 + np + nb);
    let e = 33 + np + nb;
    assert(attr_match_at(t, a, c, 0) == Some((18int, 18 + np, 20 + np, 20 + np + nb, e)));
    assert(attr_first(t, a, c, 0) == Some((18int, 18 + np, 20 + np, 20 + np + nb, e)));
    assert(attr_first(t, a, c, e) is None);
    assert(attr_captures(t, a, c, e) =~= Seq::<(Seq<char>, Seq<char>)>::empty());
    assert(t.subrange(18, 18 + np) =~= p);
    assert(t.subrange(20 + np, 20 + np + nb) =~= b);
    assert(attr_captures(t, a, c, 0) =~= seq![(p, b)]);
    let call: CallView = ("write_file"@, seq![("path"@, trim(p)), ("content"@, b)]);
    assert(write_calls(seq![(p, b)]) =~= seq![call]);
    let defs = attr_captures(t, "<find_definition"@, "</find_definition>"@, 0);
    assert(defs.map_values(|d: (Seq<char>, Seq<char>)| trim(d.1)) =~= Seq::<Seq<char>>::empty());
    assert(new_symbols(Seq::<Seq<char>>::empty(), Seq::<Seq<char>>::empty()) =~= Seq::<Seq<char>>::empty());
    assert(tool_calls_of(t) =~= seq![call]);
}

/// Formatting is refused exactly when an action tag is opened and never
/// closed: a text in which every opened `<write_file`, `<edit_file`,
/// `<run_shell>` and `<run_command>` has its closing tag somewhere passes, and
/// an unclosed `<write_file` is reported first, naming both of its tags.
pub proof fn law_unclosed_action_tags_are_reported(t: Seq<char>)
    ensures
        (contains_seq(t, "<write_file"@) ==> contains_seq(t, "</write_file>"@)) && (contains_seq(
            t,
            "<edit_file"@,
        ) ==> contains_seq(t, "</edit_file>"@)) && (contains_seq(t, "<run_shell>"@) ==> contains_seq(
            t,
            "</run_shell>"@,
        )) && (contains_seq(t, "<run_command>"@) ==> contains_seq(t, "</run_command>"@))
            <==> formatting_error(t) is None,
        contains_seq(t, "<write_file"@) && !contains_seq(t, "</write_file>"@) ==> formatting_error(t)
            == Some(
            "Error: You opened a tool tag '<write_file' but did not close it with '</write_file>'. Please ensure all tool tags are closed correctly."@,
        ),
{
    reveal_strlit("Error: You opened a tool tag '");
    reveal_strlit("<write_file");
    reveal_strlit("' but did not close it with '");
    reveal_strlit("</write_file>");
    reveal_strlit("'. Please ensure all tool tags are closed correctly.");
    reveal_strlit("Error: You opened a tool tag '<write_file' but did not close it with '</write_file>'. Please ensure all tool tags are closed correctly.");
    assert(unclosed_message("<write_file"@, "</write_file>"@) =~= "Error: You opened a tool tag '<write_file' but did not close it with '</write_file>'. Please ensure all tool tags are closed correctly."@);
}
} // verus!
