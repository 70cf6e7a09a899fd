//! Rust syntax trees as tree-sitter parses them, and what the definition and
//! symbol tools report from them.
//!
//! A tree is held as the list of its nodes in preorder, each with its depth
//! below the root: the order in which a walk over the tree meets them.
use vstd::prelude::*;
use vstd::string::*;
use crate::text::{byte_range_ok, byte_slice, byte_slice_of, chars_of, decimal, lines_of, str_eq};
use crate::tools::{definition_kind, definition_line, is_definition_kind, path_message, symbol_kind, symbol_line};

verus! {

broadcast use vstd::string::group_string_axioms;

/// One node of a syntax tree: its kind, its depth below the root (the root
/// is at depth 0), its byte range in the source, the zero-based row and
/// column where it starts, and the byte range of its `name` field, if any.
pub struct SyntaxNode {
    pub kind: String,
    pub depth: usize,
    pub start_byte: usize,
    pub end_byte: usize,
    pub row: usize,
    pub column: usize,
    pub name: Option<(usize, usize)>,
}

/// A syntax node with its kind as a sequence of characters.
pub struct SyntaxNodeView {
    pub kind: Seq<char>,
    pub depth: usize,
    pub start_byte: usize,
    pub end_byte: usize,
    pub row: usize,
    pub column: usize,
    pub name: Option<(usize, usize)>,
}

impl View for SyntaxNode {
    type V = SyntaxNodeView;

    open spec fn view(&self) -> SyntaxNodeView {
        SyntaxNodeView {
            kind: self.kind@,
            depth: self.depth,
            start_byte: self.start_byte,
            end_byte: self.end_byte,
            row: self.row,
            column: self.column,
            name: self.name,
        }
    }
}

/// The nodes of a list, each by its view.
pub open spec fn nodes_view(v: Seq<SyntaxNode>) -> Seq<SyntaxNodeView> {
    v.map_values(|n: SyntaxNode| n@)
}

/// The nodes, in preorder, of the tree that tree-sitter's Rust grammar
/// parses from `source`; `None` when no tree comes back.
pub uninterp spec fn rust_syntax_of(source: Seq<char>) -> Option<Seq<SyntaxNodeView>>;

/// `tree_sitter::Parser` with `tree_sitter_rust::language()`, `parse`, and a
/// `TreeCursor` on the root moved to each descendant index in turn
/// (`goto_descendant`, preorder, the root first): each node is converted to a
/// `SyntaxNode` field by field, its depth being the cursor's `depth`. `None`
/// when the grammar cannot be set or `parse` gives no tree.
#[verifier::external_body]
fn rust_syntax(source: &str) -> (r: Option<Vec<SyntaxNode>>)
    ensures
        (match r {
            Some(v) => rust_syntax_of(source@) == Some(nodes_view(v@)),
            None => rust_syntax_of(source@) is None,
        }),
{
    let mut parser = tree_sitter::Parser::new();
    parser.set_language(&tree_sitter_rust::language()).ok()?;
    let tree = parser.parse(source, None)?;
    let mut cursor = tree.walk();
    Some((0..tree.root_node().descendant_count()).map(|i| {
        cursor.goto_descendant(i);
        let n = cursor.node();
        SyntaxNode { kind: n.kind().to_string(), depth: cursor.depth() as usize, start_byte: n.start_byte(),
            end_byte: n.end_byte(), row: n.start_position().row, column: n.start_position().column,
            name: n.child_by_field_name("name").map(|c| (c.start_byte(), c.end_byte())) }
    }).collect())
}

/// What came of scanning a source file's syntax tree: no tree, a tree whose
/// byte ranges cannot be read from the source, or the scan's result.
pub enum SyntaxScan<T> {
    Unparsed,
    Unreadable,
    Scanned(T),
}

// ---------------------------------------------------------------------------
// Definitions of a symbol
// ---------------------------------------------------------------------------
/// Node `n` defines `symbol`: it is of a definition kind and its name's text
/// is `symbol`.
pub open spec fn defines(n: SyntaxNodeView, source: Seq<char>, symbol: Seq<char>) -> bool {
    is_definition_kind(n.kind) && (match n.name {
        Some(r) => byte_slice(source, r.0 as int, r.1 as int) == symbol,
        None => false,
    })
}

/// The report line of node `n` when it defines `symbol`, with one-based row
/// and column; nothing otherwise.
pub open spec fn definition_text(
    n: SyntaxNodeView,
    source: Seq<char>,
    symbol: Seq<char>,
    display: Seq<char>,
) -> Seq<char> {
    if defines(n, source, symbol) {
        display + ":"@ + decimal(n.row as nat + 1) + ":"@ + decimal(n.column as nat + 1)
            + ": Definition of '"@ + symbol + "'\n"@
    } else {
        Seq::empty()
    }
}

/// The report lines of all nodes that define `symbol`, in order.
pub open spec fn definitions_text(
    nodes: Seq<SyntaxNodeView>,
    source: Seq<char>,
    symbol: Seq<char>,
    display: Seq<char>,
) -> Seq<char>
    decreases nodes.len(),
{
    if nodes.len() == 0 {
        Seq::empty()
    } else {
        definitions_text(nodes.drop_last(), source, symbol, display) + definition_text(
            nodes.last(),
            source,
            symbol,
            display,
        )
    }
}

/// The number of nodes that define `symbol`.
pub open spec fn definitions_count(nodes: Seq<SyntaxNodeView>, source: Seq<char>, symbol: Seq<char>) -> nat
    decreases nodes.len(),
{
    if nodes.len() == 0 {
        0
    } else {
        definitions_count(nodes.drop_last(), source, symbol) + if defines(nodes.last(), source, symbol) {
            1nat
        } else {
            0nat
        }
    }
}

/// The name of a node of a definition kind can be cut from the source (its
/// byte range starts and ends on character boundaries, in order), and when
/// that name is `symbol`, its row and column can be counted from one.
pub open spec fn definition_readable(n: SyntaxNodeView, source: Seq<char>, symbol: Seq<char>) -> bool {
    match n.name {
        Some(r) => is_definition_kind(n.kind) ==> (byte_range_ok(source, r.0 as int, r.1 as int) && (
        byte_slice(source, r.0 as int, r.1 as int) == symbol ==> n.row < usize::MAX && n.column
            < usize::MAX)),
        None => true,
    }
}

/// Every node's name can be read as `definition_readable` asks.
pub open spec fn definitions_readable(nodes: Seq<SyntaxNodeView>, source: Seq<char>, symbol: Seq<char>) -> bool {
    forall|j: int| 0 <= j < nodes.len() ==> #[trigger] definition_readable(nodes[j], source, symbol)
}

/// A struct, function, enum or trait whose name is `symbol` adds exactly one
/// report line, `display:row:column: Definition of 'symbol'` counted from
/// one, and one to the count; a node of any other kind adds nothing.
pub proof fn law_each_named_definition_is_reported(
    nodes: Seq<SyntaxNodeView>,
    n: SyntaxNodeView,
    source: Seq<char>,
    symbol: Seq<char>,
    display: Seq<char>,
)
    ensures
        ({
            let kinds = n.kind == "struct_item"@ || n.kind == "function_item"@ || n.kind == "fn_item"@
                || n.kind == "enum_item"@ || n.kind == "trait_item"@;
            let named = match n.name {
                Some(r) => byte_slice(source, r.0 as int, r.1 as int) == symbol,
                None => false,
            };
            &&& kinds && named ==> definitions_count(nodes.push(n), source, symbol) == definitions_count(
                nodes,
                source,
                symbol,
            ) + 1
            &&& kinds && named ==> definitions_text(nodes.push(n), source, symbol, display) == definitions_text(
                nodes,
                source,
                symbol,
                display,
            ) + display + ":"@ + decimal(n.row as nat + 1) + ":"@ + decimal(n.column as nat + 1)
                + ": Definition of '"@ + symbol + "'\n"@
            &&& !(kinds && named) ==> definitions_count(nodes.push(n), source, symbol) == definitions_count(
                nodes,
                source,
                symbol,
            )
            &&& !(kinds && named) ==> definitions_text(nodes.push(n), source, symbol, display)
                == definitions_text(nodes, source, symbol, display)
        }),
{
    assert(nodes.push(n).drop_last() =~= nodes);
    assert(nodes.push(n).last() == n);
    let e = definitions_text(nodes, source, symbol, display);
    assert(e + Seq::<char>::empty() =~= e);
}

/// The definitions of `symbol` among the `nodes` of the tree of `source`,
/// reported under the name `display`: the report lines in order and their
/// number; `None` when a name to compare cannot be read from the source, or
/// the row or column of a definition cannot be counted from one.
pub fn find_definitions(nodes: &Vec<SyntaxNode>, source: &str, symbol: &str, display: &str) -> (r: Option<(String, usize)>)
    ensures
        r is Some <==> definitions_readable(nodes_view(nodes@), source@, symbol@),
        r matches Some(p) ==> p.0@ == definitions_text(nodes_view(nodes@), source@, symbol@, display@)
            && p.1 == definitions_count(nodes_view(nodes@), source@, symbol@),
{
    let v = chars_of(source);
    let ghost all = nodes_view(nodes@);
    let mut text = String::new();
    let mut count: usize = 0;
    let mut i: usize = 0;
    assert(all.take(0) =~= Seq::<SyntaxNodeView>::empty());
    while i < nodes.len()
        invariant
            v@ == source@,
            all == nodes_view(nodes@),
            all.len() == nodes.len(),
            i <= nodes.len(),
            text@ == definitions_text(all.take(i as int), source@, symbol@, display@),
            count == definitions_count(all.take(i as int), source@, symbol@),
            count <= i,
            forall|j: int| 0 <= j < i ==> #[trigger] definition_readable(all[j], source@, symbol@),
        decreases nodes.len() - i,
    {
        let n = &nodes[i];
        let ghost nv = all[i as int];
        assert(nv == n@);
        assert(all.take(i + 1).drop_last() =~= all.take(i as int));
        assert(all.take(i + 1).last() == nv);
        if definition_kind(n.kind.as_str()) {
            match n.name {
                Some((a, b)) => {
                    let name = match byte_slice_of(&v, a, b) {
                        Some(t) => t,
                        None => {
                            assert(!definition_readable(nv, source@, symbol@));
                            return None;
                        },
                    };
                    if str_eq(name.as_str(), symbol) {
                        if n.row == usize::MAX || n.column == usize::MAX {
                            assert(!definition_readable(nv, source@, symbol@));
                            return None;
                        }
                        let line = definition_line(display, n.row, n.column, symbol);
                        text.append(line.as_str());
                        count = count + 1;
                    }
                },
                None => {},
            }
        }
        i = i + 1;
    }
    assert(all.take(nodes.len() as int) =~= all);
    Some((text, count))
}

/// The definitions of `symbol` in the Rust source `source`, reported under the
/// name `display`, as `find_definitions` makes them from its syntax tree.
pub fn file_definitions(source: &str, symbol: &str, display: &str) -> (r: SyntaxScan<(String, usize)>)
    ensures
        (match rust_syntax_of(source@) {
            None => r is Unparsed,
            Some(t) => if definitions_readable(t, source@, symbol@) {
                r matches SyntaxScan::Scanned(p) && p.0@ == definitions_text(t, source@, symbol@, display@)
                    && p.1 == definitions_count(t, source@, symbol@)
            } else {
                r is Unreadable
            },
        }),
{
    match rust_syntax(source) {
        None => SyntaxScan::Unparsed,
        Some(nodes) => match find_definitions(&nodes, source, symbol, display) {
            Some(p) => SyntaxScan::Scanned(p),
            None => SyntaxScan::Unreadable,
        },
    }
}

// ---------------------------------------------------------------------------
// Top-level symbols
// ---------------------------------------------------------------------------
/// Node `n` is a top-level item that the symbol list shows: a child of the
/// root of a definition kind or an `impl` block.
pub open spec fn is_symbol_node(n: SyntaxNodeView) -> bool {
    n.depth == 1 && (is_definition_kind(n.kind) || n.kind == "impl_item"@)
}

/// The first line of `s`, or nothing when it has none.
pub open spec fn first_line(s: Seq<char>) -> Seq<char> {
    if lines_of(s).len() > 0 {
        lines_of(s)[0]
    } else {
        Seq::empty()
    }
}

/// The list line of node `n` when it is a listed symbol: its one-based row
/// and the first line of its source text; nothing otherwise.
pub open spec fn symbol_text(n: SyntaxNodeView, source: Seq<char>) -> Seq<char> {
    if is_symbol_node(n) {
        "  Line "@ + decimal(n.row as nat + 1) + ": "@ + first_line(
            byte_slice(source, n.start_byte as int, n.end_byte as int),
        ) + "\n"@
    } else {
        Seq::empty()
    }
}

/// The list lines of all listed symbols, in order.
pub open spec fn symbols_body(nodes: Seq<SyntaxNodeView>, source: Seq<char>) -> Seq<char>
    decreases nodes.len(),
{
    if nodes.len() == 0 {
        Seq::empty()
    } else {
        symbols_body(nodes.drop_last(), source) + symbol_text(nodes.last(), source)
    }
}

/// The symbol list of the file `path`: a heading, then one line per symbol.
pub open spec fn symbols_text(path: Seq<char>, source: Seq<char>, nodes: Seq<SyntaxNodeView>) -> Seq<char> {
    "AST Symbols in '"@ + path + "':\n"@ + symbols_body(nodes, source)
}

/// The text of a listed symbol can be cut from the source, and its row can
/// be counted from one.
pub open spec fn symbol_readable(n: SyntaxNodeView, source: Seq<char>) -> bool {
    is_symbol_node(n) ==> byte_range_ok(source, n.start_byte as int, n.end_byte as int) && n.row < usize::MAX
}

/// Every listed symbol is readable.
pub open spec fn symbols_readable(nodes: Seq<SyntaxNodeView>, source: Seq<char>) -> bool {
    forall|j: int| 0 <= j < nodes.len() ==> #[trigger] symbol_readable(nodes[j], source)
}

/// A child of the root that is a struct, function, enum, trait or `impl`
/// block adds exactly one list line, `  Line row: first line of its text`
/// with the row counted from one; any other node (deeper, or of another
/// kind) adds nothing. The list always opens with its heading.
pub proof fn law_each_top_level_item_is_listed(
    nodes: Seq<SyntaxNodeView>,
    n: SyntaxNodeView,
    path: Seq<char>,
    source: Seq<char>,
)
    ensures
        ({
            let listed = n.depth == 1 && (n.kind == "struct_item"@ || n.kind == "function_item"@
                || n.kind == "fn_item"@ || n.kind == "enum_item"@ || n.kind == "trait_item"@
                || n.kind == "impl_item"@);
            let text = byte_slice(source, n.start_byte as int, n.end_byte as int);
            let first = if lines_of(text).len() > 0 {
                lines_of(text)[0]
            } else {
                Seq::empty()
            };
            &&& symbols_text(path, source, nodes) == "AST Symbols in '"@ + path + "':\n"@ + symbols_body(
                nodes,
                source,
            )
            &&& listed ==> symbols_body(nodes.push(n), source) == symbols_body(nodes, source) + "  Line "@
                + decimal(n.row as nat + 1) + ": "@ + first + "\n"@
            &&& !listed ==> symbols_body(nodes.push(n), source) == symbols_body(nodes, source)
        }),
{
    assert(nodes.push(n).drop_last() =~= nodes);
    assert(nodes.push(n).last() == n);
    let e = symbols_body(nodes, source);
    assert(e + Seq::<char>::empty() =~= e);
}

/// The symbol list of the file `path` whose source is `source` and whose
/// tree has `nodes`; `None` when a listed symbol cannot be read.
pub fn symbols_report(path: &str, source: &str, nodes: &Vec<SyntaxNode>) -> (r: Option<String>)
    ensures
        r is Some <==> symbols_readable(nodes_view(nodes@), source@),
        r matches Some(s) ==> s@ == symbols_text(path@, source@, nodes_view(nodes@)),
{
    let v = chars_of(source);
    let ghost all = nodes_view(nodes@);
    let mut out = path_message("AST Symbols in '", path, "':\n");
    let ghost head = out@;
    let mut i: usize = 0;
    assert(all.take(0) =~= Seq::<SyntaxNodeView>::empty());
    while i < nodes.len()
        invariant
            v@ == source@,
            all == nodes_view(nodes@),
            all.len() == nodes.len(),
            i <= nodes.len(),
            head == "AST Symbols in '"@ + path@ + "':\n"@,
            out@ == head + symbols_body(all.take(i as int), source@),
            forall|j: int| 0 <= j < i ==> #[trigger] symbol_readable(all[j], source@),
        decreases nodes.len() - i,
    {
        let n = &nodes[i];
        let ghost nv = all[i as int];
        assert(nv == n@);
        assert(all.take(i + 1).drop_last() =~= all.take(i as int));
        assert(all.take(i + 1).last() == nv);
        if n.depth == 1 && symbol_kind(n.kind.as_str()) {
            let snippet = match byte_slice_of(&v, n.start_byte, n.end_byte) {
                Some(t) => t,
                None => {
                    assert(!symbol_readable(nv, source@));
                    return None;
                },
            };
            if n.row == usize::MAX {
                assert(!symbol_readable(nv, source@));
                return None;
            }
            let line = symbol_line(n.row, snippet.as_str());
            out.append(line.as_str());
        }
        assert(out@ == head + symbols_body(all.take(i + 1), source@));
        i = i + 1;
    }
    assert(all.take(nodes.len() as int) =~= all);
    Some(out)
}

/// The symbol list of the Rust file `path` whose source is `source`, as
/// `symbols_report` makes it from its syntax tree.
pub fn file_symbols(path: &str, source: &str) -> (r: SyntaxScan<String>)
    ensures
        (match rust_syntax_of(source@) {
            None => r is Unparsed,
            Some(t) => if symbols_readable(t, source@) {
                r matches SyntaxScan::Scanned(s) && s@ == symbols_text(path@, source@, t)
            } else {
                r is Unreadable
            },
        }),
{
    match rust_syntax(source) {
        None => SyntaxScan::Unparsed,
        Some(nodes) => match symbols_report(path, source, &nodes) {
            Some(s) => SyntaxScan::Scanned(s),
            None => SyntaxScan::Unreadable,
        },
    }
}

} // verus!
