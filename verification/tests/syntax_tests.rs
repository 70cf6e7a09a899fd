use dohee::syntax::{file_definitions, file_symbols, find_definitions, symbols_report, SyntaxNode, SyntaxScan};
use dohee::tools::definition_output;

fn node(kind: &str, depth: usize, start: usize, end: usize, row: usize, column: usize, name: Option<(usize, usize)>) -> SyntaxNode {
    SyntaxNode { kind: kind.to_string(), depth, start_byte: start, end_byte: end, row, column, name }
}

const SAMPLE: &str = "pub struct SampleStruct;\npub fn sample_function() {}\n";

#[test]
fn test_ast_tools() {
    let found = match file_definitions(SAMPLE, "SampleStruct", "sample.rs") {
        SyntaxScan::Scanned(p) => p,
        _ => panic!("expected a scan"),
    };
    let out = definition_output("SampleStruct", found.0, found.1);
    assert!(out.content.contains("Definition of 'SampleStruct'"));
    let symbols = match file_symbols("sample.rs", SAMPLE) {
        SyntaxScan::Scanned(s) => s,
        _ => panic!("expected a scan"),
    };
    assert!(symbols.contains("struct SampleStruct"));
    assert!(symbols.contains("fn sample_function"));
}

#[test]
fn parsed_definitions_give_rows_and_columns() {
    match file_definitions(SAMPLE, "SampleStruct", "sample.rs") {
        SyntaxScan::Scanned((text, n)) => {
            assert_eq!(text, "sample.rs:1:1: Definition of 'SampleStruct'\n");
            assert_eq!(n, 1);
        }
        _ => panic!("expected a scan"),
    }
    match file_definitions("mod m {\n    fn inner() {}\n}\n", "inner", "m.rs") {
        SyntaxScan::Scanned((text, n)) => {
            assert_eq!(text, "m.rs:2:5: Definition of 'inner'\n");
            assert_eq!(n, 1);
        }
        _ => panic!("expected a scan"),
    }
    match file_definitions(SAMPLE, "Missing", "sample.rs") {
        SyntaxScan::Scanned((text, n)) => {
            assert_eq!(text, "");
            assert_eq!(n, 0);
        }
        _ => panic!("expected a scan"),
    }
}

#[test]
fn parsed_symbols_list_top_level_items() {
    match file_symbols("sample.rs", SAMPLE) {
        SyntaxScan::Scanned(s) => assert_eq!(
            s,
            "AST Symbols in 'sample.rs':\n  Line 1: pub struct SampleStruct;\n  Line 2: pub fn sample_function() {}\n"
        ),
        _ => panic!("expected a scan"),
    }
}

#[test]
fn definitions_are_found_in_given_nodes() {
    let source = "struct Fé;\nfn g() {}\n";
    // "Fé" spans bytes 7..10 ('é' is two bytes).
    let nodes = vec![
        node("source_file", 0, 0, 22, 0, 0, None),
        node("struct_item", 1, 0, 11, 0, 0, Some((7, 10))),
        node("function_item", 1, 12, 21, 1, 0, Some((15, 16))),
        node("identifier", 2, 15, 16, 1, 3, None),
    ];
    let (text, n) = find_definitions(&nodes, source, "Fé", "x.rs").unwrap();
    assert_eq!(text, "x.rs:1:1: Definition of 'Fé'\n");
    assert_eq!(n, 1);
    let (text, n) = find_definitions(&nodes, source, "g", "x.rs").unwrap();
    assert_eq!(text, "x.rs:2:1: Definition of 'g'\n");
    assert_eq!(n, 1);
}

#[test]
fn a_name_inside_a_character_cannot_be_read() {
    let source = "struct Fé;\n";
    let nodes = vec![node("struct_item", 1, 0, 11, 0, 0, Some((7, 9)))];
    assert!(find_definitions(&nodes, source, "F", "x.rs").is_none());
    // Nodes that are not definitions are not read.
    let other = vec![node("identifier", 1, 0, 11, 0, 0, Some((7, 9)))];
    assert_eq!(find_definitions(&other, source, "F", "x.rs").unwrap().1, 0);
}

#[test]
fn symbols_are_listed_from_given_nodes() {
    let source = "impl A {\n}\nfn b() {}\n";
    let nodes = vec![
        node("source_file", 0, 0, 21, 0, 0, None),
        node("impl_item", 1, 0, 10, 0, 0, None),
        node("function_item", 2, 2, 8, 0, 2, None),
        node("function_item", 1, 11, 20, 2, 0, None),
    ];
    assert_eq!(
        symbols_report("a.rs", source, &nodes).unwrap(),
        "AST Symbols in 'a.rs':\n  Line 1: impl A {\n  Line 3: fn b() {}\n"
    );
    let bad = vec![node("impl_item", 1, 0, 50, 0, 0, None)];
    assert!(symbols_report("a.rs", source, &bad).is_none());
}
