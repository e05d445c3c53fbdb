use jsdoc_gen::comment::{harvest_comment, parse_comment, CommentKind};
use jsdoc_gen::jsdoc::JsDoc;
use jsdoc_gen::parse::{field_from_name, kind_from_tag, parse_tree, process};
use jsdoc_gen::signature::{
    annotation, get_function_details_from_node, get_function_return_type_from_node,
    get_indentation, get_params, unquoted, FunctionInfo,
};
use jsdoc_gen::tree::{check_node, FieldName, NodeKind, SyntaxNode};
use jsdoc_gen::walker::document;

fn leaf(kind: NodeKind, start: usize, end: usize) -> SyntaxNode {
    SyntaxNode { kind, field: FieldName::Other, start, end, children: Vec::new() }
}

#[test]
fn scenario_plain_function() {
    let out = process("function f(a: string, b?: boolean) {}").unwrap();
    assert_eq!(
        out,
        "/**\n * f\n *\n * @param {string} a - \n * @param {boolean} [b] - \n */\nfunction f(a: string, b?: boolean) {}"
    );
}

#[test]
fn scenario_required_with_default() {
    let out = process("export function g(x: string = \"v\") {}").unwrap();
    assert_eq!(
        out,
        "/**\n * g\n *\n * @param {string} x=\"v\" - \n */\nexport function g(x: string = \"v\") {}"
    );
}

#[test]
fn single_quoted_default_is_unquoted() {
    let out = process("function g(x = 'v') {}").unwrap();
    assert_eq!(out, "/**\n * g\n *\n * @param {unknown} x=\"v\" - \n */\nfunction g(x = 'v') {}");
}

#[test]
fn optional_with_default_is_bracketed() {
    let doc = JsDoc::new("  ")
        .add_param("x", Some("string".to_owned()), true, Some("v".to_owned()), "")
        .build();
    assert_eq!(doc, "/**\n   * @param {string} [x=\"v\"] - \n   */");
}

#[test]
fn return_type_line_only_when_annotated() {
    let with = process("function r(): number {}").unwrap();
    assert_eq!(with, "/**\n * r\n * @returns {number} \n */\nfunction r(): number {}");
    let without = process("function r() {}").unwrap();
    assert_eq!(without, "/**\n * r\n */\nfunction r() {}");
}

#[test]
fn second_run_keeps_first_output() {
    let source = "\nfunction f(a: string) {}\n\nclass K {\n    m(x?: number): void {}\n}\n";
    let once = process(source).unwrap();
    let twice = process(&once).unwrap();
    assert_eq!(once, twice);
    assert_ne!(once, source);
}

#[test]
fn comment_after_blank_line_is_folded() {
    let out = process("// says hello\n\nfunction hi() {}").unwrap();
    assert_eq!(out, "\n\n/**\n * says hello\n */\nfunction hi() {}");
}

#[test]
fn comment_before_other_code_is_dropped() {
    let out = process("// a constant\nconst x = 1;").unwrap();
    assert_eq!(out, "\nconst x = 1;");
}

#[test]
fn export_of_a_class_is_copied() {
    let source = "export class A {\n  m() {}\n}";
    assert_eq!(process(source).unwrap(), source);
}

#[test]
fn empty_source() {
    assert_eq!(process("").unwrap(), "");
}

#[test]
fn deep_nesting_still_processed() {
    let mut body = String::from("1");
    for _ in 0..600 {
        body = format!("({})", body);
    }
    let source = format!("const x = {};\nfunction d() {{}}", body);
    let out = process(&source).unwrap();
    assert!(out.ends_with("/**\n * d\n */\nfunction d() {}"));
}

#[test]
fn non_ascii_text_kept() {
    let source = "const s = \"é\";\n  function ü(a: \"ß\") {}";
    let out = process(source).unwrap();
    assert_eq!(
        out,
        "const s = \"é\";\n  /**\n   * ü\n   *\n   * @param {\"ß\"} a - \n   */\n  function ü(a: \"ß\") {}"
    );
}

#[test]
fn parse_comment_line_comment() {
    assert_eq!(parse_comment("// my comment a"), "my comment a");
    assert_eq!(parse_comment("/// triple"), "triple");
    assert_eq!(parse_comment("//"), "");
}

#[test]
fn parse_comment_block_lines_joined() {
    assert_eq!(parse_comment("/*\n * first\n *\n * second\n * @param x\n */"), "firstsecond");
    assert_eq!(parse_comment("/* one line */"), "one line");
}

#[test]
fn parse_comment_unicode_space_trimmed() {
    assert_eq!(parse_comment("//\u{3000}wide\u{a0}"), "wide");
}

#[test]
fn parse_comment_keeps_inner_slashes() {
    assert_eq!(parse_comment("// a/b and 2*3"), "a/b and 2*3");
}

#[test]
fn harvest_doc_block() {
    assert!(matches!(harvest_comment("/** doc */"), CommentKind::AlreadyFormatted));
    match harvest_comment("/* plain */") {
        CommentKind::PlainDescription(d) => assert_eq!(d, "plain"),
        CommentKind::AlreadyFormatted => panic!("plain comment taken as doc block"),
    }
}

#[test]
fn kinds_and_fields_from_names() {
    assert_eq!(kind_from_tag("comment"), NodeKind::Comment);
    assert_eq!(kind_from_tag("export_statement"), NodeKind::ExportStatement);
    assert_eq!(kind_from_tag("string"), NodeKind::StringLiteral);
    assert_eq!(kind_from_tag("string_fragment"), NodeKind::Other);
    assert_eq!(field_from_name(Some("parameters")), FieldName::Parameters);
    assert_eq!(field_from_name(Some("return_type")), FieldName::ReturnType);
    assert_eq!(field_from_name(Some("body")), FieldName::Other);
    assert_eq!(field_from_name(None), FieldName::Other);
}

#[test]
fn indentation_is_space_run_before_node() {
    assert_eq!(get_indentation("\n  \tfoo", 4), "  \t");
    assert_eq!(get_indentation("x; function f", 3), " ");
    assert_eq!(get_indentation("foo", 0), "");
}

#[test]
fn annotation_and_unquote() {
    assert_eq!(annotation(": string | number "), "string | number");
    assert_eq!(annotation("Promise<T>"), "Promise<T>");
    assert_eq!(unquoted("\"a b\""), "a b");
    assert_eq!(unquoted("'c'"), "c");
    assert_eq!(unquoted("\"d'"), "\"d'");
    assert_eq!(unquoted("\""), "\"");
}

#[test]
fn function_info_new() {
    let info = FunctionInfo::new("f".to_owned(), Some("T".to_owned()));
    assert_eq!(info.function_name, "f");
    assert_eq!(info.return_type, Some("T".to_owned()));
}

#[test]
fn jsdoc_each_line() {
    let mut doc = JsDoc::new("\t");
    doc.add_description("d");
    doc.add_space();
    doc.add_param("p", None, true, None, "q");
    doc.add_return("R", "");
    assert_eq!(doc.build(), "/**\n\t * d\n\t *\n\t * @param {unknown} [p] - q\n\t * @returns {R} \n\t */");
}

#[test]
fn document_on_hand_built_tree() {
    let source = "// hi\nfunction f(a) {}";
    let ident = leaf(NodeKind::Identifier, 15, 16);
    let param = SyntaxNode {
        kind: NodeKind::RequiredParameter,
        field: FieldName::Other,
        start: 17,
        end: 18,
        children: vec![leaf(NodeKind::Identifier, 17, 18)],
    };
    let params = SyntaxNode {
        kind: NodeKind::Other,
        field: FieldName::Parameters,
        start: 16,
        end: 19,
        children: vec![param],
    };
    let func = SyntaxNode {
        kind: NodeKind::FunctionDeclaration,
        field: FieldName::Other,
        start: 6,
        end: 22,
        children: vec![ident, params],
    };
    let root = SyntaxNode {
        kind: NodeKind::Other,
        field: FieldName::Other,
        start: 0,
        end: 22,
        children: vec![leaf(NodeKind::Comment, 0, 5), func],
    };
    assert!(check_node(source, &root));
    assert_eq!(
        document(source, &root).unwrap(),
        "\n/**\n * hi\n *\n * @param {unknown} a - \n */\nfunction f(a) {}"
    );
}

#[test]
fn document_refuses_tree_outside_text() {
    let source = "abc";
    let root = SyntaxNode {
        kind: NodeKind::Other,
        field: FieldName::Other,
        start: 0,
        end: 3,
        children: vec![leaf(NodeKind::Other, 1, 9)],
    };
    assert!(document(source, &root).is_none());
    assert!(!check_node(source, &root));
}

#[test]
fn document_refuses_split_character() {
    let source = "é";
    let root = SyntaxNode {
        kind: NodeKind::Other,
        field: FieldName::Other,
        start: 0,
        end: 2,
        children: vec![leaf(NodeKind::Other, 1, 2)],
    };
    assert!(document(source, &root).is_none());
}

#[test]
fn document_refuses_overlapping_children() {
    let source = "abcd";
    let root = SyntaxNode {
        kind: NodeKind::Other,
        field: FieldName::Other,
        start: 0,
        end: 4,
        children: vec![leaf(NodeKind::Other, 0, 3), leaf(NodeKind::Other, 2, 4)],
    };
    assert!(document(source, &root).is_none());
}

#[test]
fn parsed_tree_spans_source() {
    let source = "function f() {}\n";
    let root = parse_tree(source);
    assert_eq!(root.kind, NodeKind::Other);
    assert_eq!(root.children.len(), 1);
    assert_eq!(root.children[0].kind, NodeKind::FunctionDeclaration);
    assert_eq!(root.children[0].start, 0);
    assert_eq!(root.children[0].end, 15);
    assert!(root.children[0]
        .children
        .iter()
        .any(|c| c.field == FieldName::Parameters));
    assert!(check_node(source, &root));
}

#[test]
fn export_wrapper_is_read_through() {
    let source = "export function go(n: number): void {}";
    let root = parse_tree(source);
    let export = &root.children[0];
    assert_eq!(export.kind, NodeKind::ExportStatement);
    let info = get_function_details_from_node(source, export);
    assert_eq!(info.function_name, "go");
    assert_eq!(info.return_type, Some("void".to_owned()));
    assert_eq!(
        get_function_return_type_from_node(source, export),
        Some("void".to_owned())
    );
    let params = get_params(source, export);
    assert_eq!(params.len(), 1);
    assert_eq!(params[0].name, "n");
    assert_eq!(params[0].declared_type, Some("number".to_owned()));
    assert!(!params[0].optional);
}

#[test]
fn name_is_trimmed() {
    let source = " f  (a) ";
    let node = SyntaxNode {
        kind: NodeKind::FunctionDeclaration,
        field: FieldName::Other,
        start: 0,
        end: 8,
        children: vec![leaf(NodeKind::Identifier, 0, 4)],
    };
    assert_eq!(get_function_details_from_node(source, &node).function_name, "f");
}

#[test]
fn export_without_function_is_unknown() {
    let source = "export const x = 1;";
    let root = parse_tree(source);
    let info = get_function_details_from_node(source, &root.children[0]);
    assert_eq!(info.function_name, "unknown");
    assert_eq!(info.return_type, None);
}
