//! Reading TypeScript with tree-sitter: the parser's calls, and the
//! conversion of its tree into the library's own `SyntaxNode`.
use vstd::prelude::*;
use vstd::string::StringSliceAdditionalSpecFns;
use crate::text::same_text;
use crate::tree::{scope_ok, FieldName, NodeKind, SyntaxNode};
use crate::walker::{document, document_text};

verus! {

/// tree_sitter::Tree, held only to reach its root node.
#[verifier::external_type_specification]
#[verifier::external_body]
pub struct ExTree(tree_sitter::Tree);

/// tree_sitter::Node, read only through the accessors below.
#[verifier::external_type_specification]
#[verifier::external_body]
pub struct ExNode<'tree>(tree_sitter::Node<'tree>);

/// Relies on tree_sitter::Tree::root_node: the root of the tree.
pub assume_specification<'tree>[ tree_sitter::Tree::root_node ](
    tree: &'tree tree_sitter::Tree,
) -> tree_sitter::Node<'tree>;

/// Relies on tree_sitter::Node::kind: the grammar's name for the node's kind.
pub assume_specification<'tree>[ tree_sitter::Node::<'tree>::kind ](
    node: &tree_sitter::Node<'tree>,
) -> &'tree str;

/// Relies on tree_sitter::Node::start_byte: the byte where the node starts.
pub assume_specification<'tree>[ tree_sitter::Node::<'tree>::start_byte ](
    node: &tree_sitter::Node<'tree>,
) -> usize;

/// Relies on tree_sitter::Node::end_byte: the byte where the node ends.
pub assume_specification<'tree>[ tree_sitter::Node::<'tree>::end_byte ](
    node: &tree_sitter::Node<'tree>,
) -> usize;

/// Relies on tree_sitter::Node::child_count: how many children the node has.
pub assume_specification<'tree>[ tree_sitter::Node::<'tree>::child_count ](
    node: &tree_sitter::Node<'tree>,
) -> u32;

/// Relies on tree_sitter::Node::child: the child at an index, if any.
pub assume_specification<'tree>[ tree_sitter::Node::<'tree>::child ](
    node: &tree_sitter::Node<'tree>,
    i: u32,
) -> Option<tree_sitter::Node<'tree>>;

/// Relies on tree_sitter::Node::field_name_for_child: the field under which
/// the child at an index hangs, if any.
pub assume_specification<'tree>[ tree_sitter::Node::<'tree>::field_name_for_child ](
    node: &tree_sitter::Node<'tree>,
    child_index: u32,
) -> Option<&'tree str>;

/// Relies on tree_sitter::Parser::new, Parser::set_language and
/// Parser::parse, with tree_sitter_typescript::LANGUAGE_TYPESCRIPT: the
/// grammar's version (14) lies in the range that set_language takes and the
/// grammar can be parsed with, so the language is set; a parser with a
/// language always gives a tree.
#[verifier::external_body]
fn parse_typescript(source: &str) -> (r: Option<tree_sitter::Tree>)
    ensures
        r is Some,
{
    let mut parser = tree_sitter::Parser::new();
    let language = tree_sitter::Language::new(tree_sitter_typescript::LANGUAGE_TYPESCRIPT);
    match parser.set_language(&language) {
        Ok(()) => parser.parse(source, None),
        Err(_) => None,
    }
}

/// How deep the tree is read: below this depth nodes are kept without their
/// children, and their text is copied as it stands.
pub const MAX_DEPTH: usize = 256;

/// The node kind that a grammar tag names.
pub open spec fn kind_of_tag(tag: Seq<char>) -> NodeKind {
    if tag == "comment"@ {
        NodeKind::Comment
    } else if tag == "function_declaration"@ {
        NodeKind::FunctionDeclaration
    } else if tag == "export_statement"@ {
        NodeKind::ExportStatement
    } else if tag == "class_declaration"@ {
        NodeKind::ClassDeclaration
    } else if tag == "class_body"@ {
        NodeKind::ClassBody
    } else if tag == "method_definition"@ {
        NodeKind::MethodDefinition
    } else if tag == "required_parameter"@ {
        NodeKind::RequiredParameter
    } else if tag == "optional_parameter"@ {
        NodeKind::OptionalParameter
    } else if tag == "identifier"@ {
        NodeKind::Identifier
    } else if tag == "property_identifier"@ {
        NodeKind::PropertyIdentifier
    } else if tag == "type_annotation"@ {
        NodeKind::TypeAnnotation
    } else if tag == "string"@ {
        NodeKind::StringLiteral
    } else {
        NodeKind::Other
    }
}

/// The field that a grammar field name names.
pub open spec fn field_of_name(name: Option<Seq<char>>) -> FieldName {
    match name {
        Some(n) => if n == "parameters"@ {
            FieldName::Parameters
        } else if n == "return_type"@ {
            FieldName::ReturnType
        } else {
            FieldName::Other
        },
        None => FieldName::Other,
    }
}

/// The node kind that a grammar tag names.
pub fn kind_from_tag(tag: &str) -> (r: NodeKind)
    ensures
        r == kind_of_tag(tag@),
{
    if same_text(tag, "comment") {
        NodeKind::Comment
    } else if same_text(tag, "function_declaration") {
        NodeKind::FunctionDeclaration
    } else if same_text(tag, "export_statement") {
        NodeKind::ExportStatement
    } else if same_text(tag, "class_declaration") {
        NodeKind::ClassDeclaration
    } else if same_text(tag, "class_body") {
        NodeKind::ClassBody
    } else if same_text(tag, "method_definition") {
        NodeKind::MethodDefinition
    } else if same_text(tag, "required_parameter") {
        NodeKind::RequiredParameter
    } else if same_text(tag, "optional_parameter") {
        NodeKind::OptionalParameter
    } else if same_text(tag, "identifier") {
        NodeKind::Identifier
    } else if same_text(tag, "property_identifier") {
        NodeKind::PropertyIdentifier
    } else if same_text(tag, "type_annotation") {
        NodeKind::TypeAnnotation
    } else if same_text(tag, "string") {
        NodeKind::StringLiteral
    } else {
        NodeKind::Other
    }
}

/// The field that a grammar field name names.
pub fn field_from_name(name: Option<&str>) -> (r: FieldName)
    ensures
        r == field_of_name(
            match name {
                Some(n) => Some(n@),
                None => None,
            },
        ),
{
    match name {
        Some(n) => if same_text(n, "parameters") {
            FieldName::Parameters
        } else if same_text(n, "return_type") {
            FieldName::ReturnType
        } else {
            FieldName::Other
        },
        None => FieldName::Other,
    }
}

/// The library's copy of a tree-sitter node, read `depth` levels down.
fn convert_node(node: &tree_sitter::Node, field: FieldName, depth: usize) -> (r: SyntaxNode)
    ensures
        r.field == field,
    decreases depth,
{
    let kind = kind_from_tag(node.kind());
    let start = node.start_byte();
    let end = node.end_byte();
    let mut children: Vec<SyntaxNode> = Vec::new();
    if depth > 0 {
        let count = node.child_count();
        let mut i: u32 = 0;
        while i < count
            invariant
                depth > 0,
            decreases count - i,
        {
            match node.child(i) {
                Some(c) => {
                    let f = field_from_name(node.field_name_for_child(i));
                    children.push(convert_node(&c, f, depth - 1));
                },
                None => {},
            }
            i = i + 1;
        }
    }
    SyntaxNode { kind, field, start, end, children }
}

/// Parses `source` as TypeScript and returns the library's copy of its
/// syntax tree. The copy is read `MAX_DEPTH` levels down: a node below that
/// depth is kept without its children, so its text (a class nested that
/// deep included) is copied as it stands, without doc blocks.
pub fn parse_tree(source: &str) -> (r: SyntaxNode)
    ensures
        r.field == FieldName::Other,
{
    match parse_typescript(source) {
        Some(tree) => {
            let root = tree.root_node();
            convert_node(&root, FieldName::Other, MAX_DEPTH)
        },
        None => vstd::pervasive::unreached(),
    }
}

/// Adds doc blocks to the TypeScript text `source`: the result is the
/// document built on the tree that the parser gives, or `None` when that
/// tree does not fit the text.
pub fn process(source_code: &str) -> (r: Option<String>)
    ensures
        match r {
            Some(s) => exists|root: SyntaxNode|
                scope_ok(
                    source_code.spec_bytes(),
                    root.children@,
                    0,
                    source_code.spec_bytes().len() as int,
                ) && s@ == #[trigger] document_text(source_code.spec_bytes(), root.children@),
            None => true,
        },
{
    let root = parse_tree(source_code);
    document(source_code, &root)
}

} // verus!
