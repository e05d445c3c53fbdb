//! The signature reader: name, parameters and return type of a declaration
//! node, and the indentation at the place where it starts.
use vstd::prelude::*;
use vstd::string::StringSliceAdditionalSpecFns;
use vstd::utf8::is_char_boundary;
use crate::jsdoc::unknown;
use crate::text::{
    chars_of, copy_range, is_space, is_space_char, opt_chars, slice, string_of, text_of, trim,
    trim_chars,
};
use crate::tree::{node_ok, children_ok, lemma_child_ok, FieldName, NodeKind, SyntaxNode};

verus! {

broadcast use vstd::std_specs::vec::group_vec_axioms, vstd::utf8::group_utf8_lib;

/// The name and the return type read from a declaration.
#[derive(Debug)]
pub struct FunctionInfo {
    pub function_name: String,
    pub return_type: Option<String>,
}

impl FunctionInfo {
    pub fn new(function_name: String, return_type: Option<String>) -> (r: FunctionInfo)
        ensures
            r.function_name == function_name,
            r.return_type == return_type,
    {
        FunctionInfo { function_name, return_type }
    }
}

/// One parameter as read from the source.
#[derive(Debug)]
pub struct ParameterSpec {
    pub name: String,
    pub declared_type: Option<String>,
    pub optional: bool,
    pub default_literal: Option<String>,
}

/// A parameter as characters.
pub struct ParamView {
    pub name: Seq<char>,
    pub declared: Option<Seq<char>>,
    pub optional: bool,
    pub default: Option<Seq<char>>,
}

impl ParameterSpec {
    pub open spec fn view(&self) -> ParamView {
        ParamView {
            name: self.name@,
            declared: opt_chars(self.declared_type),
            optional: self.optional,
            default: opt_chars(self.default_literal),
        }
    }
}

/// The views of a sequence of parameters.
pub open spec fn param_specs_view(ps: Seq<ParameterSpec>) -> Seq<ParamView> {
    Seq::new(ps.len(), |i: int| ps[i].view())
}

/// The text of a node.
pub open spec fn node_text(bytes: Seq<u8>, n: SyntaxNode) -> Seq<char> {
    text_of(bytes, n.start as int, n.end as int)
}

/// The index of the first child from `i` on of kind `k`, or the number of
/// children when there is none.
pub open spec fn first_kind(cs: Seq<SyntaxNode>, i: int, k: NodeKind) -> int
    decreases cs.len() - i,
{
    if 0 <= i < cs.len() {
        if cs[i].kind == k {
            i
        } else {
            first_kind(cs, i + 1, k)
        }
    } else {
        cs.len() as int
    }
}

/// The first child of a kind from `i` on lies between `i` and the end.
pub proof fn lemma_first_kind_bounds(cs: Seq<SyntaxNode>, i: int, k: NodeKind)
    requires
        0 <= i,
    ensures
        i <= first_kind(cs, i, k) <= cs.len() || first_kind(cs, i, k) == cs.len(),
        first_kind(cs, i, k) < cs.len() ==> cs[first_kind(cs, i, k)].kind == k,
    decreases cs.len() - i,
{
    if i < cs.len() && cs[i].kind != k {
        lemma_first_kind_bounds(cs, i + 1, k);
    }
}

/// A plain identifier, or a property name for methods.
pub open spec fn is_name_kind(k: NodeKind) -> bool {
    k == NodeKind::Identifier || k == NodeKind::PropertyIdentifier
}

/// The index of the first identifier-like child from `i` on, or the number
/// of children.
pub open spec fn first_name(cs: Seq<SyntaxNode>, i: int) -> int
    decreases cs.len() - i,
{
    if 0 <= i < cs.len() {
        if is_name_kind(cs[i].kind) {
            i
        } else {
            first_name(cs, i + 1)
        }
    } else {
        cs.len() as int
    }
}

/// The index of the first child from `i` on under field `f`, or the number
/// of children.
pub open spec fn first_field(cs: Seq<SyntaxNode>, i: int, f: FieldName) -> int
    decreases cs.len() - i,
{
    if 0 <= i < cs.len() {
        if cs[i].field == f {
            i
        } else {
            first_field(cs, i + 1, f)
        }
    } else {
        cs.len() as int
    }
}

/// The node whose signature is read: the function declaration inside an
/// export wrapper, else the node itself.
pub open spec fn target_of(node: SyntaxNode) -> SyntaxNode {
    let cs = node.children@;
    let i = first_kind(cs, 0, NodeKind::FunctionDeclaration);
    if node.kind == NodeKind::ExportStatement && i < cs.len() {
        cs[i]
    } else {
        node
    }
}

/// The declaration's name: the trimmed text of the first identifier-like
/// child of its signature node, or `unknown`.
pub open spec fn name_of(bytes: Seq<u8>, node: SyntaxNode) -> Seq<char> {
    let cs = target_of(node).children@;
    let i = first_name(cs, 0);
    if i < cs.len() {
        trim(node_text(bytes, cs[i]))
    } else {
        unknown()
    }
}

/// The text of a type annotation without its leading `:` and surrounding
/// white space.
pub open spec fn annotation_text(s: Seq<char>) -> Seq<char> {
    if s.len() > 0 && s[0] == ':' {
        trim(s.drop_first())
    } else {
        trim(s)
    }
}

/// A string literal without its enclosing quotes.
pub open spec fn unquote(s: Seq<char>) -> Seq<char> {
    if s.len() >= 2 && (s[0] == '"' || s[0] == '\'') && s[s.len() - 1] == s[0] {
        s.subrange(1, s.len() - 1)
    } else {
        s
    }
}

/// The return type: the text of the return-type annotation of the
/// signature node, when present.
pub open spec fn return_of(bytes: Seq<u8>, node: SyntaxNode) -> Option<Seq<char>> {
    let cs = target_of(node).children@;
    let i = first_field(cs, 0, FieldName::ReturnType);
    if i < cs.len() {
        Some(annotation_text(node_text(bytes, cs[i])))
    } else {
        None
    }
}

/// A parameter node read as a parameter, or `None` when it is no parameter
/// or has no name.
pub open spec fn param_of(bytes: Seq<u8>, p: SyntaxNode) -> Option<ParamView> {
    let cs = p.children@;
    let ni = first_kind(cs, 0, NodeKind::Identifier);
    let ti = first_kind(cs, 0, NodeKind::TypeAnnotation);
    let si = first_kind(cs, 0, NodeKind::StringLiteral);
    if (p.kind == NodeKind::RequiredParameter || p.kind == NodeKind::OptionalParameter) && ni
        < cs.len() {
        Some(
            ParamView {
                name: node_text(bytes, cs[ni]),
                declared: if ti < cs.len() {
                    Some(annotation_text(node_text(bytes, cs[ti])))
                } else {
                    None
                },
                optional: p.kind == NodeKind::OptionalParameter,
                default: if si < cs.len() {
                    Some(unquote(node_text(bytes, cs[si])))
                } else {
                    None
                },
            },
        )
    } else {
        None
    }
}

/// The parameters read from the first `n` entries of a parameter list.
pub open spec fn param_views(bytes: Seq<u8>, ps: Seq<SyntaxNode>, n: int) -> Seq<ParamView>
    decreases n,
{
    if n <= 0 {
        Seq::empty()
    } else {
        param_views(bytes, ps, n - 1) + match param_of(bytes, ps[n - 1]) {
            Some(v) => seq![v],
            None => Seq::empty(),
        }
    }
}

/// The parameters of a declaration's signature node, in source order.
pub open spec fn params_of(bytes: Seq<u8>, node: SyntaxNode) -> Seq<ParamView> {
    let cs = target_of(node).children@;
    let i = first_field(cs, 0, FieldName::Parameters);
    if i < cs.len() {
        param_views(bytes, cs[i].children@, cs[i].children@.len() as int)
    } else {
        Seq::empty()
    }
}

/// The byte where the line holding byte `j` starts.
pub open spec fn line_start(bytes: Seq<u8>, j: int) -> int
    decreases j,
{
    if j <= 0 {
        0
    } else if bytes[j - 1] == 10u8 {
        j
    } else {
        line_start(bytes, j - 1)
    }
}

/// Where the run of white space that ends at `k` starts.
pub open spec fn space_run_start(s: Seq<char>, k: int) -> int
    decreases k,
{
    if k > 0 && is_space(s[k - 1]) {
        space_run_start(s, k - 1)
    } else {
        k
    }
}

/// The indentation of a node starting at byte `start`: the run of white
/// space just before it on its line.
pub open spec fn indent_of(bytes: Seq<u8>, start: int) -> Seq<char> {
    let line = text_of(bytes, line_start(bytes, start), start);
    line.subrange(space_run_start(line, line.len() as int), line.len() as int)
}

/// The text of a well-formed node.
pub fn node_str<'a>(source: &'a str, n: &SyntaxNode) -> (r: &'a str)
    requires
        node_ok(source.spec_bytes(), *n),
    ensures
        r@ == node_text(source.spec_bytes(), *n),
{
    slice(source, n.start, n.end)
}

/// The index of the first child of kind `k`.
pub fn find_kind(cs: &Vec<SyntaxNode>, k: NodeKind) -> (r: usize)
    ensures
        r == first_kind(cs@, 0, k),
        r <= cs.len(),
        r < cs.len() ==> cs@[r as int].kind == k,
{
    let mut i: usize = 0;
    while i < cs.len() && cs[i].kind != k
        invariant
            i <= cs.len(),
            first_kind(cs@, i as int, k) == first_kind(cs@, 0, k),
        decreases cs.len() - i,
    {
        i = i + 1;
    }
    i
}

/// The index of the first identifier-like child.
pub fn find_name(cs: &Vec<SyntaxNode>) -> (r: usize)
    ensures
        r == first_name(cs@, 0),
        r <= cs.len(),
{
    let mut i: usize = 0;
    while i < cs.len() && !(cs[i].kind == NodeKind::Identifier || cs[i].kind
        == NodeKind::PropertyIdentifier)
        invariant
            i <= cs.len(),
            first_name(cs@, i as int) == first_name(cs@, 0),
        decreases cs.len() - i,
    {
        i = i + 1;
    }
    i
}

/// The index of the first child under field `f`.
pub fn find_field(cs: &Vec<SyntaxNode>, f: FieldName) -> (r: usize)
    ensures
        r == first_field(cs@, 0, f),
        r <= cs.len(),
{
    let mut i: usize = 0;
    while i < cs.len() && cs[i].field != f
        invariant
            i <= cs.len(),
            first_field(cs@, i as int, f) == first_field(cs@, 0, f),
        decreases cs.len() - i,
    {
        i = i + 1;
    }
    i
}

/// The text of a type annotation without its leading `:` and surrounding
/// white space.
pub fn annotation(s: &str) -> (r: String)
    ensures
        r@ == annotation_text(s@),
{
    let c = chars_of(s);
    if c.len() > 0 && c[0] == ':' {
        let rest = copy_range(&c, 1, c.len());
        assert(rest@ =~= s@.drop_first());
        string_of(&trim_chars(&rest))
    } else {
        string_of(&trim_chars(&c))
    }
}

/// A string literal without its enclosing quotes.
pub fn unquoted(s: &str) -> (r: String)
    ensures
        r@ == unquote(s@),
{
    let c = chars_of(s);
    let n = c.len();
    if n >= 2 && (c[0] == '"' || c[0] == '\'') && c[n - 1] == c[0] {
        string_of(&copy_range(&c, 1, n - 1))
    } else {
        s.to_owned()
    }
}

/// The node whose signature is read.
pub fn signature_target(node: &SyntaxNode) -> (r: &SyntaxNode)
    ensures
        *r == target_of(*node),
{
    let i = find_kind(&node.children, NodeKind::FunctionDeclaration);
    if node.kind == NodeKind::ExportStatement && i < node.children.len() {
        &node.children[i]
    } else {
        node
    }
}

/// The signature node of a well-formed node is well formed.
pub proof fn lemma_target_ok(bytes: Seq<u8>, node: SyntaxNode)
    requires
        node_ok(bytes, node),
    ensures
        node_ok(bytes, target_of(node)),
{
    if target_of(node) != node {
        let k = first_kind(node.children@, 0, NodeKind::FunctionDeclaration);
        lemma_first_kind_bounds(node.children@, 0, NodeKind::FunctionDeclaration);
        lemma_child_ok(bytes, node.children@, node.children@.len() as int, node.start as int, k);
    }
}

/// The return type of a declaration, when it is annotated; an export
/// wrapper is read through its function declaration.
pub fn get_function_return_type_from_node(source: &str, node: &SyntaxNode) -> (r: Option<
    String,
>)
    requires
        node_ok(source.spec_bytes(), *node),
    ensures
        opt_chars(r) == return_of(source.spec_bytes(), *node),
{
    let t = signature_target(node);
    proof {
        lemma_target_ok(source.spec_bytes(), *node);
    }
    let cs = &t.children;
    let i = find_field(cs, FieldName::ReturnType);
    if i < cs.len() {
        proof {
            lemma_child_ok(source.spec_bytes(), cs@, cs@.len() as int, t.start as int, i as int);
        }
        Some(annotation(node_str(source, &cs[i])))
    } else {
        None
    }
}

/// The name and return type of a declaration; an export wrapper is read
/// through its function declaration.
pub fn get_function_details_from_node(source: &str, node: &SyntaxNode) -> (r: FunctionInfo)
    requires
        node_ok(source.spec_bytes(), *node),
    ensures
        r.function_name@ == name_of(source.spec_bytes(), *node),
        opt_chars(r.return_type) == return_of(source.spec_bytes(), *node),
{
    let t = signature_target(node);
    proof {
        lemma_target_ok(source.spec_bytes(), *node);
    }
    let cs = &t.children;
    let i = find_name(cs);
    let return_type = get_function_return_type_from_node(source, node);
    if i < cs.len() {
        proof {
            lemma_child_ok(source.spec_bytes(), cs@, cs@.len() as int, t.start as int, i as int);
        }
        let name = trim_chars(&chars_of(node_str(source, &cs[i])));
        FunctionInfo::new(string_of(&name), return_type)
    } else {
        proof {
            reveal_strlit("unknown");
        }
        FunctionInfo::new("unknown".to_owned(), return_type)
    }
}

/// One entry of a parameter list read as a parameter.
pub fn get_param(source: &str, p: &SyntaxNode) -> (r: Option<ParameterSpec>)
    requires
        node_ok(source.spec_bytes(), *p),
    ensures
        match r {
            Some(s) => param_of(source.spec_bytes(), *p) == Some(s.view()),
            None => param_of(source.spec_bytes(), *p) is None,
        },
{
    let ghost bytes = source.spec_bytes();
    let cs = &p.children;
    if !(p.kind == NodeKind::RequiredParameter || p.kind == NodeKind::OptionalParameter) {
        return None;
    }
    let ni = find_kind(cs, NodeKind::Identifier);
    if ni >= cs.len() {
        return None;
    }
    proof {
        lemma_child_ok(bytes, cs@, cs@.len() as int, p.start as int, ni as int);
    }
    let name = node_str(source, &cs[ni]).to_owned();
    let ti = find_kind(cs, NodeKind::TypeAnnotation);
    let declared_type = if ti < cs.len() {
        proof {
            lemma_child_ok(bytes, cs@, cs@.len() as int, p.start as int, ti as int);
        }
        Some(annotation(node_str(source, &cs[ti])))
    } else {
        None
    };
    let si = find_kind(cs, NodeKind::StringLiteral);
    let default_literal = if si < cs.len() {
        proof {
            lemma_child_ok(bytes, cs@, cs@.len() as int, p.start as int, si as int);
        }
        Some(unquoted(node_str(source, &cs[si])))
    } else {
        None
    };
    let r = ParameterSpec {
        name,
        declared_type,
        optional: p.kind == NodeKind::OptionalParameter,
        default_literal,
    };
    assert(param_of(bytes, *p) == Some(r.view()));
    Some(r)
}

/// The parameters of a declaration, in source order; entries without a
/// name are left out, and an export wrapper is read through its function
/// declaration.
pub fn get_params(source: &str, node: &SyntaxNode) -> (r: Vec<ParameterSpec>)
    requires
        node_ok(source.spec_bytes(), *node),
    ensures
        param_specs_view(r@) == params_of(source.spec_bytes(), *node),
{
    let ghost bytes = source.spec_bytes();
    let t = signature_target(node);
    proof {
        lemma_target_ok(bytes, *node);
    }
    let mut r: Vec<ParameterSpec> = Vec::new();
    let cs = &t.children;
    let i = find_field(cs, FieldName::Parameters);
    if i >= cs.len() {
        assert(param_specs_view(r@) =~= Seq::empty());
        return r;
    }
    proof {
        lemma_child_ok(bytes, cs@, cs@.len() as int, t.start as int, i as int);
    }
    let ps = &cs[i].children;
    let mut j: usize = 0;
    while j < ps.len()
        invariant
            j <= ps.len(),
            i < cs.len(),
            bytes == source.spec_bytes(),
            ps@ == cs@[i as int].children@,
            children_ok(bytes, ps@, ps@.len() as int, cs@[i as int].start as int),
            param_specs_view(r@) == param_views(bytes, ps@, j as int),
        decreases ps.len() - j,
    {
        proof {
            lemma_child_ok(bytes, ps@, ps@.len() as int, cs@[i as int].start as int, j as int);
        }
        let ghost before = r@;
        match get_param(source, &ps[j]) {
            Some(p) => {
                r.push(p);
                assert(param_specs_view(r@) =~= param_specs_view(before) + seq![
                    r@[r@.len() - 1].view(),
                ]);
            },
            None => {
                assert(param_specs_view(r@) =~= param_specs_view(before) + Seq::empty());
            },
        }
        j = j + 1;
    }
    r
}

/// The run of white space just before byte `start` on its line.
pub fn get_indentation(source: &str, start: usize) -> (r: String)
    requires
        start <= source.spec_bytes().len(),
        is_char_boundary(source.spec_bytes(), start as int),
    ensures
        r@ == indent_of(source.spec_bytes(), start as int),
{
    let ghost bytes = source.spec_bytes();
    let b = source.as_bytes();
    let mut j: usize = start;
    while j > 0 && b[j - 1] != 10u8
        invariant
            j <= start <= bytes.len(),
            b@ == bytes,
            line_start(bytes, j as int) == line_start(bytes, start as int),
        decreases j,
    {
        j = j - 1;
    }
    proof {
        lemma_after_newline_is_boundary(bytes, j as int);
    }
    let line = chars_of(slice(source, j, start));
    let mut k: usize = line.len();
    while k > 0 && is_space_char(line[k - 1])
        invariant
            k <= line.len(),
            space_run_start(line@, k as int) == space_run_start(line@, line.len() as int),
        decreases k,
    {
        k = k - 1;
    }
    string_of(&copy_range(&line, k, line.len()))
}

/// The byte after a line break is a character boundary.
pub proof fn lemma_after_newline_is_boundary(bytes: Seq<u8>, j: int)
    requires
        vstd::utf8::valid_utf8(bytes),
        0 <= j <= bytes.len(),
        j == 0 || bytes[j - 1] == 10u8,
    ensures
        is_char_boundary(bytes, j),
{
    broadcast use vstd::utf8::group_utf8_lib;

    if j > 0 && j < bytes.len() {
        vstd::utf8::is_char_boundary_iff_not_is_continuation_byte(bytes, j - 1);
        vstd::utf8::valid_utf8_split(bytes, j - 1);
        let tail = bytes.subrange(j - 1, bytes.len() as int);
        let rest = bytes.subrange(j, bytes.len() as int);
        assert(tail[0] == 10u8);
        assert(vstd::utf8::length_of_first_scalar(tail) == 1);
        assert(vstd::utf8::pop_first_scalar(tail) =~= rest);
        assert(vstd::utf8::valid_utf8(rest));
        assert(vstd::utf8::valid_first_scalar(rest));
        assert(rest[0] == bytes[j]);
        assert(!vstd::utf8::is_continuation_byte(bytes[j]));
        vstd::utf8::is_char_boundary_iff_not_is_continuation_byte(bytes, j);
    } else if j == bytes.len() {
        vstd::utf8::is_char_boundary_start_end_of_seq(bytes);
    }
}

} // verus!
