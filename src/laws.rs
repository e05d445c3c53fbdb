//! Properties of the generated output, proved over the specification of the
//! walker and of the doc block builder.
use vstd::prelude::*;
use vstd::string::StringSliceAdditionalSpecFns;
use vstd::utf8::{is_char_boundary, valid_utf8};
use crate::comment::{description_of, is_doc_block};
use crate::jsdoc::{
    closing, description_line, newline, opening, param_tag, rendered_name, returns_tag, tag_line,
    type_text, unknown,
};
use crate::signature::{
    annotation_text, first_kind, indent_of, lemma_first_kind_bounds, name_of, node_text,
    param_of, params_of, return_of, ParamView,
};
use crate::text::{lemma_text_concat, text_of};
use crate::tree::{children_ok, lemma_child_ok, node_ok, prev_end, scope_ok, NodeKind, SyntaxNode};
use crate::walker::{
    block_text, carry_at, class_text, decl_text, document_text, params_text, piece, role_of,
    scope_out, separator_text, Carry, Role, ScopeKind,
};

verus! {

broadcast use vstd::utf8::group_utf8_lib;

/// Every comment among the first `n` children is a doc block, every
/// declaration stands right after one, and nested class bodies are alike.
pub open spec fn scope_documented(bytes: Seq<u8>, scope: ScopeKind, cs: Seq<SyntaxNode>, n: int) -> bool
    decreases cs, n,
{
    if n <= 0 || n > cs.len() {
        n == 0
    } else {
        let c = cs[n - 1];
        &&& scope_documented(bytes, scope, cs, n - 1)
        &&& match role_of(scope, c) {
            Role::Comment => is_doc_block(node_text(bytes, c)),
            Role::Declaration => carry_at(bytes, scope, cs, n - 1) == Carry::Documented,
            Role::Nested => class_documented(bytes, c),
            Role::Other => true,
        }
    }
}

/// The body of a class, if it has one, is documented throughout.
pub open spec fn class_documented(bytes: Seq<u8>, node: SyntaxNode) -> bool
    decreases node, 0int,
{
    let cs = node.children@;
    let k = first_kind(cs, 0, NodeKind::ClassBody);
    if 0 <= k < cs.len() {
        scope_documented(bytes, ScopeKind::ClassBody, cs[k].children@, cs[k].children@.len() as int)
    } else {
        true
    }
}

proof fn lemma_scope_kept(bytes: Seq<u8>, scope: ScopeKind, cs: Seq<SyntaxNode>, lo: int, n: int)
    requires
        valid_utf8(bytes),
        0 <= lo <= bytes.len(),
        is_char_boundary(bytes, lo),
        children_ok(bytes, cs, cs.len() as int, lo),
        0 <= n <= cs.len(),
        scope_documented(bytes, scope, cs, n),
    ensures
        scope_out(bytes, scope, cs, lo, n) == text_of(bytes, lo, prev_end(cs, n, lo)),
        lo <= prev_end(cs, n, lo) <= bytes.len(),
        is_char_boundary(bytes, prev_end(cs, n, lo)),
    decreases cs, n,
{
    if n == 0 {
        assert(bytes.subrange(lo, lo) =~= Seq::<u8>::empty());
    } else {
        lemma_scope_kept(bytes, scope, cs, lo, n - 1);
        lemma_child_ok(bytes, cs, cs.len() as int, lo, n - 1);
        let c = cs[n - 1];
        let p = prev_end(cs, n - 1, lo);
        assert(piece(bytes, scope, c, carry_at(bytes, scope, cs, n - 1)) == node_text(bytes, c)) by {
            if role_of(scope, c) == Role::Nested {
                lemma_class_kept(bytes, c);
            }
        }
        lemma_text_concat(bytes, lo, p, c.start as int);
        lemma_text_concat(bytes, lo, c.start as int, c.end as int);
    }
}

proof fn lemma_class_kept(bytes: Seq<u8>, node: SyntaxNode)
    requires
        valid_utf8(bytes),
        node_ok(bytes, node),
        class_documented(bytes, node),
    ensures
        class_text(bytes, node) == node_text(bytes, node),
    decreases node, 0int,
{
    let cs = node.children@;
    let k = first_kind(cs, 0, NodeKind::ClassBody);
    lemma_first_kind_bounds(cs, 0, NodeKind::ClassBody);
    if k < cs.len() {
        lemma_child_ok(bytes, cs, cs.len() as int, node.start as int, k);
        let body = cs[k];
        let inner = body.children@;
        lemma_scope_kept(bytes, ScopeKind::ClassBody, inner, body.start as int, inner.len() as int);
        let p = prev_end(inner, inner.len() as int, body.start as int);
        lemma_text_concat(bytes, body.start as int, p, body.end as int);
        lemma_text_concat(bytes, node.start as int, body.start as int, body.end as int);
        lemma_text_concat(bytes, node.start as int, body.end as int, node.end as int);
    }
}

/// A text in which every comment is already a doc block and every
/// declaration already stands right under one is left exactly as it is:
/// such a text is a fixed point of the transformation.
pub proof fn law_documented_text_is_kept(source: &str, cs: Seq<SyntaxNode>)
    requires
        scope_ok(source.spec_bytes(), cs, 0, source.spec_bytes().len() as int),
        scope_documented(source.spec_bytes(), ScopeKind::Program, cs, cs.len() as int),
    ensures
        document_text(source.spec_bytes(), cs) == source@,
{
    let bytes = source.spec_bytes();
    lemma_scope_kept(bytes, ScopeKind::Program, cs, 0, cs.len() as int);
    lemma_text_concat(bytes, 0, prev_end(cs, cs.len() as int, 0), bytes.len() as int);
    assert(bytes.subrange(0, bytes.len() as int) =~= bytes);
}

/// The opening marker and the description line begin a declaration's block.
pub proof fn lemma_block_begins_with_description(bytes: Seq<u8>, node: SyntaxNode, d: Seq<char>)
    ensures
        decl_text(bytes, node, d).subrange(
            0,
            (opening() + description_line(indent_of(bytes, node.start as int), d)).len() as int,
        ) == opening() + description_line(indent_of(bytes, node.start as int), d),
{
    let head = opening() + description_line(indent_of(bytes, node.start as int), d);
    assert(decl_text(bytes, node, d).subrange(0, head.len() as int) =~= head);
}

/// A declaration with no comment right before it gets a block whose
/// description line is the declaration's name.
pub proof fn law_description_is_name(bytes: Seq<u8>, scope: ScopeKind, cs: Seq<SyntaxNode>, i: int)
    requires
        0 <= i < cs.len(),
        role_of(scope, cs[i]) == Role::Declaration,
        i == 0 || role_of(scope, cs[i - 1]) != Role::Comment,
    ensures
        piece(bytes, scope, cs[i], carry_at(bytes, scope, cs, i)) == decl_text(
            bytes,
            cs[i],
            name_of(bytes, cs[i]),
        ),
        decl_text(bytes, cs[i], name_of(bytes, cs[i])).subrange(
            0,
            (opening() + description_line(
                indent_of(bytes, cs[i].start as int),
                name_of(bytes, cs[i]),
            )).len() as int,
        ) == opening() + description_line(
            indent_of(bytes, cs[i].start as int),
            name_of(bytes, cs[i]),
        ),
{
    lemma_block_begins_with_description(bytes, cs[i], name_of(bytes, cs[i]));
}

/// A plain comment right before a declaration is folded into that
/// declaration's block as its description, whatever text (blank lines
/// included) lies between them; the comment itself is not copied.
pub proof fn law_plain_comment_is_folded(bytes: Seq<u8>, scope: ScopeKind, cs: Seq<SyntaxNode>, i: int)
    requires
        0 < i < cs.len(),
        role_of(scope, cs[i - 1]) == Role::Comment,
        !is_doc_block(node_text(bytes, cs[i - 1])),
        role_of(scope, cs[i]) == Role::Declaration,
    ensures
        piece(bytes, scope, cs[i - 1], carry_at(bytes, scope, cs, i - 1)) == Seq::<char>::empty(),
        piece(bytes, scope, cs[i], carry_at(bytes, scope, cs, i)) == decl_text(
            bytes,
            cs[i],
            description_of(node_text(bytes, cs[i - 1])),
        ),
{
}

/// Parameter lines of a concatenation of parameter lists.
pub proof fn lemma_params_text_append(indent: Seq<char>, a: Seq<ParamView>, b: Seq<ParamView>)
    ensures
        params_text(indent, a + b) == params_text(indent, a) + params_text(indent, b),
    decreases b.len(),
{
    if b.len() == 0 {
        assert(a + b =~= a);
    } else {
        lemma_params_text_append(indent, a, b.drop_last());
        assert((a + b).drop_last() =~= a + b.drop_last());
    }
}

/// The line that parameter `j` gets, between the lines of the parameters
/// before and after it.
pub open spec fn param_line(indent: Seq<char>, p: ParamView) -> Seq<char> {
    tag_line(indent, param_tag(p.name, p.declared, p.optional, p.default, Seq::empty()))
}

/// Each parameter gets one line, in the order of the list.
pub proof fn law_one_line_per_param(indent: Seq<char>, ps: Seq<ParamView>, j: int)
    requires
        0 <= j < ps.len(),
    ensures
        params_text(indent, ps) == params_text(indent, ps.take(j)) + param_line(indent, ps[j])
            + params_text(indent, ps.skip(j + 1)),
{
    lemma_params_text_append(indent, ps.take(j + 1), ps.skip(j + 1));
    assert(ps.take(j + 1) + ps.skip(j + 1) =~= ps);
    assert(ps.take(j + 1).drop_last() =~= ps.take(j));
}

/// `@param {`
pub open spec fn param_prefix() -> Seq<char> {
    seq!['@', 'p', 'a', 'r', 'a', 'm', ' ', '{']
}

/// A required parameter with declared type `T` and no default is tagged
/// `@param {T} name - `.
pub proof fn law_required_param(p: ParamView, t: Seq<char>)
    requires
        !p.optional,
        p.declared == Some(t),
        p.default is None,
    ensures
        param_tag(p.name, p.declared, p.optional, p.default, Seq::empty()) == param_prefix() + t
            + seq!['}', ' '] + p.name + seq![' ', '-', ' '],
{
    assert(param_tag(p.name, p.declared, p.optional, p.default, Seq::empty()) =~= param_prefix()
        + t + seq!['}', ' '] + p.name + seq![' ', '-', ' ']);
}

/// An optional parameter without a default shows its name as `[name]`.
pub proof fn law_optional_param(p: ParamView)
    requires
        p.optional,
        p.default is None,
    ensures
        param_tag(p.name, p.declared, p.optional, p.default, Seq::empty()) == param_prefix()
            + type_text(p.declared) + seq!['}', ' ', '['] + p.name + seq![']', ' ', '-', ' '],
{
    assert(param_tag(p.name, p.declared, p.optional, p.default, Seq::empty()) =~= param_prefix()
        + type_text(p.declared) + seq!['}', ' ', '['] + p.name + seq![']', ' ', '-', ' ']);
}

/// An optional parameter with the string default `D` shows its name as
/// `[name="D"]`.
pub proof fn law_optional_param_with_default(p: ParamView, d: Seq<char>)
    requires
        p.optional,
        p.default == Some(d),
    ensures
        param_tag(p.name, p.declared, p.optional, p.default, Seq::empty()) == param_prefix()
            + type_text(p.declared) + seq!['}', ' ', '['] + p.name + seq!['=', '"'] + d + seq![
            '"',
            ']',
            ' ',
            '-',
            ' ',
        ],
{
    assert(param_tag(p.name, p.declared, p.optional, p.default, Seq::empty()) =~= param_prefix()
        + type_text(p.declared) + seq!['}', ' ', '['] + p.name + seq!['=', '"'] + d + seq![
        '"',
        ']',
        ' ',
        '-',
        ' ',
    ]);
}

/// A parameter without a type annotation is shown with the type `unknown`.
pub proof fn law_untyped_param(p: ParamView)
    requires
        p.declared is None,
    ensures
        param_tag(p.name, p.declared, p.optional, p.default, Seq::empty()) == param_prefix()
            + unknown() + seq!['}', ' '] + rendered_name(p.name, p.optional, p.default) + seq![
            ' ',
            '-',
            ' ',
        ],
{
    assert(param_tag(p.name, p.declared, p.optional, p.default, Seq::empty()) =~= param_prefix()
        + unknown() + seq!['}', ' '] + rendered_name(p.name, p.optional, p.default) + seq![
        ' ',
        '-',
        ' ',
    ]);
}

/// A block up to its return line: opening, description, separator and
/// parameter lines.
pub open spec fn block_head(indent: Seq<char>, d: Seq<char>, ps: Seq<ParamView>) -> Seq<char> {
    opening() + description_line(indent, d) + separator_text(indent, ps) + params_text(indent, ps)
}

/// With a return type `R` the block holds exactly one return line,
/// `@returns {R} `, just before its closing marker; without one it holds
/// none.
pub proof fn law_return_line(indent: Seq<char>, d: Seq<char>, ps: Seq<ParamView>, r: Seq<char>)
    ensures
        block_text(indent, d, ps, Some(r)) == block_head(indent, d, ps) + tag_line(
            indent,
            seq!['@', 'r', 'e', 't', 'u', 'r', 'n', 's', ' ', '{'] + r + seq!['}', ' '],
        ) + closing(indent),
        block_text(indent, d, ps, None) == block_head(indent, d, ps) + closing(indent),
{
    assert(returns_tag(r, Seq::empty()) =~= seq!['@', 'r', 'e', 't', 'u', 'r', 'n', 's', ' ', '{']
        + r + seq!['}', ' ']);
    assert(block_text(indent, d, ps, None) =~= block_head(indent, d, ps) + closing(indent));
}

/// A declaration right under a doc block is copied as it stands, and so is
/// the doc block, outdated tags included: no block is generated for it.
pub proof fn law_doc_block_keeps_declaration(
    bytes: Seq<u8>,
    scope: ScopeKind,
    cs: Seq<SyntaxNode>,
    i: int,
)
    requires
        0 < i < cs.len(),
        role_of(scope, cs[i - 1]) == Role::Comment,
        is_doc_block(node_text(bytes, cs[i - 1])),
        role_of(scope, cs[i]) == Role::Declaration,
    ensures
        piece(bytes, scope, cs[i - 1], carry_at(bytes, scope, cs, i - 1)) == node_text(
            bytes,
            cs[i - 1],
        ),
        piece(bytes, scope, cs[i], carry_at(bytes, scope, cs, i)) == node_text(bytes, cs[i]),
{
}

/// A declaration whose signature carries a return-type annotation `R` gets
/// exactly one return line, `@returns {R} `, just before the closing marker
/// of its block; one without the annotation gets none.
pub proof fn law_declaration_return_line(bytes: Seq<u8>, node: SyntaxNode, d: Seq<char>)
    ensures
        ({
            let indent = indent_of(bytes, node.start as int);
            let head = block_head(indent, d, params_of(bytes, node));
            let tail = newline() + indent + node_text(bytes, node);
            match return_of(bytes, node) {
                Some(r) => decl_text(bytes, node, d) == head + tag_line(
                    indent,
                    seq!['@', 'r', 'e', 't', 'u', 'r', 'n', 's', ' ', '{'] + r + seq!['}', ' '],
                ) + closing(indent) + tail,
                None => decl_text(bytes, node, d) == head + closing(indent) + tail,
            }
        }),
{
    let indent = indent_of(bytes, node.start as int);
    match return_of(bytes, node) {
        Some(r) => law_return_line(indent, d, params_of(bytes, node), r),
        None => law_return_line(indent, d, params_of(bytes, node), Seq::empty()),
    }
}

/// A required parameter node with name `n`, type annotation `: T` and no
/// string default gets the line `@param {T} n - `.
pub proof fn law_required_param_node(bytes: Seq<u8>, p: SyntaxNode, indent: Seq<char>)
    requires
        p.kind == NodeKind::RequiredParameter,
        first_kind(p.children@, 0, NodeKind::Identifier) < p.children@.len(),
        first_kind(p.children@, 0, NodeKind::TypeAnnotation) < p.children@.len(),
        first_kind(p.children@, 0, NodeKind::StringLiteral) >= p.children@.len(),
    ensures
        ({
            let cs = p.children@;
            let n = node_text(bytes, cs[first_kind(cs, 0, NodeKind::Identifier)]);
            let t = annotation_text(
                node_text(bytes, cs[first_kind(cs, 0, NodeKind::TypeAnnotation)]),
            );
            &&& param_of(bytes, p) is Some
            &&& param_line(indent, param_of(bytes, p)->0) == tag_line(
                indent,
                param_prefix() + t + seq!['}', ' '] + n + seq![' ', '-', ' '],
            )
        }),
{
    let cs = p.children@;
    let t = annotation_text(node_text(bytes, cs[first_kind(cs, 0, NodeKind::TypeAnnotation)]));
    law_required_param(param_of(bytes, p)->0, t);
}

/// An optional parameter node with name `n` and no string default shows
/// its name as `[n]`.
pub proof fn law_optional_param_node(bytes: Seq<u8>, p: SyntaxNode, indent: Seq<char>)
    requires
        p.kind == NodeKind::OptionalParameter,
        first_kind(p.children@, 0, NodeKind::Identifier) < p.children@.len(),
        first_kind(p.children@, 0, NodeKind::StringLiteral) >= p.children@.len(),
    ensures
        ({
            let cs = p.children@;
            let n = node_text(bytes, cs[first_kind(cs, 0, NodeKind::Identifier)]);
            let v = param_of(bytes, p)->0;
            &&& param_of(bytes, p) is Some
            &&& param_line(indent, v) == tag_line(
                indent,
                param_prefix() + type_text(v.declared) + seq!['}', ' ', '['] + n + seq![
                    ']',
                    ' ',
                    '-',
                    ' ',
                ],
            )
        }),
{
    law_optional_param(param_of(bytes, p)->0);
}

/// A parameter node without a type annotation is shown with the type
/// `unknown`.
pub proof fn law_untyped_param_node(bytes: Seq<u8>, p: SyntaxNode, indent: Seq<char>)
    requires
        p.kind == NodeKind::RequiredParameter || p.kind == NodeKind::OptionalParameter,
        first_kind(p.children@, 0, NodeKind::Identifier) < p.children@.len(),
        first_kind(p.children@, 0, NodeKind::TypeAnnotation) >= p.children@.len(),
    ensures
        ({
            let v = param_of(bytes, p)->0;
            &&& param_of(bytes, p) is Some
            &&& param_line(indent, v) == tag_line(
                indent,
                param_prefix() + unknown() + seq!['}', ' '] + rendered_name(
                    v.name,
                    v.optional,
                    v.default,
                ) + seq![' ', '-', ' '],
            )
        }),
{
    law_untyped_param(param_of(bytes, p)->0);
}

} // verus!
