//! The scope walker and splicer: copies the source text between the children
//! of a scope as it stands, and puts a generated doc block before each
//! declaration that has none.
use vstd::prelude::*;
use vstd::string::{StringExecFns, StringSliceAdditionalSpecFns};
use vstd::utf8::is_char_boundary;
use crate::comment::{description_of, harvest_comment, is_doc_block, CommentKind};
use crate::jsdoc::{
    closing, description_line, newline, opening, param_tag, returns_tag, space_line, tag_line,
    JsDoc,
};
use crate::signature::{
    first_kind, get_function_details_from_node, get_indentation, get_params, indent_of,
    name_of, node_str, node_text, param_specs_view, params_of, return_of,
    find_kind, lemma_first_kind_bounds, ParamView,
};
use crate::text::{byte_len, opt_chars, slice, text_of};
use crate::tree::{
    check_children, lemma_child_ok, node_ok, prev_end, scope_ok, NodeKind,
    SyntaxNode,
};

verus! {

broadcast use vstd::std_specs::vec::group_vec_axioms, vstd::utf8::group_utf8_lib;

/// The two kinds of scope: the top level of a program, and a class body.
#[derive(Clone, Copy, PartialEq, Eq, Structural, Debug)]
pub enum ScopeKind {
    Program,
    ClassBody,
}

/// How the walker treats a child of a scope.
#[derive(Clone, Copy, PartialEq, Eq, Structural, Debug)]
pub enum Role {
    Comment,
    Declaration,
    Nested,
    Other,
}

/// What the walker carries from one child to the next.
pub enum Carry {
    Idle,
    Holding(Seq<char>),
    Documented,
}

/// The carry as the walker holds it.
pub enum Pending {
    /// Nothing is carried.
    Idle,
    /// The description harvested from a plain comment just before.
    Holding(String),
    /// A doc block stood just before.
    Documented,
}

impl Pending {
    pub open spec fn view(&self) -> Carry {
        match self {
            Pending::Idle => Carry::Idle,
            Pending::Holding(d) => Carry::Holding(d@),
            Pending::Documented => Carry::Documented,
        }
    }
}

/// The role of a child in a scope.
pub open spec fn role_of(scope: ScopeKind, node: SyntaxNode) -> Role {
    let cs = node.children@;
    match node.kind {
        NodeKind::Comment => Role::Comment,
        NodeKind::ClassDeclaration => Role::Nested,
        NodeKind::FunctionDeclaration => if scope == ScopeKind::Program {
            Role::Declaration
        } else {
            Role::Other
        },
        NodeKind::ExportStatement => if scope == ScopeKind::Program && first_kind(
            cs,
            0,
            NodeKind::FunctionDeclaration,
        ) < cs.len() {
            Role::Declaration
        } else {
            Role::Other
        },
        NodeKind::MethodDefinition => if scope == ScopeKind::ClassBody {
            Role::Declaration
        } else {
            Role::Other
        },
        _ => Role::Other,
    }
}

/// The carry after a child: a doc block marks the next declaration as
/// documented, a plain comment hands on its description, anything else
/// clears the carry.
pub open spec fn carry_after(bytes: Seq<u8>, scope: ScopeKind, node: SyntaxNode) -> Carry {
    let c = node_text(bytes, node);
    if role_of(scope, node) == Role::Comment {
        if is_doc_block(c) {
            Carry::Documented
        } else {
            Carry::Holding(description_of(c))
        }
    } else {
        Carry::Idle
    }
}

/// The carry on reaching child `i`.
pub open spec fn carry_at(bytes: Seq<u8>, scope: ScopeKind, cs: Seq<SyntaxNode>, i: int) -> Carry {
    if i <= 0 {
        Carry::Idle
    } else {
        carry_after(bytes, scope, cs[i - 1])
    }
}

/// The parameter tag lines.
pub open spec fn params_text(indent: Seq<char>, ps: Seq<ParamView>) -> Seq<char>
    decreases ps.len(),
{
    if ps.len() == 0 {
        Seq::empty()
    } else {
        let p = ps.last();
        params_text(indent, ps.drop_last()) + tag_line(
            indent,
            param_tag(p.name, p.declared, p.optional, p.default, Seq::empty()),
        )
    }
}

/// The separator line, present when there are parameters.
pub open spec fn separator_text(indent: Seq<char>, ps: Seq<ParamView>) -> Seq<char> {
    if ps.len() > 0 {
        space_line(indent)
    } else {
        Seq::empty()
    }
}

/// The return tag line, present when there is a return type.
pub open spec fn returns_text(indent: Seq<char>, ret: Option<Seq<char>>) -> Seq<char> {
    match ret {
        Some(r) => tag_line(indent, returns_tag(r, Seq::empty())),
        None => Seq::empty(),
    }
}

/// A whole generated doc block.
pub open spec fn block_text(
    indent: Seq<char>,
    description: Seq<char>,
    ps: Seq<ParamView>,
    ret: Option<Seq<char>>,
) -> Seq<char> {
    opening() + description_line(indent, description) + separator_text(indent, ps) + params_text(
        indent,
        ps,
    ) + returns_text(indent, ret) + closing(indent)
}

/// A declaration with its generated block before it.
pub open spec fn decl_text(bytes: Seq<u8>, node: SyntaxNode, description: Seq<char>) -> Seq<char> {
    let indent = indent_of(bytes, node.start as int);
    block_text(indent, description, params_of(bytes, node), return_of(bytes, node)) + newline()
        + indent
        + node_text(bytes, node)
}

/// What the walker emits for a child, given the carry on reaching it.
pub open spec fn piece(bytes: Seq<u8>, scope: ScopeKind, node: SyntaxNode, carry: Carry) -> Seq<
    char,
>
    decreases node, 1int,
{
    let c = node_text(bytes, node);
    match role_of(scope, node) {
        Role::Comment => if is_doc_block(c) {
            c
        } else {
            Seq::empty()
        },
        Role::Declaration => match carry {
            Carry::Documented => c,
            Carry::Holding(d) => decl_text(bytes, node, d),
            Carry::Idle => decl_text(bytes, node, name_of(bytes, node)),
        },
        Role::Nested => class_text(bytes, node),
        Role::Other => c,
    }
}

/// A class declaration with its body walked.
pub open spec fn class_text(bytes: Seq<u8>, node: SyntaxNode) -> Seq<char>
    decreases node, 0int,
{
    let cs = node.children@;
    let k = first_kind(cs, 0, NodeKind::ClassBody);
    if 0 <= k < cs.len() {
        text_of(bytes, node.start as int, cs[k].start as int) + scope_text(
            bytes,
            ScopeKind::ClassBody,
            cs[k].children@,
            cs[k].start as int,
            cs[k].end as int,
        ) + text_of(bytes, cs[k].end as int, node.end as int)
    } else {
        node_text(bytes, node)
    }
}

/// The output for the first `n` children of a scope: each child's gap and
/// piece in turn.
pub open spec fn scope_out(
    bytes: Seq<u8>,
    scope: ScopeKind,
    cs: Seq<SyntaxNode>,
    lo: int,
    n: int,
) -> Seq<char>
    decreases cs, n,
{
    if n <= 0 || n > cs.len() {
        Seq::empty()
    } else {
        scope_out(bytes, scope, cs, lo, n - 1) + text_of(bytes, prev_end(cs, n - 1, lo), cs[n
            - 1].start as int) + piece(bytes, scope, cs[n - 1], carry_at(bytes, scope, cs, n - 1))
    }
}

/// The output for a whole scope `lo..hi`: its children, then the text after
/// the last one.
pub open spec fn scope_text(
    bytes: Seq<u8>,
    scope: ScopeKind,
    cs: Seq<SyntaxNode>,
    lo: int,
    hi: int,
) -> Seq<char>
    decreases cs, cs.len() + 1,
{
    scope_out(bytes, scope, cs, lo, cs.len() as int) + text_of(
        bytes,
        prev_end(cs, cs.len() as int, lo),
        hi,
    )
}

/// The output for a whole document whose top-level nodes are `cs`.
pub open spec fn document_text(bytes: Seq<u8>, cs: Seq<SyntaxNode>) -> Seq<char> {
    scope_text(bytes, ScopeKind::Program, cs, 0, bytes.len() as int)
}

/// The role of a child in a scope.
pub fn role(scope: ScopeKind, node: &SyntaxNode) -> (r: Role)
    ensures
        r == role_of(scope, *node),
{
    match node.kind {
        NodeKind::Comment => Role::Comment,
        NodeKind::ClassDeclaration => Role::Nested,
        NodeKind::FunctionDeclaration => if scope == ScopeKind::Program {
            Role::Declaration
        } else {
            Role::Other
        },
        NodeKind::ExportStatement => {
            let i = find_kind(&node.children, NodeKind::FunctionDeclaration);
            if scope == ScopeKind::Program && i < node.children.len() {
                Role::Declaration
            } else {
                Role::Other
            }
        },
        NodeKind::MethodDefinition => if scope == ScopeKind::ClassBody {
            Role::Declaration
        } else {
            Role::Other
        },
        _ => Role::Other,
    }
}

/// Emits a declaration with a generated block before it, described by
/// `comment` when a plain comment preceded it, else by its name.
pub fn process_functions(
    source: &str,
    node: &SyntaxNode,
    comment: &Option<String>,
    out: &mut String,
)
    requires
        node_ok(source.spec_bytes(), *node),
    ensures
        final(out)@ == old(out)@ + decl_text(
            source.spec_bytes(),
            *node,
            match comment {
                Some(d) => d@,
                None => name_of(source.spec_bytes(), *node),
            },
        ),
{
    let ghost bytes = source.spec_bytes();
    proof {
        reveal_strlit("");
        reveal_strlit("\n");
    }
    let indent = get_indentation(source, node.start);
    let info = get_function_details_from_node(source, node);
    let ghost description = match comment {
        Some(d) => d@,
        None => name_of(bytes, *node),
    };
    let mut doc = JsDoc::new(indent.as_str());
    match comment {
        Some(d) => {
            doc.add_description(d.as_str());
        },
        None => {
            doc.add_description(info.function_name.as_str());
        },
    }
    let params = get_params(source, node);
    let ghost ps = param_specs_view(params@);
    if params.len() > 0 {
        doc.add_space();
    }
    let ghost head = opening() + description_line(indent@, description) + separator_text(
        indent@,
        ps,
    );
    assert(doc.formatted() =~= head + params_text(indent@, ps.take(0)));
    let mut k: usize = 0;
    while k < params.len()
        invariant
            k <= params.len(),
            ps == param_specs_view(params@),
            doc.indentation() == indent@,
            doc.formatted() == head + params_text(indent@, ps.take(k as int)),
        decreases params.len() - k,
    {
        let p = &params[k];
        let declared = match &p.declared_type {
            Some(t) => Some(t.clone()),
            None => None,
        };
        let default = match &p.default_literal {
            Some(d) => Some(d.clone()),
            None => None,
        };
        assert(opt_chars(declared) == ps[k as int].declared);
        assert(opt_chars(default) == ps[k as int].default);
        proof {
            reveal_strlit("");
        }
        assert(""@ =~= Seq::<char>::empty());
        doc.add_param(p.name.as_str(), declared, p.optional, default, "");
        assert(ps.take(k + 1).drop_last() =~= ps.take(k as int));
        assert(ps.take(k + 1).last() == ps[k as int]);
        k = k + 1;
    }
    assert(ps.take(params.len() as int) =~= ps);
    match &info.return_type {
        Some(r) => {
            doc.add_return(r.as_str(), "");
        },
        None => {},
    }
    let block = doc.build();
    assert(block@ =~= block_text(indent@, description, ps, return_of(bytes, *node)));
    out.append(block.as_str());
    out.append("\n");
    out.append(indent.as_str());
    out.append(node_str(source, node));
}

/// Walks a scope: the children `cs` inside `lo..hi` of the source.
pub fn walk_scope(
    source: &str,
    scope: ScopeKind,
    cs: &Vec<SyntaxNode>,
    lo: usize,
    hi: usize,
    out: &mut String,
)
    requires
        scope_ok(source.spec_bytes(), cs@, lo as int, hi as int),
    ensures
        final(out)@ == old(out)@ + scope_text(source.spec_bytes(), scope, cs@, lo as int, hi as int),
    decreases cs,
{
    let ghost bytes = source.spec_bytes();
    let mut pending = Pending::Idle;
    let mut cursor: usize = lo;
    let mut i: usize = 0;
    while i < cs.len()
        invariant
            bytes == source.spec_bytes(),
            scope_ok(bytes, cs@, lo as int, hi as int),
            i <= cs.len(),
            cursor == prev_end(cs@, i as int, lo as int),
            is_char_boundary(bytes, cursor as int),
            cursor <= bytes.len(),
            pending@ == carry_at(bytes, scope, cs@, i as int),
            out@ == old(out)@ + scope_out(bytes, scope, cs@, lo as int, i as int),
        decreases cs.len() - i,
    {
        let c = &cs[i];
        proof {
            lemma_child_ok(bytes, cs@, cs@.len() as int, lo as int, i as int);
        }
        out.append(slice(source, cursor, c.start));
        let ghost before = out@;
        let ghost carry = pending@;
        match role(scope, c) {
            Role::Comment => {
                let t = node_str(source, c);
                match harvest_comment(t) {
                    CommentKind::AlreadyFormatted => {
                        out.append(t);
                        pending = Pending::Documented;
                    },
                    CommentKind::PlainDescription(d) => {
                        pending = Pending::Holding(d);
                    },
                }
            },
            Role::Declaration => {
                match pending {
                    Pending::Documented => {
                        out.append(node_str(source, c));
                    },
                    Pending::Holding(d) => {
                        process_functions(source, c, &Some(d), out);
                    },
                    Pending::Idle => {
                        process_functions(source, c, &None, out);
                    },
                }
                pending = Pending::Idle;
            },
            Role::Nested => {
                process_class_declaration(source, c, out);
                pending = Pending::Idle;
            },
            Role::Other => {
                out.append(node_str(source, c));
                pending = Pending::Idle;
            },
        }
        assert(out@ =~= before + piece(bytes, scope, cs@[i as int], carry));
        cursor = c.end;
        i = i + 1;
    }
    out.append(slice(source, cursor, hi));
}

/// Emits a class declaration with its body walked as a scope of its own.
pub fn process_class_declaration(source: &str, node: &SyntaxNode, out: &mut String)
    requires
        node_ok(source.spec_bytes(), *node),
    ensures
        final(out)@ == old(out)@ + class_text(source.spec_bytes(), *node),
    decreases node,
{
    let ghost bytes = source.spec_bytes();
    let cs = &node.children;
    let k = find_kind(cs, NodeKind::ClassBody);
    proof {
        lemma_first_kind_bounds(cs@, 0, NodeKind::ClassBody);
    }
    if k < cs.len() {
        let body = &cs[k];
        proof {
            lemma_child_ok(bytes, cs@, cs@.len() as int, node.start as int, k as int);
        }
        out.append(slice(source, node.start, body.start));
        walk_scope(source, ScopeKind::ClassBody, &body.children, body.start, body.end, out);
        out.append(slice(source, body.end, node.end));
    } else {
        out.append(node_str(source, node));
    }
}

/// The whole document, with the top-level nodes `cs` walked as the program
/// scope over all of `source`.
pub fn walk(cs: &Vec<SyntaxNode>, source: &str) -> (r: String)
    requires
        scope_ok(source.spec_bytes(), cs@, 0, source.spec_bytes().len() as int),
    ensures
        r@ == document_text(source.spec_bytes(), cs@),
{
    let mut out = String::new();
    walk_scope(source, ScopeKind::Program, cs, 0, byte_len(source), &mut out);
    out
}

/// The whole document for the syntax tree `root` of `source`, or `None` when
/// the tree does not fit the source: its top-level nodes must lie in order
/// inside the text, each on character boundaries and well formed.
pub fn document(source: &str, root: &SyntaxNode) -> (r: Option<String>)
    ensures
        match r {
            Some(s) => scope_ok(
                source.spec_bytes(),
                root.children@,
                0,
                source.spec_bytes().len() as int,
            ) && s@ == document_text(source.spec_bytes(), root.children@),
            None => !scope_ok(
                source.spec_bytes(),
                root.children@,
                0,
                source.spec_bytes().len() as int,
            ),
        },
{
    let n = byte_len(source);
    let cs = &root.children;
    if !check_children(source, cs, 0) {
        return None;
    }
    let count = cs.len();
    if count > 0 && cs[count - 1].end > n {
        return None;
    }
    proof {
        vstd::utf8::is_char_boundary_start_end_of_seq(source.spec_bytes());
    }
    Some(walk(cs, source))
}

} // verus!
