//! The syntax tree that the walker reads: node kinds, the field under which a
//! node hangs in its parent, byte spans and ordered children.
use vstd::prelude::*;
use vstd::utf8::is_char_boundary;
use vstd::string::StringSliceAdditionalSpecFns;
use crate::text::byte_len;

verus! {

broadcast use vstd::std_specs::vec::group_vec_axioms;

/// The node kinds that the walker and the signature reader tell apart.
#[derive(Clone, Copy, PartialEq, Eq, Structural, Debug)]
pub enum NodeKind {
    Comment,
    FunctionDeclaration,
    ExportStatement,
    ClassDeclaration,
    ClassBody,
    MethodDefinition,
    RequiredParameter,
    OptionalParameter,
    Identifier,
    PropertyIdentifier,
    TypeAnnotation,
    StringLiteral,
    Other,
}

/// The field under which a node hangs in its parent.
#[derive(Clone, Copy, PartialEq, Eq, Structural, Debug)]
pub enum FieldName {
    Parameters,
    ReturnType,
    Other,
}

/// A node of the syntax tree: its kind, its field in the parent, the byte
/// span `start..end` of its text, and its children in source order.
#[derive(Debug)]
pub struct SyntaxNode {
    pub kind: NodeKind,
    pub field: FieldName,
    pub start: usize,
    pub end: usize,
    pub children: Vec<SyntaxNode>,
}

/// Where the text before child `i` starts: `lo` for the first child, else
/// the end of the child before.
pub open spec fn prev_end(cs: Seq<SyntaxNode>, i: int, lo: int) -> int {
    if i <= 0 {
        lo
    } else {
        cs[i - 1].end as int
    }
}

/// The first `n` children are well formed and follow each other, the first
/// starting at or after `lo`.
pub open spec fn children_ok(bytes: Seq<u8>, cs: Seq<SyntaxNode>, n: int, lo: int) -> bool
    decreases cs, n,
{
    if n <= 0 || n > cs.len() {
        n == 0
    } else {
        &&& children_ok(bytes, cs, n - 1, lo)
        &&& node_ok(bytes, cs[n - 1])
        &&& prev_end(cs, n - 1, lo) <= cs[n - 1].start
    }
}

/// A node's span lies in `bytes` on character boundaries, and its children
/// are well formed, in order and inside the span.
pub open spec fn node_ok(bytes: Seq<u8>, node: SyntaxNode) -> bool
    decreases node, 0int,
{
    &&& node.start <= node.end <= bytes.len()
    &&& is_char_boundary(bytes, node.start as int)
    &&& is_char_boundary(bytes, node.end as int)
    &&& children_ok(bytes, node.children@, node.children@.len() as int, node.start as int)
    &&& prev_end(node.children@, node.children@.len() as int, node.start as int) <= node.end
}

/// A scope: children `cs` in order inside `lo..hi` of `bytes`.
pub open spec fn scope_ok(bytes: Seq<u8>, cs: Seq<SyntaxNode>, lo: int, hi: int) -> bool {
    &&& 0 <= lo <= hi <= bytes.len()
    &&& is_char_boundary(bytes, lo)
    &&& is_char_boundary(bytes, hi)
    &&& children_ok(bytes, cs, cs.len() as int, lo)
    &&& prev_end(cs, cs.len() as int, lo) <= hi
}

/// What `children_ok` says of child `i`.
pub proof fn lemma_child_ok(bytes: Seq<u8>, cs: Seq<SyntaxNode>, n: int, lo: int, i: int)
    requires
        children_ok(bytes, cs, n, lo),
        0 <= i < n,
    ensures
        node_ok(bytes, cs[i]),
        prev_end(cs, i, lo) <= cs[i].start,
        lo <= cs[i].start,
        cs[i].end <= prev_end(cs, n, lo),
    decreases n,
{
    assert(node_ok(bytes, cs[n - 1]));
    assert(cs[n - 1].start <= cs[n - 1].end);
    if i < n - 1 {
        lemma_child_ok(bytes, cs, n - 1, lo, i);
        lemma_child_ok(bytes, cs, n - 1, lo, n - 2);
    } else if n >= 2 {
        lemma_child_ok(bytes, cs, n - 1, lo, n - 2);
    }
}

/// Whether `node` is well formed over the text `source`.
pub fn check_node(source: &str, node: &SyntaxNode) -> (r: bool)
    ensures
        r == node_ok(source.spec_bytes(), *node),
    decreases node,
{
    let n = byte_len(source);
    if !(node.start <= node.end && node.end <= n) {
        return false;
    }
    if !source.is_char_boundary(node.start) || !source.is_char_boundary(node.end) {
        return false;
    }
    let ok = check_children(source, &node.children, node.start);
    if !ok {
        return false;
    }
    let count = node.children.len();
    count == 0 || node.children[count - 1].end <= node.end
}

/// Whether the children `cs` are well formed and in order, from `lo` on.
pub fn check_children(source: &str, cs: &Vec<SyntaxNode>, lo: usize) -> (r: bool)
    ensures
        r == children_ok(source.spec_bytes(), cs@, cs@.len() as int, lo as int),
    decreases cs,
{
    let mut i: usize = 0;
    let mut cursor: usize = lo;
    while i < cs.len()
        invariant
            i <= cs.len(),
            children_ok(source.spec_bytes(), cs@, i as int, lo as int),
            cursor == prev_end(cs@, i as int, lo as int),
        decreases cs.len() - i,
    {
        if !(cursor <= cs[i].start) || !check_node(source, &cs[i]) {
            proof {
                if children_ok(source.spec_bytes(), cs@, cs@.len() as int, lo as int) {
                    lemma_children_ok_prefix(
                        source.spec_bytes(),
                        cs@,
                        cs@.len() as int,
                        lo as int,
                        i + 1,
                    );
                }
            }
            return false;
        }
        cursor = cs[i].end;
        i = i + 1;
    }
    true
}

/// A prefix of well-formed children is well formed.
pub proof fn lemma_children_ok_prefix(bytes: Seq<u8>, cs: Seq<SyntaxNode>, n: int, lo: int, m: int)
    requires
        children_ok(bytes, cs, n, lo),
        0 <= m <= n,
    ensures
        children_ok(bytes, cs, m, lo),
    decreases n,
{
    if m < n {
        lemma_children_ok_prefix(bytes, cs, n - 1, lo, m);
    }
}

} // verus!
