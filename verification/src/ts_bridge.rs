//! Parsing with tree-sitter, and copying its tree into a `SyntaxNode` tree.
//!
//! A tree-sitter tree or node is an opaque handle into the parser's C data.
//! What it holds is named here: `tree_of` for a whole tree, `node_tree` for
//! the subtree at a node, and `tree_source` / `node_source` for the text it
//! was parsed from. The accessors are stated over those names, and the
//! verified copy is proved to agree with them node by node.
use vstd::prelude::*;
use tree_sitter::{Node, Tree};
use crate::model::smell::opt_view;
use crate::syntax::{agrees, lemma_within_size, node_size, within_depth, SyntaxNode};

verus! {

#[verifier::external_type_specification]
#[verifier::external_body]
pub struct ExTsTree(Tree);

#[verifier::external_type_specification]
#[verifier::external_body]
pub struct ExTsNode<'a>(Node<'a>);

/// The tree tree-sitter's Python grammar builds for `source`, when it builds one.
pub uninterp spec fn python_tree_of(source: Seq<char>) -> Option<SyntaxNode>;

/// The tree tree-sitter's Swift grammar builds for `source`, when it builds one.
pub uninterp spec fn swift_tree_of(source: Seq<char>) -> Option<SyntaxNode>;

/// What a tree-sitter tree holds: its root and every node below it, each
/// node's text taken from the source the tree was parsed from.
pub uninterp spec fn tree_of(t: Tree) -> SyntaxNode;

/// The source text a tree-sitter tree was parsed from.
pub uninterp spec fn tree_source(t: Tree) -> Seq<char>;

/// What a tree-sitter node holds: the subtree rooted at it, the node held
/// under the field its parent gives it.
pub uninterp spec fn node_tree(n: Node) -> SyntaxNode;

/// The source text the tree of a tree-sitter node was parsed from.
pub uninterp spec fn node_source(n: Node) -> Seq<char>;

/// The grammars the detector parses with tree-sitter.
pub enum Grammar {
    Python,
    Swift,
}

/// The tree `grammar` builds for `source`, when it builds one.
pub open spec fn grammar_tree(grammar: Grammar, source: Seq<char>) -> Option<SyntaxNode> {
    match grammar {
        Grammar::Python => python_tree_of(source),
        Grammar::Swift => swift_tree_of(source),
    }
}

/// `tree_sitter::Parser::parse` of `source`, with no earlier tree, by a new
/// parser (`Parser::new`) set (`Parser::set_language`) to the
/// tree-sitter-python or tree-sitter-swift grammar. Both grammars are of an
/// ABI version (14 and 15) within what this tree-sitter accepts (13 to 15), so
/// the grammar is always set; with a grammar set and neither a timeout nor a
/// cancellation flag, `parse` always gives a tree. Claims that a tree comes
/// back, that it is the tree the grammar builds for `source`, and that it was
/// parsed from `source`.
#[verifier::external_body]
fn ts_parse(grammar: Grammar, source: &str) -> (r: Option<Tree>)
    ensures
        r is Some,
        grammar is Python ==> (r is Some <==> python_tree_of(source@) is Some),
        grammar is Swift ==> (r is Some <==> swift_tree_of(source@) is Some),
        r matches Some(t) ==> tree_source(t) == source@ && (grammar is Python ==> python_tree_of(source@)
            == Some(tree_of(t))) && (grammar is Swift ==> swift_tree_of(source@) == Some(tree_of(t))),
{
    let language = match grammar {
        Grammar::Python => tree_sitter_python::LANGUAGE,
        Grammar::Swift => tree_sitter_swift::LANGUAGE,
    };
    let mut p = tree_sitter::Parser::new();
    p.set_language(&language.into()).ok()?;
    p.parse(source, None)
}

/// `Tree::root_node`. Claims the node holds the whole tree, under no field,
/// parsed from the tree's source.
#[verifier::external_body]
fn ts_root<'a>(t: &'a Tree) -> (r: Node<'a>)
    ensures
        node_tree(r) == tree_of(*t),
        node_tree(r).field is None,
        node_source(r) == tree_source(*t),
{
    t.root_node()
}

/// `Node::kind`. Claims it is the kind of the node's subtree.
#[verifier::external_body]
fn ts_kind(n: &Node) -> (r: String)
    ensures
        r@ == node_tree(*n).kind@,
{
    n.kind().to_string()
}

/// `Node::is_named`. Claims it is the node's flag.
#[verifier::external_body]
fn ts_is_named(n: &Node) -> (r: bool)
    ensures
        r == node_tree(*n).is_named,
{
    n.is_named()
}

/// `Node::child_count`. Claims it is the number of the node's children,
/// which tree-sitter counts in a `u32`.
#[verifier::external_body]
fn ts_child_count(n: &Node) -> (r: usize)
    ensures
        r == node_tree(*n).children@.len(),
        r <= u32::MAX,
{
    n.child_count()
}

/// `Node::child`. Claims that for an index below the child count it gives
/// the node holding that child, parsed from the same source.
#[verifier::external_body]
fn ts_child<'a>(n: &Node<'a>, i: usize) -> (r: Option<Node<'a>>)
    ensures
        i < node_tree(*n).children@.len() ==> r is Some,
        r matches Some(c) ==> node_source(c) == node_source(*n) && (i < node_tree(*n).children@.len()
            ==> node_tree(c) == node_tree(*n).children@[i as int]),
{
    n.child(i)
}

/// `Node::field_name_for_child`. Claims that for an index below the child
/// count it is the field under which the node holds that child.
#[verifier::external_body]
fn ts_field_name_for_child(n: &Node, i: u32) -> (r: Option<String>)
    ensures
        i < node_tree(*n).children@.len() ==> opt_view(r) == opt_view(
            node_tree(*n).children@[i as int].field,
        ),
{
    n.field_name_for_child(i).map(|f| f.to_string())
}

/// The row of `Node::start_position`. Claims it is the node's first row.
#[verifier::external_body]
fn ts_start_row(n: &Node) -> (r: usize)
    ensures
        r == node_tree(*n).start_row,
{
    n.start_position().row
}

/// The row of `Node::end_position`. Claims it is the node's last row.
#[verifier::external_body]
fn ts_end_row(n: &Node) -> (r: usize)
    ensures
        r == node_tree(*n).end_row,
{
    n.end_position().row
}

/// The part of `source` in `Node::byte_range`, read with `str::get`, which
/// gives nothing rather than panic for a range that does not fit; the empty
/// string then. Claims that, in the source the node was parsed from, this
/// is the node's text.
#[verifier::external_body]
fn ts_text(n: &Node, source: &str) -> (r: String)
    ensures
        source@ == node_source(*n) ==> r@ == node_tree(*n).text@,
{
    source.get(n.byte_range()).unwrap_or("").to_string()
}

/// `Node::descendant_count`: the nodes of the subtree, the node itself
/// included. Claims it is the size of the node's subtree.
#[verifier::external_body]
fn ts_descendant_count(n: &Node) -> (r: usize)
    ensures
        r == node_size(node_tree(*n)),
{
    n.descendant_count()
}

/// Copies `n` and, down to `depth` further levels, its descendants, held
/// under `field`; when the subtree is no deeper than `depth`, the copy
/// agrees with it node by node.
fn copy_node(n: &Node, source: &str, field: Option<String>, depth: usize) -> (r: SyntaxNode)
    requires
        source@ == node_source(*n),
    ensures
        r.field == field,
        within_depth(r, depth as nat),
        within_depth(node_tree(*n), depth as nat) && opt_view(field) == opt_view(node_tree(*n).field)
            ==> agrees(r, node_tree(*n)),
    decreases depth,
{
    let ghost t = node_tree(*n);
    let count = ts_child_count(n);
    let mut children: Vec<SyntaxNode> = Vec::new();
    if depth > 0 {
        let mut i: usize = 0;
        while i < count
            invariant
                depth > 0,
                t == node_tree(*n),
                source@ == node_source(*n),
                count == t.children@.len(),
                count <= u32::MAX,
                i <= count,
                children@.len() == i,
                forall|j: int|
                    0 <= j < children@.len() ==> within_depth(#[trigger] children@[j], (depth - 1) as nat),
                within_depth(t, depth as nat) ==> forall|j: int|
                    0 <= j < children@.len() ==> agrees(#[trigger] children@[j], t.children@[j]),
            decreases count - i,
        {
            let field = ts_field_name_for_child(n, i as u32);
            match ts_child(n, i) {
                Some(c) => {
                    let copy = copy_node(&c, source, field, depth - 1);
                    children.push(copy);
                },
                None => {},
            }
            i += 1;
        }
    }
    let r = SyntaxNode {
        kind: ts_kind(n),
        is_named: ts_is_named(n),
        field,
        text: ts_text(n, source),
        start_row: ts_start_row(n),
        end_row: ts_end_row(n),
        children,
    };
    proof {
        if within_depth(t, depth as nat) && opt_view(r.field) == opt_view(t.field) {
            assert(r.children@.len() == t.children@.len());
        }
    }
    r
}

/// Parses `source` with the given grammar and copies the whole tree.
///
/// A tree always comes back (see `ts_parse`): the grammar builds one for
/// every source, and the copy agrees with that tree node by node; the root
/// is held under no field.
/// A tree is never deeper than it has nodes, so copying down to the root's
/// descendant count copies every node.
pub(crate) fn parse_tree(grammar: Grammar, source: &str) -> (r: Option<SyntaxNode>)
    ensures
        r is Some,
        r is Some <==> grammar_tree(grammar, source@) is Some,
        r matches Some(root) ==> root.field is None && agrees(root, grammar_tree(grammar, source@)->0),
{
    match ts_parse(grammar, source) {
        None => None,
        Some(t) => {
            let root = ts_root(&t);
            let depth = ts_descendant_count(&root);
            proof {
                lemma_within_size(node_tree(root));
            }
            Some(copy_node(&root, source, None, depth))
        },
    }
}

} // verus!
