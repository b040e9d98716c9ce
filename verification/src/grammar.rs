//! The Bash grammar: the parser that turns the text of a script into a
//! syntax tree, and the reading of that tree into the library's own nodes.

use crate::syntax::is_known_tag;
use crate::syntax::NodeKind;
use crate::syntax::SyntaxNode;
use vstd::prelude::*;

verus! {

/// What a node of a parsed tree holds: the name of its kind, whether it is
/// named, the bytes that it spans, and what its children hold, in order.
pub struct NodeContent {
    pub kind: Seq<char>,
    pub named: bool,
    pub start_byte: usize,
    pub end_byte: usize,
    pub children: Seq<NodeContent>,
}

/// `tree_sitter::Tree`, the result of a parse.
#[verifier::external_type_specification]
#[verifier::external_body]
pub struct ExTree(tree_sitter::Tree);

/// `tree_sitter::Node`, a node of a tree that is still borrowed.
#[verifier::external_type_specification]
#[verifier::external_body]
pub struct ExNode<'tree>(tree_sitter::Node<'tree>);

/// What the root of the tree holds that a parser with the grammar of Bash
/// makes of a text, if it makes one.
pub uninterp spec fn bash_tree(source: Seq<char>) -> Option<NodeContent>;

/// What the root of a parsed tree holds.
pub uninterp spec fn tree_holds(tree: tree_sitter::Tree) -> NodeContent;

/// What a node of a parsed tree holds.
pub uninterp spec fn node_holds(node: tree_sitter::Node) -> NodeContent;

/// `tree_sitter::Parser::parse` on the text of `source`, by a parser that
/// `tree_sitter::Parser::new` made and that was given the grammar of
/// `tree_sitter_bash::language` by `tree_sitter::Parser::set_language`.
/// There is no tree where the parser refuses the grammar. The tree depends
/// on the text alone: its root holds what `bash_tree` names.
#[verifier::external_body]
fn parse_text(source: &str) -> (tree: Option<tree_sitter::Tree>)
    ensures
        match bash_tree(source@) {
            Some(content) => tree matches Some(t) && tree_holds(t) == content,
            None => tree is None,
        },
{
    let mut parser = tree_sitter::Parser::new();
    parser.set_language(tree_sitter_bash::language()).ok()?;
    parser.parse(source, None)
}

/// `tree_sitter::Tree::root_node` gives the node that spans the whole tree:
/// it holds what the tree holds at its root.
pub assume_specification<'a>[ tree_sitter::Tree::root_node ](
    tree: &'a tree_sitter::Tree,
) -> (root: tree_sitter::Node<'a>)
    ensures
        node_holds(root) == tree_holds(*tree),
;

/// `tree_sitter::Node::kind` gives the grammar's name of the node's kind.
pub assume_specification<'tree>[ tree_sitter::Node::<'tree>::kind ](
    node: &tree_sitter::Node<'tree>,
) -> (kind: &'static str)
    ensures
        kind@ == node_holds(*node).kind,
;

/// `tree_sitter::Node::is_named` tells named nodes from anonymous ones.
pub assume_specification<'tree>[ tree_sitter::Node::<'tree>::is_named ](
    node: &tree_sitter::Node<'tree>,
) -> (named: bool)
    ensures
        named == node_holds(*node).named,
;

/// `tree_sitter::Node::start_byte` gives the byte at which the node starts.
pub assume_specification<'tree>[ tree_sitter::Node::<'tree>::start_byte ](
    node: &tree_sitter::Node<'tree>,
) -> (start: usize)
    ensures
        start == node_holds(*node).start_byte,
;

/// `tree_sitter::Node::end_byte` gives the byte before which the node ends.
pub assume_specification<'tree>[ tree_sitter::Node::<'tree>::end_byte ](
    node: &tree_sitter::Node<'tree>,
) -> (end: usize)
    ensures
        end == node_holds(*node).end_byte,
;

/// `tree_sitter::Node::child_count` gives the number of the node's children.
pub assume_specification<'tree>[ tree_sitter::Node::<'tree>::child_count ](
    node: &tree_sitter::Node<'tree>,
) -> (count: usize)
    ensures
        count == node_holds(*node).children.len(),
;

/// `tree_sitter::Node::child` gives the child at an index. For an index
/// below the number of children there is one, and it holds what the node
/// holds for that child. Nothing is claimed for other indices.
pub assume_specification<'tree>[ tree_sitter::Node::<'tree>::child ](
    node: &tree_sitter::Node<'tree>,
    i: usize,
) -> (found: Option<tree_sitter::Node<'tree>>)
    ensures
        match found {
            Some(child) => i < node_holds(*node).children.len() ==> node_holds(child)
                == node_holds(*node).children[i as int],
            None => i >= node_holds(*node).children.len(),
        },
;

impl SyntaxNode {
    /// Whether this node and all that is below it hold what `content` holds:
    /// node for node the same kind, the same span, the same children in the
    /// same order. A kind that has a variant of its own stands under that
    /// variant.
    pub open spec fn mirrors(self, content: NodeContent) -> bool
        decreases content,
    {
        &&& self.kind.tag_text() == content.kind
        &&& self.kind is Other <==> !is_known_tag(content.kind)
        &&& self.named == content.named
        &&& self.start_byte == content.start_byte
        &&& self.end_byte == content.end_byte
        &&& self.children@.len() == content.children.len()
        &&& forall|i: int|
            0 <= i < content.children.len() ==> (#[trigger] self.children@[i]).mirrors(
                content.children[i],
            )
    }
}

/// Reads `node` and what is below it into the library's own nodes.
fn read_node(node: &tree_sitter::Node<'_>) -> (read: SyntaxNode)
    ensures
        read.mirrors(node_holds(*node)),
    decreases node_holds(*node),
{
    let count = node.child_count();
    let mut children: Vec<SyntaxNode> = Vec::new();
    let mut i: usize = 0;
    while i < count
        invariant
            i <= count == node_holds(*node).children.len(),
            children@.len() == i,
            forall|k: int|
                0 <= k < i ==> (#[trigger] children@[k]).mirrors(node_holds(*node).children[k]),
        decreases count - i,
    {
        if let Some(child) = node.child(i) {
            children.push(read_node(&child));
        }
        i += 1;
    }
    SyntaxNode {
        kind: NodeKind::from_tag(node.kind()),
        named: node.is_named(),
        start_byte: node.start_byte(),
        end_byte: node.end_byte(),
        children,
    }
}

/// Parses `source` as a Bash script and reads the tree. There is a tree
/// exactly where the parser makes one of the text.
pub(crate) fn parse_script(source: &str) -> (tree: Option<SyntaxNode>)
    ensures
        match bash_tree(source@) {
            Some(content) => tree matches Some(root) && root.mirrors(content),
            None => tree is None,
        },
{
    match parse_text(source) {
        Some(tree) => {
            let root = tree.root_node();
            Some(read_node(&root))
        },
        None => None,
    }
}

} // verus!
