//! The syntax tree.

use vstd::prelude::*;
use crate::tokens::{Token, TokenView};

verus! {

broadcast use vstd::std_specs::vec::axiom_vec_index_decreases;

/// A node of the syntax tree.
#[derive(Debug)]
pub struct Node {
    pub token: Token,
    pub nodes: Vec<Node>,
    /// The depth of indentation of the node's line, from one; zero before linking.
    pub scope: usize,
    /// Whether the node's line was the second half of an `else …`.
    pub branch: bool,
    /// The register that holds the node's value; set when the tree is lowered.
    pub register: String,
}

/// The mathematical content of a [`Node`].
pub ghost struct NodeView {
    pub token: TokenView,
    pub nodes: Seq<NodeView>,
    pub scope: nat,
    pub branch: bool,
    pub register: Seq<char>,
}

/// The content of a node.
pub open spec fn node_view(node: Node) -> NodeView
    decreases node,
{
    NodeView {
        token: node.token@,
        nodes: Seq::new(
            node.nodes.len() as nat,
            |i: int|
                if 0 <= i < node.nodes.len() {
                    node_view(node.nodes[i])
                } else {
                    arbitrary()
                },
        ),
        scope: node.scope as nat,
        branch: node.branch,
        register: node.register@,
    }
}

/// The content of a list of nodes.
pub open spec fn nodes_view(nodes: Vec<Node>) -> Seq<NodeView> {
    Seq::new(nodes.len() as nat, |i: int| node_view(nodes[i]))
}

impl View for Node {
    type V = NodeView;

    open spec fn view(&self) -> NodeView {
        node_view(*self)
    }
}

impl NodeView {
    /// An unlinked node: no scope, no branch mark, register `0`.
    pub open spec fn fresh(token: TokenView, nodes: Seq<NodeView>) -> NodeView {
        NodeView { token, nodes, scope: 0, branch: false, register: "0"@ }
    }
}

/// The children of a node, seen as a list.
pub proof fn lemma_children(node: Node)
    ensures
        node@.nodes == nodes_view(node.nodes),
{
    assert(node@.nodes =~= nodes_view(node.nodes));
}

/// A fresh copy of a node and all below it.
#[verifier::loop_isolation(false)]
pub fn copy_node(node: &Node) -> (out: Node)
    ensures
        out@ == node@,
    decreases node,
{
    let mut nodes: Vec<Node> = Vec::new();
    let mut at: usize = 0;
    while at < node.nodes.len()
        invariant
            at <= node.nodes.len(),
            nodes.len() == at,
            forall|i: int| 0 <= i < at ==> nodes[i]@ == node.nodes[i]@,
        decreases node.nodes.len() - at,
    {
        nodes.push(copy_node(&node.nodes[at]));
        at += 1;
    }
    let out = Node {
        token: node.token.clone(),
        nodes,
        scope: node.scope,
        branch: node.branch,
        register: node.register.clone(),
    };
    assert(out@.nodes =~= node@.nodes);
    out
}

/// A fresh copy of `nodes[from..]`.
pub fn copy_nodes(nodes: &Vec<Node>, from: usize) -> (out: Vec<Node>)
    requires
        from <= nodes.len(),
    ensures
        nodes_view(out) == nodes_view(*nodes).subrange(from as int, nodes.len() as int),
{
    let mut out: Vec<Node> = Vec::new();
    let mut at: usize = from;
    while at < nodes.len()
        invariant
            from <= at <= nodes.len(),
            out.len() == at - from,
            forall|i: int| 0 <= i < at - from ==> out[i]@ == nodes[from + i]@,
        decreases nodes.len() - at,
    {
        out.push(copy_node(&nodes[at]));
        at += 1;
    }
    assert(nodes_view(out) =~= nodes_view(*nodes).subrange(from as int, nodes.len() as int));
    out
}

impl Clone for Node {
    fn clone(&self) -> (out: Self)
        ensures
            out@ == self@,
    {
        copy_node(self)
    }
}

impl Node {
    /// The head node of a module.
    pub fn module() -> (out: Node)
        ensures
            out@ == NodeView::fresh(TokenView::Module, Seq::empty()),
    {
        let out = Node {
            token: Token::Module,
            nodes: Vec::new(),
            scope: 0,
            branch: false,
            register: "0".to_owned(),
        };
        assert(out@.nodes =~= Seq::<NodeView>::empty());
        out
    }

    /// An unlinked node without children.
    pub fn leaf(token: Token) -> (out: Node)
        ensures
            out@ == NodeView::fresh(token@, Seq::empty()),
    {
        let out = Node {
            token,
            nodes: Vec::new(),
            scope: 0,
            branch: false,
            register: "0".to_owned(),
        };
        assert(out@.nodes =~= Seq::<NodeView>::empty());
        out
    }

    /// An unlinked node with the given children.
    pub fn branch(token: Token, nodes: Vec<Node>) -> (out: Node)
        ensures
            out@ == NodeView::fresh(token@, nodes_view(nodes)),
    {
        let out = Node { token, nodes, scope: 0, branch: false, register: "0".to_owned() };
        assert(out@.nodes =~= nodes_view(nodes));
        out
    }
}

impl DeepView for Node {
    type V = NodeView;

    open spec fn deep_view(&self) -> NodeView {
        self@
    }
}

} // verus!
