//! Syntax trees as flat arenas: every node names its kind and its parent, and
//! a parent always stands before its children.

use crate::text::str_equal;
use vstd::prelude::*;

verus! {

/// One node of a syntax tree.
#[derive(Debug)]
pub struct SyntaxNode {
    /// The grammar's name for the construct, such as `if_statement`.
    pub kind: String,
    /// The index of the parent node; the root names itself.
    pub parent: usize,
}

/// The mathematical content of a node.
pub struct NodeModel {
    pub kind: Seq<char>,
    pub parent: int,
}

impl View for SyntaxNode {
    type V = NodeModel;

    open spec fn view(&self) -> NodeModel {
        NodeModel { kind: self.kind@, parent: self.parent as int }
    }
}

/// The models of a sequence of nodes.
pub open spec fn node_models(nodes: Seq<SyntaxNode>) -> Seq<NodeModel> {
    Seq::new(nodes.len(), |i: int| nodes[i]@)
}

/// A tree: node 0 is the root and names itself as parent, every other node
/// names an earlier node.
pub open spec fn is_tree(t: Seq<NodeModel>) -> bool {
    &&& t.len() > 0
    &&& t[0].parent == 0
    &&& forall|i: int| 1 <= i < t.len() ==> 0 <= (#[trigger] t[i]).parent < i
}

/// Whether `kind` names a construct that opens a new path through the code.
pub open spec fn is_control_flow(kind: Seq<char>) -> bool {
    ||| kind == "if_statement"@
    ||| kind == "while_statement"@
    ||| kind == "for_statement"@
    ||| kind == "try_statement"@
    ||| kind == "catch_clause"@
    ||| kind == "conditional_expression"@
    ||| kind == "logical_and"@
    ||| kind == "logical_or"@
}

/// Decides whether `kind` names a control-flow construct.
pub fn is_control_flow_kind(kind: &str) -> (r: bool)
    ensures
        r == is_control_flow(kind@),
{
    str_equal(kind, "if_statement") || str_equal(kind, "while_statement") || str_equal(
        kind,
        "for_statement",
    ) || str_equal(kind, "try_statement") || str_equal(kind, "catch_clause") || str_equal(
        kind,
        "conditional_expression",
    ) || str_equal(kind, "logical_and") || str_equal(kind, "logical_or")
}

/// A syntax tree in arena form.
#[derive(Debug)]
pub struct SyntaxTree {
    nodes: Vec<SyntaxNode>,
}

impl View for SyntaxTree {
    type V = Seq<NodeModel>;

    closed spec fn view(&self) -> Seq<NodeModel> {
        node_models(self.nodes@)
    }
}

impl SyntaxTree {
    /// The invariant of the type: the arena is a tree.
    pub open spec fn wf(&self) -> bool {
        is_tree(self@)
    }

    /// A tree that holds only a root of the given kind.
    pub fn new(root_kind: String) -> (t: SyntaxTree)
        ensures
            t.wf(),
            t@ == seq![NodeModel { kind: root_kind@, parent: 0 }],
    {
        let mut nodes: Vec<SyntaxNode> = Vec::new();
        nodes.push(SyntaxNode { kind: root_kind, parent: 0 });
        let t = SyntaxTree { nodes };
        t
    }

    /// Appends a node of the given kind under `parent` and returns its index;
    /// nothing changes when `parent` is no node of the tree.
    pub fn add_child(&mut self, parent: usize, kind: String) -> (r: Option<usize>)
        requires
            old(self).wf(),
        ensures
            final(self).wf(),
            parent < old(self)@.len() ==> r == Some(old(self)@.len() as usize) && final(self)@
                == old(self)@.push(NodeModel { kind: kind@, parent: parent as int }),
            parent >= old(self)@.len() ==> r.is_none() && final(self)@ == old(self)@,
    {
        let n: usize = self.nodes.len();
        if parent >= n {
            return None;
        }
        self.nodes.push(SyntaxNode { kind, parent });
        proof {
            let before = old(self)@;
            let after = self@;
            assert(after =~= before.push(NodeModel { kind: kind@, parent: parent as int }));
        }
        Some(n)
    }

    /// Builds a tree from `(kind, parent)` pairs listed parents first, or
    /// returns `None` when the pairs do not form a tree.
    pub fn from_nodes(nodes: Vec<SyntaxNode>) -> (r: Option<SyntaxTree>)
        ensures
            r.is_some() <==> is_tree(node_models(nodes@)),
            r.is_some() ==> r.unwrap()@ == node_models(nodes@) && r.unwrap().wf(),
    {
        let n: usize = nodes.len();
        if n == 0 || nodes[0].parent != 0 {
            return None;
        }
        let mut i: usize = 1;
        while i < n
            invariant
                1 <= i <= n,
                n == nodes.len(),
                forall|j: int| 1 <= j < i ==> 0 <= (#[trigger] node_models(nodes@)[j]).parent < j,
            decreases n - i,
        {
            if nodes[i].parent >= i {
                proof {
                    assert(node_models(nodes@)[i as int].parent >= i);
                }
                return None;
            }
            i += 1;
        }
        Some(SyntaxTree { nodes })
    }

    /// The number of nodes.
    pub fn len(&self) -> (n: usize)
        ensures
            n == self@.len(),
    {
        self.nodes.len()
    }

    /// The node at `index`.
    pub fn node(&self, index: usize) -> (r: &SyntaxNode)
        requires
            index < self@.len(),
        ensures
            r@ == self@[index as int],
    {
        &self.nodes[index]
    }
}

} // verus!
