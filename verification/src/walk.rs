//! Sizes of trees, by which the walks over them are measured.

use vstd::prelude::*;
use crate::ast::AstTree;
use crate::xml::{XmlElement, XmlNode};

verus! {

/// The number of nodes of a document tree.
pub open spec fn tree_size(tree: AstTree) -> nat
    decreases tree,
{
    1 + forest_size(tree.children)
}

/// The number of nodes of a sequence of document trees.
pub open spec fn forest_size(trees: Seq<AstTree>) -> nat
    decreases trees,
{
    if trees.len() == 0 {
        0
    } else {
        tree_size(trees[0]) + forest_size(trees.skip(1))
    }
}

/// The size of an XML node: that of an element, and 1 for a text run.
pub open spec fn node_size(node: XmlNode) -> nat {
    match node {
        XmlNode::Element(e) => element_size(e),
        XmlNode::Text(_) => 1,
    }
}

/// The number of nodes of an XML element, itself included.
pub open spec fn element_size(e: XmlElement) -> nat
    decreases e,
{
    1 + nodes_size(e.nodes)
}

/// The number of nodes of a sequence of XML nodes.
pub open spec fn nodes_size(nodes: Seq<XmlNode>) -> nat
    decreases nodes,
{
    if nodes.len() == 0 {
        0
    } else {
        (match nodes[0] {
            XmlNode::Element(e) => element_size(e),
            XmlNode::Text(_) => 1nat,
        }) + nodes_size(nodes.skip(1))
    }
}

} // verus!
