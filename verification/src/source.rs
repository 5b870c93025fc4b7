//! The parsed document as the tree builder reads it.

use vstd::prelude::*;

verus! {

/// An attribute as a mathematical value: a key and, where one was written,
/// a value.
pub type SourceAttribute = (Seq<char>, Option<Seq<char>>);

/// Mathematical model of a [`SourceNode`].
pub enum SourceTree {
    Element { name: Seq<char>, attributes: Seq<SourceAttribute>, children: Seq<SourceTree> },
    Text(Seq<char>),
    Comment(Seq<char>),
}

/// One node of a parsed document. An element lists its attributes and its
/// immediate children in document order; text and comments carry their raw
/// content, a comment with its delimiters.
#[derive(Debug, PartialEq, Eq)]
pub enum SourceNode {
    Element { name: String, attributes: Vec<(String, Option<String>)>, children: Vec<SourceNode> },
    Text(String),
    Comment(String),
}

/// The model of one attribute.
pub open spec fn attribute_view(a: (String, Option<String>)) -> SourceAttribute {
    (
        a.0@,
        match a.1 {
            Some(v) => Some(v@),
            None => None,
        },
    )
}

/// The models of a list of attributes, in order.
pub open spec fn attributes_view(attributes: Seq<(String, Option<String>)>) -> Seq<
    SourceAttribute,
> {
    attributes.map_values(|a: (String, Option<String>)| attribute_view(a))
}

/// The model of one node.
pub open spec fn source_tree(node: SourceNode) -> SourceTree
    decreases node,
{
    match node {
        SourceNode::Element { name, attributes, children } => SourceTree::Element {
            name: name@,
            attributes: attributes_view(attributes@),
            children: source_forest(children@),
        },
        SourceNode::Text(s) => SourceTree::Text(s@),
        SourceNode::Comment(s) => SourceTree::Comment(s@),
    }
}

/// The models of a list of nodes, in order.
pub open spec fn source_forest(nodes: Seq<SourceNode>) -> Seq<SourceTree>
    decreases nodes,
{
    if nodes.len() == 0 {
        Seq::empty()
    } else {
        source_forest(nodes.drop_last()).push(source_tree(nodes.last()))
    }
}

impl View for SourceNode {
    type V = SourceTree;

    open spec fn view(&self) -> SourceTree {
        source_tree(*self)
    }
}

/// The model of a list lines up with the list, item by item.
pub proof fn lemma_source_forest_index(nodes: Seq<SourceNode>)
    ensures
        source_forest(nodes).len() == nodes.len(),
        forall|i: int| 0 <= i < nodes.len() ==> #[trigger] source_forest(nodes)[i] == nodes[i]@,
    decreases nodes.len(),
{
    if nodes.len() > 0 {
        lemma_source_forest_index(nodes.drop_last());
    }
}

} // verus!
