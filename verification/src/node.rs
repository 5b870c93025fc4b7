//! The owned intermediate tree that the serializer prints.

use crate::text::is_trimmed;
use vstd::prelude::*;

verus! {

/// The attribute name whose value becomes a tag's classes value.
pub open spec fn class_key() -> Seq<char> {
    "class"@
}

/// Mathematical model of a [`KotlinDslNode`].
pub enum DslTree {
    Tag {
        name: Seq<char>,
        classes: Option<Seq<char>>,
        attributes: Seq<(Seq<char>, Seq<char>)>,
        children: Seq<DslTree>,
    },
    Text(Seq<char>),
    Comment(Seq<char>),
}

impl DslTree {
    /// The invariant of the intermediate tree: no kept attribute is named
    /// "class", and text and comments are trimmed and not empty.
    pub open spec fn well_formed(self) -> bool
        decreases self,
    {
        match self {
            DslTree::Tag { attributes, children, .. } => {
                &&& forall|i: int| 0 <= i < attributes.len() ==> (#[trigger] attributes[i]).0
                    != class_key()
                &&& forall|i: int| 0 <= i < children.len() ==> (#[trigger] children[i]).well_formed()
            },
            DslTree::Text(content) => content.len() > 0 && is_trimmed(content),
            DslTree::Comment(content) => content.len() > 0 && is_trimmed(content),
        }
    }
}

/// One node of the intermediate tree.
#[derive(Debug, PartialEq, Eq)]
pub enum KotlinDslNode {
    Tag {
        name: String,
        classes: Option<String>,
        attributes: Vec<(String, String)>,
        children: Vec<KotlinDslNode>,
    },
    String(String),
    Comment(String),
}

/// The characters of an optional string.
pub open spec fn option_view(s: Option<String>) -> Option<Seq<char>> {
    match s {
        Some(v) => Some(v@),
        None => None,
    }
}

/// The characters of a key and its value.
pub open spec fn pair_view(a: (String, String)) -> (Seq<char>, Seq<char>) {
    (a.0@, a.1@)
}

/// The characters of a list of keys and values, in order.
pub open spec fn pairs_view(pairs: Seq<(String, String)>) -> Seq<(Seq<char>, Seq<char>)> {
    pairs.map_values(|a: (String, String)| pair_view(a))
}

/// The model of one node.
pub open spec fn tree_of(node: KotlinDslNode) -> DslTree
    decreases node,
{
    match node {
        KotlinDslNode::Tag { name, classes, attributes, children } => DslTree::Tag {
            name: name@,
            classes: option_view(classes),
            attributes: pairs_view(attributes@),
            children: trees_of(children@),
        },
        KotlinDslNode::String(s) => DslTree::Text(s@),
        KotlinDslNode::Comment(s) => DslTree::Comment(s@),
    }
}

/// The models of a list of nodes, in order.
pub open spec fn trees_of(nodes: Seq<KotlinDslNode>) -> Seq<DslTree>
    decreases nodes,
{
    if nodes.len() == 0 {
        Seq::empty()
    } else {
        trees_of(nodes.drop_last()).push(tree_of(nodes.last()))
    }
}

impl View for KotlinDslNode {
    type V = DslTree;

    open spec fn view(&self) -> DslTree {
        tree_of(*self)
    }
}

/// The model of a list lines up with the list, item by item.
pub proof fn lemma_trees_of_index(nodes: Seq<KotlinDslNode>)
    ensures
        trees_of(nodes).len() == nodes.len(),
        forall|i: int| 0 <= i < nodes.len() ==> #[trigger] trees_of(nodes)[i] == nodes[i]@,
    decreases nodes.len(),
{
    if nodes.len() > 0 {
        lemma_trees_of_index(nodes.drop_last());
    }
}

} // verus!
