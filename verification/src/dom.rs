//! The bridge to the HTML parser: a parsed document as plain values, and
//! the tree that its node table holds.

use crate::error::ConvertError;
use crate::source::{
    attribute_view, attributes_view, source_forest, SourceAttribute, SourceNode, SourceTree,
};
use vstd::multiset::Multiset;
use vstd::prelude::*;

verus! {

/// The parser's document: a table of nodes that refer to one another by
/// index.
#[verifier::external_type_specification]
#[verifier::external_body]
pub struct ExVDom<'a>(tl::VDom<'a>);

/// The parser's error.
#[verifier::external_type_specification]
#[verifier::external_body]
pub struct ExParseError(tl::ParseError);

/// Mathematical model of a [`FlatNode`].
pub enum FlatTree {
    Tag { name: Seq<char>, attributes: Seq<SourceAttribute>, children: Seq<u32> },
    Raw(Seq<char>),
    Comment(Seq<char>),
}

/// One entry of a document's node table. A tag names its children by their
/// handles: their indices in the table.
#[derive(Debug, PartialEq, Eq)]
pub enum FlatNode {
    Tag { name: String, attributes: Vec<(String, Option<String>)>, children: Vec<u32> },
    Raw(String),
    Comment(String),
}

impl View for FlatNode {
    type V = FlatTree;

    open spec fn view(&self) -> FlatTree {
        match self {
            FlatNode::Tag { name, attributes, children } => FlatTree::Tag {
                name: name@,
                attributes: attributes_view(attributes@),
                children: children@,
            },
            FlatNode::Raw(s) => FlatTree::Raw(s@),
            FlatNode::Comment(s) => FlatTree::Comment(s@),
        }
    }
}

/// A node-table entry with its attributes as a bag: what the entry holds
/// apart from the order of the attributes.
pub enum FlatBag {
    Tag { name: Seq<char>, attributes: Multiset<SourceAttribute>, children: Seq<u32> },
    Raw(Seq<char>),
    Comment(Seq<char>),
}

/// An entry without the order of its attributes.
pub open spec fn bag_of(entry: FlatTree) -> FlatBag {
    match entry {
        FlatTree::Tag { name, attributes, children } => FlatBag::Tag {
            name,
            attributes: attributes.to_multiset(),
            children,
        },
        FlatTree::Raw(content) => FlatBag::Raw(content),
        FlatTree::Comment(content) => FlatBag::Comment(content),
    }
}

/// The entries of a table without the order of their attributes.
pub open spec fn bags_of(table: Seq<FlatTree>) -> Seq<FlatBag> {
    table.map_values(|entry: FlatTree| bag_of(entry))
}

/// The node table that a parsed document holds, entry by entry as
/// `NodeHandle::get` finds them, a tag's attributes in the order in which
/// `Attributes::iter` walks them in this document.
pub uninterp spec fn dom_table(dom: &tl::VDom) -> Seq<FlatTree>;

/// The handles of a parsed document's top-level nodes, in the order of
/// `VDom::children`.
pub uninterp spec fn dom_roots(dom: &tl::VDom) -> Seq<u32>;

/// The node table that `tl::parse` makes of an input, without the order of
/// each tag's attributes.
pub uninterp spec fn parsed_nodes(input: Seq<char>) -> Seq<FlatBag>;

/// The handles of the top-level nodes that `tl::parse` makes of an input.
pub uninterp spec fn parsed_roots(input: Seq<char>) -> Seq<u32>;

/// Calls `tl::parse` with the default options. Trusted: the parser refuses
/// an input whose length in bytes does not fit 32 bits, and no other. What
/// it makes of an input depends on the input alone, but for the order in
/// which a tag's attributes are walked, which a hash map decides: so the
/// table is named up to that order, and the top-level handles as they are.
/// The table has no more entries than the input has bytes, since the parser
/// reads at least one byte for each node it adds.
#[verifier::external_body]
fn parse_html<'a>(input: &'a str) -> (r: Result<tl::VDom<'a>, tl::ParseError>)
    ensures
        r is Ok <==> input.len() <= u32::MAX,
        r matches Ok(dom) ==> bags_of(dom_table(&dom)) == parsed_nodes(input@) && dom_roots(&dom)
            == parsed_roots(input@) && dom_table(&dom).len() <= u32::MAX,
{
    tl::parse(input, tl::ParserOptions::default())
}

/// Calls `VDom::children` and hands out the handles of the top-level nodes
/// as plain indices (`NodeHandle::get_inner`), in the order the parser
/// lists them. Trusted: they are the document's top-level handles.
#[verifier::external_body]
fn root_handles(dom: &tl::VDom) -> (r: Vec<u32>)
    ensures
        r@ == dom_roots(dom),
{
    dom.children().iter().map(|handle| handle.get_inner()).collect()
}

/// Calls `NodeHandle::get` for the handle with index `handle` on the
/// document's parser and copies the node it finds into plain values: a
/// tag's name, its attributes as `Attributes::iter` hands them out, and the
/// handles of its children (`Children::top`); the bytes of text and of a
/// comment as strings (`Bytes::as_utf8_str`). Trusted: the parser finds a
/// node exactly where the handle points into the node table, and what is
/// copied is that entry of the document's table.
#[verifier::external_body]
fn resolve(dom: &tl::VDom, handle: u32) -> (r: Option<FlatNode>)
    ensures
        match r {
            Some(node) => handle < dom_table(dom).len() && node@ == dom_table(dom)[handle as int],
            None => handle >= dom_table(dom).len(),
        },
{
    tl::NodeHandle::new(handle).get(dom.parser()).map(|node| match node {
        tl::Node::Tag(tag) => FlatNode::Tag {
            name: tag.name().as_utf8_str().into_owned(),
            attributes: tag.attributes().iter().map(
                |(key, value)| (key.into_owned(), value.map(|v| v.into_owned())),
            ).collect(),
            children: tag.children().top().iter().map(|child| child.get_inner()).collect(),
        },
        tl::Node::Raw(bytes) => FlatNode::Raw(bytes.as_utf8_str().into_owned()),
        tl::Node::Comment(bytes) => FlatNode::Comment(bytes.as_utf8_str().into_owned()),
    })
}

/// A parsed document as plain values: the table of all its nodes, and the
/// handles of those that stand at the top level, in document order.
#[derive(Debug, PartialEq, Eq)]
pub struct Document {
    pub nodes: Vec<FlatNode>,
    pub roots: Vec<u32>,
}

/// The models of a node table's entries, in order.
pub open spec fn flat_trees(nodes: Seq<FlatNode>) -> Seq<FlatTree> {
    nodes.map_values(|node: FlatNode| node@)
}

/// The tree below the entry that `handle` names, or `None` where the
/// handle points outside the table.
pub open spec fn assembled(table: Seq<FlatTree>, handle: nat) -> Option<SourceTree>
    decreases table.len() - handle, 1nat, 0nat,
{
    if handle >= table.len() {
        None
    } else {
        Some(
            match table[handle as int] {
                FlatTree::Tag { name, attributes, children } => SourceTree::Element {
                    name,
                    attributes,
                    children: assembled_children(table, handle, children),
                },
                FlatTree::Raw(content) => SourceTree::Text(content),
                FlatTree::Comment(content) => SourceTree::Comment(content),
            },
        )
    }
}

/// The trees of a tag's children, in order. The parser numbers the nodes in
/// document order, so a child's handle is larger than its parent's; a
/// handle that is not, or that points outside the table, names no child.
pub open spec fn assembled_children(table: Seq<FlatTree>, parent: nat, handles: Seq<u32>) -> Seq<
    SourceTree,
>
    decreases table.len() - parent, 0nat, handles.len(),
{
    if handles.len() == 0 {
        Seq::empty()
    } else {
        let before = assembled_children(table, parent, handles.drop_last());
        let handle = handles.last() as nat;
        if parent < handle < table.len() {
            before.push(assembled(table, handle)->0)
        } else {
            before
        }
    }
}

/// The trees of the top-level nodes, in order. A handle that points outside
/// the table names no node.
pub open spec fn assembled_roots(table: Seq<FlatTree>, handles: Seq<u32>) -> Seq<SourceTree>
    decreases handles.len(),
{
    if handles.len() == 0 {
        Seq::empty()
    } else {
        let before = assembled_roots(table, handles.drop_last());
        match assembled(table, handles.last() as nat) {
            Some(tree) => before.push(tree),
            None => before,
        }
    }
}

/// The model of an optional source node.
pub open spec fn option_source(node: Option<SourceNode>) -> Option<SourceTree> {
    match node {
        Some(n) => Some(n@),
        None => None,
    }
}

/// Copies an attribute list.
fn clone_attributes(attributes: &Vec<(String, Option<String>)>) -> (r: Vec<
    (String, Option<String>),
>)
    ensures
        attributes_view(r@) == attributes_view(attributes@),
{
    let mut copy: Vec<(String, Option<String>)> = Vec::new();
    let mut i: usize = 0;
    while i < attributes.len()
        invariant
            i <= attributes.len(),
            attributes_view(copy@) == attributes_view(attributes@).take(i as int),
        decreases attributes.len() - i,
    {
        let ghost before = attributes_view(copy@);
        let value = match &attributes[i].1 {
            Some(v) => Some(v.clone()),
            None => None,
        };
        let key = attributes[i].0.clone();
        copy.push((key, value));
        assert(attributes_view(copy@) =~= before.push(attribute_view(attributes@[i as int])));
        i = i + 1;
    }
    copy
}

impl Document {
    /// The models of the table's entries.
    pub open spec fn table(&self) -> Seq<FlatTree> {
        flat_trees(self.nodes@)
    }

    /// The tree below the node that `handle` names, or `None` where the
    /// handle points outside the table.
    pub fn tree(&self, handle: u32) -> (r: Option<SourceNode>)
        ensures
            option_source(r) == assembled(self.table(), handle as nat),
        decreases self.nodes.len() - handle,
    {
        if handle as usize >= self.nodes.len() {
            return None;
        }
        let ghost table = self.table();
        match &self.nodes[handle as usize] {
            FlatNode::Tag { name, attributes, children } => {
                let mut kids: Vec<SourceNode> = Vec::new();
                let mut i: usize = 0;
                while i < children.len()
                    invariant
                        i <= children.len(),
                        handle < self.nodes.len(),
                        table == self.table(),
                        source_forest(kids@) == assembled_children(
                            table,
                            handle as nat,
                            children@.take(i as int),
                        ),
                    decreases children.len() - i,
                {
                    let ghost before = kids@;
                    assert(children@.take(i + 1).drop_last() =~= children@.take(i as int));
                    let child = children[i];
                    if handle < child && (child as usize) < self.nodes.len() {
                        match self.tree(child) {
                            Some(kid) => {
                                kids.push(kid);
                                assert(kids@.drop_last() =~= before);
                            },
                            None => {},
                        }
                    }
                    i = i + 1;
                }
                assert(children@.take(i as int) =~= children@);
                Some(
                    SourceNode::Element {
                        name: name.clone(),
                        attributes: clone_attributes(attributes),
                        children: kids,
                    },
                )
            },
            FlatNode::Raw(content) => Some(SourceNode::Text(content.clone())),
            FlatNode::Comment(content) => Some(SourceNode::Comment(content.clone())),
        }
    }

    /// The trees of the top-level nodes, in document order.
    pub fn top_level(&self) -> (r: Vec<SourceNode>)
        ensures
            source_forest(r@) == assembled_roots(self.table(), self.roots@),
    {
        let mut trees: Vec<SourceNode> = Vec::new();
        let mut i: usize = 0;
        while i < self.roots.len()
            invariant
                i <= self.roots.len(),
                source_forest(trees@) == assembled_roots(self.table(), self.roots@.take(i as int)),
            decreases self.roots.len() - i,
        {
            let ghost before = trees@;
            assert(self.roots@.take(i + 1).drop_last() =~= self.roots@.take(i as int));
            match self.tree(self.roots[i]) {
                Some(tree) => {
                    trees.push(tree);
                    assert(trees@.drop_last() =~= before);
                },
                None => {},
            }
            i = i + 1;
        }
        assert(self.roots@.take(i as int) =~= self.roots@);
        trees
    }
}

/// Parses `input` and copies the parser's document into plain values: the
/// top-level handles, and the node of every handle from 0 up to the first
/// that names none. It fails exactly where the parser refuses the input:
/// where its length in bytes does not fit 32 bits. What it returns is what
/// the parser makes of the input: its top-level handles, and its node
/// table up to the order of each tag's attributes.
pub fn read_document(input: &str) -> (r: Result<Document, ConvertError>)
    ensures
        r is Ok <==> input.len() <= u32::MAX,
        r matches Err(e) ==> e == ConvertError::InvalidLength,
        r matches Ok(document) ==> bags_of(document.table()) == parsed_nodes(input@)
            && document.roots@ == parsed_roots(input@),
{
    match parse_html(input) {
        Ok(dom) => {
            let ghost table = dom_table(&dom);
            let roots = root_handles(&dom);
            let mut nodes: Vec<FlatNode> = Vec::new();
            let mut handle: u32 = 0;
            let mut more = true;
            while more
                invariant
                    table == dom_table(&dom),
                    table.len() <= u32::MAX,
                    handle <= table.len(),
                    more ==> flat_trees(nodes@) == table.take(handle as int),
                    !more ==> flat_trees(nodes@) == table,
                decreases
                        u32::MAX - handle + if more {
                            1int
                        } else {
                            0int
                        },
            {
                match resolve(&dom, handle) {
                    Some(node) => {
                        nodes.push(node);
                        assert(flat_trees(nodes@) =~= table.take(handle + 1));
                        handle = handle + 1;
                    },
                    None => {
                        assert(table.take(handle as int) =~= table);
                        more = false;
                    },
                }
            }
            Ok(Document { nodes, roots })
        },
        Err(_) => Err(ConvertError::InvalidLength),
    }
}

} // verus!
