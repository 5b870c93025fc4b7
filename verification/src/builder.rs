//! The tree builder: from a parsed document node to an intermediate node.

use crate::node::{class_key, option_view, pairs_view, trees_of, DslTree, KotlinDslNode};
use crate::source::{
    attributes_view, lemma_source_forest_index, source_forest, SourceAttribute, SourceNode,
    SourceTree,
};
use crate::text::{lemma_trimmed_is_trimmed, strip_prefix, strip_suffix, trim, trimmed};
use vstd::prelude::*;

verus! {

/// The text that opens a comment.
pub open spec fn comment_open() -> Seq<char> {
    "<!--"@
}

/// The text that closes a comment.
pub open spec fn comment_close() -> Seq<char> {
    "-->"@
}

/// An attribute named "class" that carries a value.
pub open spec fn is_class(a: SourceAttribute) -> bool {
    a.1 is Some && a.0 == class_key()
}

/// An attribute with any other name that carries a value.
pub open spec fn is_plain(a: SourceAttribute) -> bool {
    a.1 is Some && a.0 != class_key()
}

/// The value of the first "class" attribute that has one.
pub open spec fn classes_value(attributes: Seq<SourceAttribute>) -> Option<Seq<char>> {
    let group = attributes.filter(|a: SourceAttribute| is_class(a));
    if group.len() > 0 {
        group[0].1
    } else {
        None
    }
}

/// The attributes that are kept as key and value pairs: those with a value
/// and a name other than "class", in source order.
pub open spec fn plain_attributes(attributes: Seq<SourceAttribute>) -> Seq<(Seq<char>, Seq<char>)> {
    attributes.filter(|a: SourceAttribute| is_plain(a)).map_values(
        |a: SourceAttribute| (a.0, a.1->0),
    )
}

/// The content of a comment: the trimmed text between the delimiters where
/// both are there, the trimmed raw text otherwise.
pub open spec fn comment_text(raw: Seq<char>) -> Seq<char> {
    let outer = trimmed(raw);
    let rest = outer.skip(comment_open().len() as int);
    if comment_open().is_prefix_of(outer) && comment_close().is_suffix_of(rest) {
        trimmed(rest.take(rest.len() - comment_close().len()))
    } else {
        outer
    }
}

/// What the tree builder makes of one source node: `None` where the node
/// leaves nothing behind.
pub open spec fn built(src: SourceTree) -> Option<DslTree>
    decreases src,
{
    match src {
        SourceTree::Element { name, attributes, children } => Some(
            DslTree::Tag {
                name,
                classes: classes_value(attributes),
                attributes: plain_attributes(attributes),
                children: built_forest(children),
            },
        ),
        SourceTree::Text(raw) => {
            let text = trimmed(raw);
            if text.len() == 0 {
                None
            } else {
                Some(DslTree::Text(text))
            }
        },
        SourceTree::Comment(raw) => {
            let text = comment_text(raw);
            if text.len() == 0 {
                None
            } else {
                Some(DslTree::Comment(text))
            }
        },
    }
}

/// What the tree builder makes of a list of siblings: the results of the
/// nodes that leave something behind, in source order.
pub open spec fn built_forest(nodes: Seq<SourceTree>) -> Seq<DslTree>
    decreases nodes,
{
    if nodes.len() == 0 {
        Seq::empty()
    } else {
        let before = built_forest(nodes.drop_last());
        match built(nodes.last()) {
            Some(tree) => before.push(tree),
            None => before,
        }
    }
}

/// Whatever the tree builder returns keeps the invariant of the
/// intermediate tree.
pub proof fn lemma_built_well_formed(src: SourceTree)
    ensures
        built(src) matches Some(tree) ==> tree.well_formed(),
    decreases src,
{
    match src {
        SourceTree::Element { name, attributes, children } => {
            lemma_built_forest_well_formed(children);
            let kept = attributes.filter(|a: SourceAttribute| is_plain(a));
            let pairs = plain_attributes(attributes);
            assert forall|i: int| 0 <= i < pairs.len() implies (#[trigger] pairs[i]).0
                != class_key() by {
                assert(is_plain(kept[i]));
            }
            assert(built(src)->0->children == built_forest(children));
        },
        SourceTree::Text(raw) => {
            lemma_trimmed_is_trimmed(raw);
        },
        SourceTree::Comment(raw) => {
            let outer = trimmed(raw);
            let rest = outer.skip(comment_open().len() as int);
            lemma_trimmed_is_trimmed(raw);
            lemma_trimmed_is_trimmed(rest.take(rest.len() - comment_close().len()));
        },
    }
}

/// Every node that the tree builder keeps of a list of siblings keeps the
/// invariant of the intermediate tree.
pub proof fn lemma_built_forest_well_formed(nodes: Seq<SourceTree>)
    ensures
        forall|i: int|
            0 <= i < built_forest(nodes).len() ==> (#[trigger] built_forest(nodes)[i]).well_formed(),
    decreases nodes,
{
    if nodes.len() > 0 {
        lemma_built_forest_well_formed(nodes.drop_last());
        lemma_built_well_formed(nodes.last());
        let before = built_forest(nodes.drop_last());
        assert forall|i: int| 0 <= i < built_forest(nodes).len() implies (#[trigger] built_forest(
            nodes,
        )[i]).well_formed() by {
            if i < before.len() {
                assert(built_forest(nodes)[i] == before[i]);
            }
        }
    }
}

/// The model of an optional node.
pub open spec fn option_tree(node: Option<KotlinDslNode>) -> Option<DslTree> {
    match node {
        Some(n) => Some(n@),
        None => None,
    }
}

/// Splits an attribute list into the value of its first valued "class"
/// attribute and the remaining valued attributes.
pub fn partition_attributes(attributes: &Vec<(String, Option<String>)>) -> (r: (
    Option<String>,
    Vec<(String, String)>,
))
    ensures
        option_view(r.0) == classes_value(attributes_view(attributes@)),
        pairs_view(r.1@) == plain_attributes(attributes_view(attributes@)),
{
    let ghost all = attributes_view(attributes@);
    let ghost class_pred = |a: SourceAttribute| is_class(a);
    let ghost plain_pred = |a: SourceAttribute| is_plain(a);
    let class_name = "class".to_owned();
    let mut classes: Option<String> = None;
    let mut plain: Vec<(String, String)> = Vec::new();
    let mut i: usize = 0;
    proof {
        assert(all.take(0).filter(class_pred) =~= Seq::empty());
        assert(all.take(0).filter(plain_pred) =~= Seq::empty());
    }
    while i < attributes.len()
        invariant
            i <= attributes.len(),
            all == attributes_view(attributes@),
            class_pred == (|a: SourceAttribute| is_class(a)),
            plain_pred == (|a: SourceAttribute| is_plain(a)),
            class_name@ == class_key(),
            option_view(classes) == classes_value(all.take(i as int)),
            pairs_view(plain@) == plain_attributes(all.take(i as int)),
        decreases attributes.len() - i,
    {
        let ghost seen = all.take(i as int);
        proof {
            assert(all.take(i + 1) =~= seen.push(all[i as int]));
            seen.lemma_filter_push(all[i as int], class_pred);
            seen.lemma_filter_push(all[i as int], plain_pred);
        }
        let key = &attributes[i].0;
        match &attributes[i].1 {
            Some(value) => {
                if *key == class_name {
                    if classes.is_none() {
                        classes = Some(value.clone());
                    }
                } else {
                    plain.push((key.clone(), value.clone()));
                    assert(seen.filter(plain_pred).push(all[i as int]).map_values(
                        |a: SourceAttribute| (a.0, a.1->0),
                    ) =~= seen.filter(plain_pred).map_values(
                        |a: SourceAttribute| (a.0, a.1->0),
                    ).push((key@, value@)));
                }
            },
            None => {},
        }
        i = i + 1;
    }
    assert(all.take(i as int) =~= all);
    (classes, plain)
}

/// Builds the intermediate node for a comment's raw text.
pub fn build_comment(raw: &str) -> (r: Option<KotlinDslNode>)
    ensures
        option_tree(r) == built(SourceTree::Comment(raw@)),
{
    let outer = trim(raw);
    let text = match strip_prefix(outer, "<!--") {
        Some(rest) => {
            assert(rest@ =~= outer@.skip(comment_open().len() as int));
            match strip_suffix(rest, "-->") {
                Some(body) => {
                    assert(body@ =~= rest@.take(rest@.len() - comment_close().len()));
                    trim(body)
                },
                None => outer,
            }
        },
        None => outer,
    };
    if text.is_empty() {
        None
    } else {
        Some(KotlinDslNode::Comment(text.to_owned()))
    }
}

/// Builds the intermediate node for a run of raw text.
pub fn build_text(raw: &str) -> (r: Option<KotlinDslNode>)
    ensures
        option_tree(r) == built(SourceTree::Text(raw@)),
{
    let text = trim(raw);
    if text.is_empty() {
        None
    } else {
        Some(KotlinDslNode::String(text.to_owned()))
    }
}

/// Builds the intermediate tree for `node`, or nothing where the node is
/// text or a comment that is empty once trimmed.
pub fn build_kotlin_node(node: &SourceNode) -> (r: Option<KotlinDslNode>)
    ensures
        option_tree(r) == built(node@),
        r matches Some(n) ==> n@.well_formed(),
    decreases node,
{
    proof {
        lemma_built_well_formed(node@);
    }
    match node {
        SourceNode::Element { name, attributes, children } => {
            let (classes, plain) = partition_attributes(attributes);
            let ghost sources = source_forest(children@);
            let mut kids: Vec<KotlinDslNode> = Vec::new();
            let mut i: usize = 0;
            proof {
                lemma_source_forest_index(children@);
            }
            while i < children.len()
                invariant
                    i <= children.len(),
                    *node matches SourceNode::Element { children: c, .. } && c == children,
                    sources == source_forest(children@),
                    sources.len() == children.len(),
                    forall|k: int| 0 <= k < children.len() ==> #[trigger] sources[k] == children[k]@,
                    trees_of(kids@) == built_forest(sources.take(i as int)),
                decreases children.len() - i,
            {
                let ghost before = kids@;
                assert(sources.take(i + 1).drop_last() =~= sources.take(i as int));
                match build_kotlin_node(&children[i]) {
                    Some(kid) => {
                        kids.push(kid);
                        assert(kids@.drop_last() =~= before);
                    },
                    None => {},
                }
                i = i + 1;
            }
            assert(sources.take(i as int) =~= sources);
            Some(KotlinDslNode::Tag { name: name.clone(), classes, attributes: plain, children: kids })
        },
        SourceNode::Text(raw) => build_text(raw.as_str()),
        SourceNode::Comment(raw) => build_comment(raw.as_str()),
    }
}

} // verus!
