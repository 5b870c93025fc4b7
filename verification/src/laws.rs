//! Facts that hold of the tree builder and the serializer on every input.

use crate::builder::{
    built, built_forest, classes_value, comment_close, comment_open, comment_text, is_class,
    is_plain, plain_attributes,
};
use crate::convert::document_text;
use crate::node::{class_key, DslTree};
use crate::render::{rendered, rendered_lines};
use crate::source::{SourceAttribute, SourceTree};
use crate::text::{is_blank, lemma_trimmed_blank, spaces, trimmed};
use vstd::prelude::*;

verus! {

/// The tree builder treats a list of siblings piece by piece: what it makes
/// of two lists joined is what it makes of each, joined.
pub proof fn lemma_built_forest_concat(front: Seq<SourceTree>, back: Seq<SourceTree>)
    ensures
        built_forest(front + back) == built_forest(front) + built_forest(back),
    decreases back.len(),
{
    if back.len() > 0 {
        lemma_built_forest_concat(front, back.drop_last());
        assert((front + back).drop_last() =~= front + back.drop_last());
    }
}

/// An element always builds to a tag, whatever its attributes and children.
pub proof fn lemma_element_always_builds(
    name: Seq<char>,
    attributes: Seq<SourceAttribute>,
    children: Seq<SourceTree>,
)
    ensures
        built(SourceTree::Element { name, attributes, children }) matches Some(tree) && tree is Tag
            && tree->name == name,
{
}

/// Text that is all whitespace builds to nothing, and a list of siblings
/// builds to the same nodes, and a document prints the same text, with it
/// as without it, wherever it stands.
pub proof fn lemma_blank_text_is_dropped(
    raw: Seq<char>,
    before: Seq<SourceTree>,
    after: Seq<SourceTree>,
)
    requires
        is_blank(raw),
    ensures
        built(SourceTree::Text(raw)) is None,
        built_forest(before.push(SourceTree::Text(raw)) + after) == built_forest(before + after),
        document_text(before.push(SourceTree::Text(raw)) + after) == document_text(before + after),
{
    lemma_trimmed_blank(raw);
    let with_text = before.push(SourceTree::Text(raw));
    assert(with_text.drop_last() =~= before);
    lemma_built_forest_concat(with_text, after);
    lemma_built_forest_concat(before, after);
}

/// What the builder keeps of a single attribute.
proof fn lemma_single_attribute(a: SourceAttribute)
    ensures
        classes_value(seq![a]) == if is_class(a) {
            a.1
        } else {
            None
        },
        plain_attributes(seq![a]) == if is_plain(a) {
            seq![(a.0, a.1->0)]
        } else {
            Seq::empty()
        },
{
    let none = Seq::<SourceAttribute>::empty();
    let class_pred = |a: SourceAttribute| is_class(a);
    let plain_pred = |a: SourceAttribute| is_plain(a);
    none.lemma_filter_push(a, class_pred);
    none.lemma_filter_push(a, plain_pred);
}

/// What the builder keeps of an empty attribute list: nothing.
proof fn lemma_no_attributes()
    ensures
        classes_value(Seq::empty()) is None,
        plain_attributes(Seq::empty()) == Seq::<(Seq<char>, Seq<char>)>::empty(),
{
    let none = Seq::<SourceAttribute>::empty();
    none.lemma_filter_len(|a: SourceAttribute| is_class(a));
    none.lemma_filter_len(|a: SourceAttribute| is_plain(a));
}

/// An element whose only attribute is a "class" with a value, and which has
/// no children, is printed as its name and the classes annotation, with
/// neither `()` nor a block after it.
pub proof fn lemma_class_only_tag(name: Seq<char>, value: Seq<char>, indent: nat)
    ensures
        built(
            SourceTree::Element {
                name,
                attributes: seq![(class_key(), Some(value))],
                children: Seq::empty(),
            },
        ) == Some(
            DslTree::Tag {
                name,
                classes: Some(value),
                attributes: Seq::empty(),
                children: Seq::empty(),
            },
        ),
        rendered(
            DslTree::Tag {
                name,
                classes: Some(value),
                attributes: Seq::empty(),
                children: Seq::empty(),
            },
            indent,
        ) == spaces(indent) + name + "(classes=\""@ + value + "\")"@,
        rendered(
            DslTree::Tag {
                name,
                classes: Some(value),
                attributes: Seq::empty(),
                children: Seq::empty(),
            },
            0,
        ) == name + "(classes=\""@ + value + "\")"@,
{
    lemma_single_attribute((class_key(), Some(value)));
}

/// An element without attributes and without children is printed as its
/// name followed by `()`.
pub proof fn lemma_bare_tag(name: Seq<char>, indent: nat)
    ensures
        built(SourceTree::Element { name, attributes: Seq::empty(), children: Seq::empty() })
            == Some(
            DslTree::Tag {
                name,
                classes: None,
                attributes: Seq::empty(),
                children: Seq::empty(),
            },
        ),
        rendered(
            DslTree::Tag {
                name,
                classes: None,
                attributes: Seq::empty(),
                children: Seq::empty(),
            },
            indent,
        ) == spaces(indent) + name + "()"@,
        rendered(
            DslTree::Tag {
                name,
                classes: None,
                attributes: Seq::empty(),
                children: Seq::empty(),
            },
            0,
        ) == name + "()"@,
{
    lemma_no_attributes();
}

/// A tag with children and no attributes is printed as its name and an
/// opening brace on one line, then each child on lines of its own one
/// level deeper, then a closing brace at the tag's own level; no attribute
/// line stands between.
pub proof fn lemma_tag_with_children_only(name: Seq<char>, children: Seq<DslTree>, indent: nat)
    requires
        children.len() > 0,
    ensures
        rendered(
            DslTree::Tag { name, classes: None, attributes: Seq::empty(), children },
            indent,
        ) == spaces(indent) + name + " {\n"@ + rendered_lines(children, indent + 1) + spaces(
            indent,
        ) + "}"@,
{
}

/// The lines of a list of siblings are the line of each, in order: the
/// node's text and a line break.
pub proof fn lemma_rendered_lines_by_node(trees: Seq<DslTree>, indent: nat)
    ensures
        rendered_lines(trees, indent) == trees.map_values(
            |tree: DslTree| rendered(tree, indent) + "\n"@,
        ).flatten(),
    decreases trees.len(),
{
    let line = |tree: DslTree| rendered(tree, indent) + "\n"@;
    if trees.len() > 0 {
        lemma_rendered_lines_by_node(trees.drop_last(), indent);
        let before = trees.drop_last().map_values(line);
        assert(trees.map_values(line) =~= before.push(line(trees.last())));
        before.lemma_flatten_push(line(trees.last()));
    }
}

/// A comment written between its delimiters is kept as the trimmed text
/// between them and printed after `// `; where nothing but whitespace
/// stands between them, nothing is kept.
pub proof fn lemma_delimited_comment(body: Seq<char>, indent: nat)
    ensures
        comment_text(comment_open() + body + comment_close()) == trimmed(body),
        built(SourceTree::Comment(comment_open() + body + comment_close())) == if trimmed(
            body,
        ).len() == 0 {
            None
        } else {
            Some(DslTree::Comment(trimmed(body)))
        },
        rendered(DslTree::Comment(trimmed(body)), indent) == spaces(indent) + "// "@ + trimmed(
            body,
        ),
{
    reveal_strlit("<!--");
    reveal_strlit("-->");
    let raw = comment_open() + body + comment_close();
    let rest = raw.skip(comment_open().len() as int);
    assert(rest.take(rest.len() - comment_close().len()) =~= body);
}

/// Of two "class" attributes the first gives the classes value, and the
/// second is kept nowhere: the element is printed with the first value
/// alone.
pub proof fn lemma_first_class_wins(
    name: Seq<char>,
    first: Seq<char>,
    second: Seq<char>,
    indent: nat,
)
    ensures
        built(
            SourceTree::Element {
                name,
                attributes: seq![(class_key(), Some(first)), (class_key(), Some(second))],
                children: Seq::empty(),
            },
        ) == Some(
            DslTree::Tag {
                name,
                classes: Some(first),
                attributes: Seq::empty(),
                children: Seq::empty(),
            },
        ),
        rendered(
            DslTree::Tag {
                name,
                classes: Some(first),
                attributes: Seq::empty(),
                children: Seq::empty(),
            },
            indent,
        ) == spaces(indent) + name + "(classes=\""@ + first + "\")"@,
{
    let a: SourceAttribute = (class_key(), Some(first));
    let b: SourceAttribute = (class_key(), Some(second));
    let class_pred = |a: SourceAttribute| is_class(a);
    let plain_pred = |a: SourceAttribute| is_plain(a);
    assert(seq![a, b] =~= seq![a].push(b));
    seq![a].lemma_filter_push(b, class_pred);
    seq![a].lemma_filter_push(b, plain_pred);
    lemma_class_only_tag(name, first, indent);
}

} // verus!
