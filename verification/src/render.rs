//! The serializer: from an intermediate node to indented text.

use crate::node::{
    lemma_trees_of_index, option_view, pairs_view, trees_of, DslTree, KotlinDslNode,
};
use crate::text::{spaces, write_indent};
use vstd::prelude::*;
use vstd::string::StringExecFns;

verus! {

/// The annotation that follows a tag's name where it has a classes value.
pub open spec fn classes_annotation(classes: Option<Seq<char>>) -> Seq<char> {
    match classes {
        Some(value) => "(classes=\""@ + value + "\")"@,
        None => Seq::empty(),
    }
}

/// One attribute on a line of its own.
pub open spec fn attribute_line(attribute: (Seq<char>, Seq<char>), indent: nat) -> Seq<char> {
    spaces(indent) + attribute.0 + "=\""@ + attribute.1 + "\"\n"@
}

/// The attributes in order, one per line.
pub open spec fn attribute_lines(attributes: Seq<(Seq<char>, Seq<char>)>, indent: nat) -> Seq<
    char,
>
    decreases attributes.len(),
{
    if attributes.len() == 0 {
        Seq::empty()
    } else {
        attribute_lines(attributes.drop_last(), indent) + attribute_line(attributes.last(), indent)
    }
}

/// The text of one node at an indent level, without a final line break.
pub open spec fn rendered(tree: DslTree, indent: nat) -> Seq<char>
    decreases tree,
{
    match tree {
        DslTree::Tag { name, classes, attributes, children } => {
            let head = spaces(indent) + name + classes_annotation(classes);
            if attributes.len() == 0 && children.len() == 0 {
                if classes is None {
                    head + "()"@
                } else {
                    head
                }
            } else {
                head + " {\n"@ + attribute_lines(attributes, indent + 1) + rendered_lines(
                    children,
                    indent + 1,
                ) + spaces(indent) + "}"@
            }
        },
        DslTree::Text(content) => spaces(indent) + "+\""@ + content + "\""@,
        DslTree::Comment(content) => spaces(indent) + "// "@ + content,
    }
}

/// The texts of a list of nodes in order, each followed by a line break.
pub open spec fn rendered_lines(trees: Seq<DslTree>, indent: nat) -> Seq<char>
    decreases trees,
{
    if trees.len() == 0 {
        Seq::empty()
    } else {
        rendered_lines(trees.drop_last(), indent) + rendered(trees.last(), indent) + "\n"@
    }
}

/// Appends the text of `node` to `f`, with `prefix` as the indentation of
/// its own level.
fn write_node(f: &mut String, node: &KotlinDslNode, prefix: &str)
    requires
        prefix@ == spaces(prefix@.len()),
    ensures
        final(f)@ == old(f)@ + rendered(node@, prefix@.len()),
    decreases node,
{
    let ghost start = f@;
    let ghost indent = prefix@.len();
    f.append(prefix);
    match node {
        KotlinDslNode::Tag { name, classes, attributes, children } => {
            let ghost pairs = pairs_view(attributes@);
            let ghost kids = trees_of(children@);
            f.append(name.as_str());
            match classes {
                Some(value) => {
                    f.append("(classes=\"");
                    f.append(value.as_str());
                    f.append("\")");
                },
                None => {},
            }
            let ghost head = spaces(indent) + name@ + classes_annotation(option_view(*classes));
            if attributes.len() == 0 && children.len() == 0 {
                if classes.is_none() {
                    f.append("()");
                }
                return ;
            }
            f.append(" {\n");
            let ghost opened = head + " {\n"@;
            let mut deeper = prefix.to_owned();
            deeper.append(" ");
            proof {
                reveal_strlit(" ");
            }
            let mut i: usize = 0;
            while i < attributes.len()
                invariant
                    i <= attributes.len(),
                    deeper@ == spaces(indent + 1),
                    pairs == pairs_view(attributes@),
                    f@ == start + opened + attribute_lines(pairs.take(i as int), indent + 1),
                decreases attributes.len() - i,
            {
                assert(pairs.take(i + 1).drop_last() =~= pairs.take(i as int));
                f.append(deeper.as_str());
                f.append(attributes[i].0.as_str());
                f.append("=\"");
                f.append(attributes[i].1.as_str());
                f.append("\"\n");
                i = i + 1;
            }
            assert(pairs.take(i as int) =~= pairs);
            let ghost listed = opened + attribute_lines(pairs, indent + 1);
            let mut j: usize = 0;
            proof {
                lemma_trees_of_index(children@);
            }
            while j < children.len()
                invariant
                    j <= children.len(),
                    deeper@ == spaces(indent + 1),
                    deeper@.len() == indent + 1,
                    *node matches KotlinDslNode::Tag { children: c, .. } && c == children,
                    kids == trees_of(children@),
                    kids.len() == children.len(),
                    forall|k: int| 0 <= k < children.len() ==> #[trigger] kids[k] == children[k]@,
                    f@ == start + listed + rendered_lines(kids.take(j as int), indent + 1),
                decreases children.len() - j,
            {
                assert(kids.take(j + 1).drop_last() =~= kids.take(j as int));
                write_node(f, &children[j], deeper.as_str());
                f.append("\n");
                j = j + 1;
            }
            assert(kids.take(j as int) =~= kids);
            f.append(prefix);
            f.append("}");
        },
        KotlinDslNode::String(content) => {
            f.append("+\"");
            f.append(content.as_str());
            f.append("\"");
        },
        KotlinDslNode::Comment(content) => {
            f.append("// ");
            f.append(content.as_str());
        },
    }
}

/// A node together with the indent level it is printed at.
pub struct KotlinDslIndentedNode<'a> {
    pub indent: u16,
    pub node: &'a KotlinDslNode,
}

impl<'a> KotlinDslIndentedNode<'a> {
    /// The text of the node at its indent level.
    pub open spec fn text(&self) -> Seq<char> {
        rendered(self.node@, self.indent as nat)
    }

    /// Appends the node's text to `f`.
    pub fn fmt(&self, f: &mut String)
        ensures
            final(f)@ == old(f)@ + self.text(),
    {
        let mut prefix = String::new();
        write_indent(&mut prefix, self.indent);
        write_node(f, self.node, prefix.as_str());
    }

    /// The node's text at its indent level as a new string.
    pub fn render(&self) -> (s: String)
        ensures
            s@ == self.text(),
    {
        let mut out = String::new();
        self.fmt(&mut out);
        out
    }
}

} // verus!
