//! The whole conversion: from a document's top-level nodes, or from its
//! HTML text, to the printed blocks.

use crate::builder::{build_kotlin_node, built_forest};
use crate::dom::{
    assembled_roots, bags_of, parsed_nodes, parsed_roots, read_document, FlatTree,
};
use crate::error::ConvertError;
use crate::render::{rendered_lines, KotlinDslIndentedNode};
use crate::source::{lemma_source_forest_index, source_forest, SourceNode, SourceTree};
use vstd::prelude::*;
use vstd::string::StringExecFns;

verus! {

/// The printed document: the block of every top-level node that builds to
/// something, in order, each followed by a line break.
pub open spec fn document_text(roots: Seq<SourceTree>) -> Seq<char> {
    rendered_lines(built_forest(roots), 0)
}

/// Prints the document whose top-level nodes are `roots`: builds each node
/// and prints those that build to something, in order.
pub fn render_document(roots: &Vec<SourceNode>) -> (text: String)
    ensures
        text@ == document_text(source_forest(roots@)),
{
    let ghost sources = source_forest(roots@);
    let mut out = String::new();
    let mut i: usize = 0;
    proof {
        lemma_source_forest_index(roots@);
    }
    while i < roots.len()
        invariant
            i <= roots.len(),
            sources == source_forest(roots@),
            sources.len() == roots.len(),
            forall|k: int| 0 <= k < roots.len() ==> #[trigger] sources[k] == roots[k]@,
            out@ == document_text(sources.take(i as int)),
        decreases roots.len() - i,
    {
        let ghost seen = sources.take(i as int);
        let ghost next = sources.take(i + 1);
        assert(next.drop_last() =~= seen);
        match build_kotlin_node(&roots[i]) {
            Some(node) => {
                KotlinDslIndentedNode { indent: 0, node: &node }.fmt(&mut out);
                out.append("\n");
                assert(built_forest(next).drop_last() =~= built_forest(seen));
            },
            None => {},
        }
        i = i + 1;
    }
    assert(sources.take(i as int) =~= sources);
    out
}

/// Converts an HTML document to its printed blocks. It fails exactly where
/// the input's length in bytes does not fit 32 bits. What it returns
/// otherwise is the printed text of the document that the parser makes of
/// the input: of the trees that its node table holds below its top-level
/// handles, for that table in some order of each tag's attributes.
pub fn convert(input: &str) -> (r: Result<String, ConvertError>)
    ensures
        match r {
            Ok(text) => input.len() <= u32::MAX && exists|table: Seq<FlatTree>|
                #[trigger] bags_of(table) == parsed_nodes(input@) && text@ == document_text(
                    assembled_roots(table, parsed_roots(input@)),
                ),
            Err(e) => input.len() > u32::MAX && e == ConvertError::InvalidLength,
        },
{
    match read_document(input) {
        Ok(document) => {
            let roots = document.top_level();
            Ok(render_document(&roots))
        },
        Err(e) => Err(e),
    }
}

} // verus!
