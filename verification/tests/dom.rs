use html2kotlin::dom::{read_document, Document, FlatNode};
use html2kotlin::source::SourceNode;

fn flat_tag(name: &str, attributes: Vec<(&str, Option<&str>)>, children: Vec<u32>) -> FlatNode {
    FlatNode::Tag {
        name: name.to_string(),
        attributes: attributes
            .into_iter()
            .map(|(k, v)| (k.to_string(), v.map(|v| v.to_string())))
            .collect(),
        children,
    }
}

fn raw(s: &str) -> FlatNode {
    FlatNode::Raw(s.to_string())
}

fn element(name: &str, children: Vec<SourceNode>) -> SourceNode {
    SourceNode::Element { name: name.to_string(), attributes: vec![], children }
}

fn text(s: &str) -> SourceNode {
    SourceNode::Text(s.to_string())
}

#[test]
fn tree_follows_child_handles() {
    let document = Document {
        nodes: vec![
            flat_tag("div", vec![("class", Some("a")), ("hidden", None)], vec![1, 3]),
            flat_tag("p", vec![], vec![2]),
            raw("Hi"),
            FlatNode::Comment("<!-- c -->".to_string()),
        ],
        roots: vec![0],
    };
    assert_eq!(
        document.tree(0),
        Some(SourceNode::Element {
            name: "div".to_string(),
            attributes: vec![
                ("class".to_string(), Some("a".to_string())),
                ("hidden".to_string(), None)
            ],
            children: vec![
                element("p", vec![text("Hi")]),
                SourceNode::Comment("<!-- c -->".to_string())
            ],
        })
    );
    assert_eq!(document.tree(1), Some(element("p", vec![text("Hi")])));
    assert_eq!(document.tree(2), Some(text("Hi")));
}

#[test]
fn tree_of_a_handle_outside_the_table_is_none() {
    let document = Document { nodes: vec![raw("a")], roots: vec![] };
    assert_eq!(document.tree(1), None);
    assert_eq!(document.tree(u32::MAX), None);
    let empty = Document { nodes: vec![], roots: vec![] };
    assert_eq!(empty.tree(0), None);
}

#[test]
fn child_handles_that_do_not_point_forward_name_no_child() {
    let document = Document {
        nodes: vec![raw("first"), flat_tag("div", vec![], vec![1, 0, 2, 7, 3]), raw("x"), raw("y")],
        roots: vec![1],
    };
    assert_eq!(document.tree(1), Some(element("div", vec![text("x"), text("y")])));
}

#[test]
fn top_level_lists_the_roots_in_order() {
    let document = Document {
        nodes: vec![raw("a"), flat_tag("b", vec![], vec![2]), raw("c"), raw("d")],
        roots: vec![3, 9, 0, 1],
    };
    assert_eq!(
        document.top_level(),
        vec![text("d"), text("a"), element("b", vec![text("c")])]
    );
    let none = Document { nodes: vec![raw("a")], roots: vec![] };
    assert_eq!(none.top_level(), vec![]);
}

#[test]
fn read_document_copies_the_parsed_nodes() {
    let document = read_document("<div class=\"a\"><p>Hi</p></div>").unwrap();
    assert_eq!(
        document,
        Document {
            nodes: vec![
                flat_tag("div", vec![("class", Some("a"))], vec![1]),
                flat_tag("p", vec![], vec![2]),
                raw("Hi"),
            ],
            roots: vec![0],
        }
    );
}

#[test]
fn read_document_keeps_comments_with_their_delimiters() {
    let document = read_document("<!-- note --><span></span>").unwrap();
    assert_eq!(
        document,
        Document {
            nodes: vec![FlatNode::Comment("<!-- note -->".to_string()), flat_tag("span", vec![], vec![])],
            roots: vec![0, 1],
        }
    );
}

#[test]
fn read_document_reports_attributes_without_value() {
    let document = read_document("<input type=\"text\" disabled>").unwrap();
    assert_eq!(document.roots, vec![0]);
    assert_eq!(document.nodes.len(), 1);
    match &document.nodes[0] {
        FlatNode::Tag { name, attributes, children } => {
            assert_eq!(name, "input");
            assert!(children.is_empty());
            let mut sorted = attributes.clone();
            sorted.sort();
            assert_eq!(
                sorted,
                vec![
                    ("disabled".to_string(), None),
                    ("type".to_string(), Some("text".to_string()))
                ]
            );
        }
        other => panic!("expected a tag, found {:?}", other),
    }
}

#[test]
fn read_document_of_empty_input_is_empty() {
    let document = read_document("").unwrap();
    assert!(document.nodes.is_empty());
    assert!(document.roots.is_empty());
}
