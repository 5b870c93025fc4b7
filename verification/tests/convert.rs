use html2kotlin::convert::{convert, render_document};
use html2kotlin::source::SourceNode;

fn text(s: &str) -> SourceNode {
    SourceNode::Text(s.to_string())
}

fn element(name: &str, attributes: Vec<(&str, Option<&str>)>, children: Vec<SourceNode>) -> SourceNode {
    SourceNode::Element {
        name: name.to_string(),
        attributes: attributes
            .into_iter()
            .map(|(k, v)| (k.to_string(), v.map(|v| v.to_string())))
            .collect(),
        children,
    }
}

#[test]
fn nested_document_end_to_end() {
    assert_eq!(
        convert("<div class=\"a\"><p>Hi</p></div>"),
        Ok("div(classes=\"a\") {\n p {\n  +\"Hi\"\n }\n}\n".to_string())
    );
}

#[test]
fn comment_and_bare_tag_end_to_end() {
    assert_eq!(convert("<!-- note --><span></span>"), Ok("// note\nspan()\n".to_string()));
}

#[test]
fn comment_hello_end_to_end() {
    assert_eq!(convert("<!-- hello -->"), Ok("// hello\n".to_string()));
}

#[test]
fn whitespace_between_tags_never_appears() {
    assert_eq!(
        convert("  \n<ul>\n  <li>one</li>\n  <li> two </li>\n</ul>\n\n"),
        Ok("ul {\n li {\n  +\"one\"\n }\n li {\n  +\"two\"\n }\n}\n".to_string())
    );
    assert_eq!(convert(" \n\t "), Ok(String::new()));
}

#[test]
fn empty_input_gives_empty_output() {
    assert_eq!(convert(""), Ok(String::new()));
}

#[test]
fn attributes_end_to_end() {
    assert_eq!(
        convert("<a href=\"/x\" class=\"k\">go</a>"),
        Ok("a(classes=\"k\") {\n href=\"/x\"\n +\"go\"\n}\n".to_string())
    );
    assert_eq!(convert("<input disabled>"), Ok("input()\n".to_string()));
    assert_eq!(convert("<p class=\"only\"></p>"), Ok("p(classes=\"only\")\n".to_string()));
}

#[test]
fn render_document_prints_each_top_level_node() {
    let roots = vec![
        text("  "),
        SourceNode::Comment("<!-- note -->".to_string()),
        element("span", vec![], vec![]),
        text(" tail "),
    ];
    assert_eq!(render_document(&roots), "// note\nspan()\n+\"tail\"\n");
    assert_eq!(render_document(&vec![]), "");
}

#[test]
fn render_document_uses_first_class_only() {
    let roots = vec![element("div", vec![("class", Some("a")), ("class", Some("b"))], vec![])];
    let out = render_document(&roots);
    assert_eq!(out, "div(classes=\"a\")\n");
    assert!(!out.contains('b'));
}
