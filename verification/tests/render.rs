use html2kotlin::node::KotlinDslNode;
use html2kotlin::render::KotlinDslIndentedNode;
use html2kotlin::text::write_indent;

fn tag(
    name: &str,
    classes: Option<&str>,
    attributes: Vec<(&str, &str)>,
    children: Vec<KotlinDslNode>,
) -> KotlinDslNode {
    KotlinDslNode::Tag {
        name: name.to_string(),
        classes: classes.map(|c| c.to_string()),
        attributes: attributes.into_iter().map(|(k, v)| (k.to_string(), v.to_string())).collect(),
        children,
    }
}

fn string(s: &str) -> KotlinDslNode {
    KotlinDslNode::String(s.to_string())
}

fn comment(s: &str) -> KotlinDslNode {
    KotlinDslNode::Comment(s.to_string())
}

fn render_at(node: &KotlinDslNode, indent: u16) -> String {
    KotlinDslIndentedNode { indent, node }.render()
}

#[test]
fn write_indent_appends_spaces() {
    let mut buffer = String::from("x");
    write_indent(&mut buffer, 0);
    assert_eq!(buffer, "x");
    write_indent(&mut buffer, 3);
    assert_eq!(buffer, "x   ");
    write_indent(&mut buffer, 1);
    assert_eq!(buffer, "x    ");
}

#[test]
fn write_indent_writes_many_levels() {
    let mut buffer = String::new();
    write_indent(&mut buffer, 1000);
    assert_eq!(buffer.len(), 1000);
    assert!(buffer.chars().all(|c| c == ' '));
}

#[test]
fn tag_with_class_only_has_no_parens_or_braces() {
    assert_eq!(render_at(&tag("div", Some("value"), vec![], vec![]), 0), "div(classes=\"value\")");
}

#[test]
fn bare_tag_renders_with_parens() {
    assert_eq!(render_at(&tag("span", None, vec![], vec![]), 0), "span()");
}

#[test]
fn tag_with_children_and_no_attributes() {
    let node = tag("ul", None, vec![], vec![string("a"), tag("li", None, vec![], vec![]), comment("c")]);
    assert_eq!(render_at(&node, 0), "ul {\n +\"a\"\n li()\n // c\n}");
}

#[test]
fn tag_with_attributes_and_no_children() {
    let node = tag("a", None, vec![("href", "/x"), ("id", "i")], vec![]);
    assert_eq!(render_at(&node, 0), "a {\n href=\"/x\"\n id=\"i\"\n}");
}

#[test]
fn tag_with_classes_attributes_and_children() {
    let node = tag("a", Some("k l"), vec![("href", "/x")], vec![string("go")]);
    assert_eq!(render_at(&node, 0), "a(classes=\"k l\") {\n href=\"/x\"\n +\"go\"\n}");
}

#[test]
fn text_is_quoted_without_escaping() {
    assert_eq!(render_at(&string("Hi"), 0), "+\"Hi\"");
    assert_eq!(render_at(&string("say \"hi\" \\ now"), 0), "+\"say \"hi\" \\ now\"");
}

#[test]
fn attribute_values_are_not_escaped() {
    let node = tag("p", Some("a\"b"), vec![("title", "x\"y")], vec![]);
    assert_eq!(render_at(&node, 0), "p(classes=\"a\"b\") {\n title=\"x\"y\"\n}");
}

#[test]
fn comment_renders_after_slashes() {
    assert_eq!(render_at(&comment("hello"), 0), "// hello");
}

#[test]
fn indent_prefixes_the_first_line_and_nested_lines() {
    let node = tag("div", None, vec![("id", "x")], vec![tag("p", None, vec![], vec![string("Hi")])]);
    assert_eq!(
        render_at(&node, 2),
        "  div {\n   id=\"x\"\n   p {\n    +\"Hi\"\n   }\n  }"
    );
    assert_eq!(render_at(&string("t"), 4), "    +\"t\"");
    assert_eq!(render_at(&comment("c"), 1), " // c");
    assert_eq!(render_at(&tag("br", None, vec![], vec![]), 3), "   br()");
}

#[test]
fn fmt_appends_to_what_is_there() {
    let node = tag("b", None, vec![], vec![]);
    let mut out = String::from(">>");
    KotlinDslIndentedNode { indent: 1, node: &node }.fmt(&mut out);
    assert_eq!(out, ">> b()");
}

#[test]
fn children_of_the_last_level_are_one_deeper() {
    let node = tag("div", None, vec![("id", "i")], vec![tag("p", None, vec![], vec![string("x")])]);
    let text = render_at(&node, u16::MAX);
    let lines: Vec<&str> = text.split('\n').collect();
    assert_eq!(lines.len(), 6);
    assert_eq!(lines[0].len(), 65535 + "div {".len());
    assert_eq!(lines[1].len(), 65536 + "id=\"i\"".len());
    assert_eq!(lines[2].len(), 65536 + "p {".len());
    assert_eq!(lines[3].len(), 65537 + "+\"x\"".len());
    assert_eq!(lines[4].len(), 65536 + "}".len());
    assert_eq!(lines[5].len(), 65535 + "}".len());
    assert!(lines[3].ends_with(" +\"x\""));
    assert!(lines[3].trim_start_matches(' ') == "+\"x\"");
}
