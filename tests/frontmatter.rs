use site_content::document::{document_from_parts, parse_document, render_markdown};
use site_content::error::MarkdownError;
use site_content::frontmatter::Frontmatter;
use site_content::yaml::YamlValue;

fn text(s: &str) -> YamlValue {
    YamlValue::Text(s.to_string())
}

fn entry(k: &str, v: YamlValue) -> (String, YamlValue) {
    (k.to_string(), v)
}

#[test]
fn round_trip_keeps_every_field() {
    let fm = Frontmatter {
        title: "Hello".to_string(),
        description: Some("A post".to_string()),
        date: Some("2024-06-01".to_string()),
        author: None,
        tags: Some(vec!["rust".to_string(), "web".to_string()]),
    };
    let back = Frontmatter::from_yaml(&fm.to_yaml()).unwrap();
    assert_eq!(back.title, "Hello");
    assert_eq!(back.description.as_deref(), Some("A post"));
    assert_eq!(back.date.as_deref(), Some("2024-06-01"));
    assert_eq!(back.author, None);
    assert_eq!(back.tags, Some(vec!["rust".to_string(), "web".to_string()]));
}

#[test]
fn round_trip_after_parsing_text() {
    let doc = parse_document("---\ntitle: Guide\nauthor: Ann\ntags:\n  - a\n  - b\n---\nBody").unwrap();
    let again = Frontmatter::from_yaml(&doc.frontmatter.to_yaml()).unwrap();
    assert_eq!(again.title, "Guide");
    assert_eq!(again.author.as_deref(), Some("Ann"));
    assert_eq!(again.description, None);
    assert_eq!(again.date, None);
    assert_eq!(again.tags, Some(vec!["a".to_string(), "b".to_string()]));
}

#[test]
fn mapping_reads_fields_by_key() {
    let v = YamlValue::Mapping(vec![
        entry("tags", YamlValue::Null),
        entry("extra", YamlValue::Integer(3)),
        entry("title", text("T")),
        entry("date", text("2024-01-01")),
    ]);
    let fm = Frontmatter::from_yaml(&v).unwrap();
    assert_eq!(fm.title, "T");
    assert_eq!(fm.date.as_deref(), Some("2024-01-01"));
    assert_eq!(fm.tags, None);
}

#[test]
fn missing_title_is_a_parse_error() {
    let v = YamlValue::Mapping(vec![entry("description", text("d"))]);
    assert!(matches!(Frontmatter::from_yaml(&v), Err(MarkdownError::ParseError(_))));
}

#[test]
fn non_text_title_is_a_parse_error() {
    let v = YamlValue::Mapping(vec![entry("title", YamlValue::Integer(7))]);
    assert!(matches!(Frontmatter::from_yaml(&v), Err(MarkdownError::ParseError(_))));
    let v = YamlValue::Mapping(vec![entry("title", YamlValue::Null)]);
    assert!(matches!(Frontmatter::from_yaml(&v), Err(MarkdownError::ParseError(_))));
}

#[test]
fn tags_must_all_be_text() {
    let v = YamlValue::Mapping(vec![
        entry("title", text("T")),
        entry("tags", YamlValue::Sequence(vec![text("a"), YamlValue::Boolean(true)])),
    ]);
    assert!(matches!(Frontmatter::from_yaml(&v), Err(MarkdownError::ParseError(_))));
    let v = YamlValue::Mapping(vec![entry("title", text("T")), entry("tags", text("a"))]);
    assert!(matches!(Frontmatter::from_yaml(&v), Err(MarkdownError::ParseError(_))));
}

#[test]
fn sequence_front_matter_is_a_parse_error() {
    let v = YamlValue::Sequence(vec![text("T"), YamlValue::Null, text("d"), YamlValue::Null, YamlValue::Null]);
    assert!(matches!(Frontmatter::from_yaml(&v), Err(MarkdownError::ParseError(_))));
}

#[test]
fn scalar_front_matter_is_a_parse_error() {
    assert!(matches!(Frontmatter::from_yaml(&text("x")), Err(MarkdownError::ParseError(_))));
}

#[test]
fn absent_front_matter_is_reported() {
    match parse_document("# Just a heading\n") {
        Err(MarkdownError::ParseError(m)) => assert_eq!(m, "missing frontmatter"),
        other => panic!("unexpected: {:?}", other.map(|d| d.html)),
    }
    match document_from_parts(None, "body") {
        Err(MarkdownError::ParseError(m)) => assert_eq!(m, "missing frontmatter"),
        _ => panic!("expected a parse error"),
    }
}

#[test]
fn document_without_title_fails() {
    assert!(matches!(
        parse_document("---\ndescription: no title\n---\nBody"),
        Err(MarkdownError::ParseError(_))
    ));
}

#[test]
fn document_body_is_rendered() {
    let doc = parse_document("---\ntitle: Hi\n---\n# Head\n\nText").unwrap();
    assert_eq!(doc.frontmatter.title, "Hi");
    assert!(doc.html.contains("<h1>Head</h1>"));
    assert!(doc.html.contains("<p>Text</p>"));
    assert!(!doc.html.contains("title: Hi"));
}

#[test]
fn markdown_extensions_are_enabled() {
    let html = render_markdown("~~strike~~\n\n| a | b |\n|---|---|\n| 1 | 2 |\n\n- [ ] task\n\n\"quoted\" -- dash\n");
    assert!(html.contains("<del>strike</del>"));
    assert!(html.contains("<table>"));
    assert!(html.contains("<td>1</td>"));
    assert!(html.contains("type=\"checkbox\""));
    assert!(html.contains("\u{201c}quoted\u{201d}"));
    assert!(html.contains("\u{2013}"));
}

#[test]
fn rendering_is_deterministic() {
    let md = "Some *text* and `code`.";
    assert_eq!(render_markdown(md), render_markdown(md));
    assert_eq!(render_markdown(md), "<p>Some <em>text</em> and <code>code</code>.</p>\n");
}

#[test]
fn empty_title_is_a_parse_error() {
    let v = YamlValue::Mapping(vec![entry("title", text(""))]);
    assert!(matches!(Frontmatter::from_yaml(&v), Err(MarkdownError::ParseError(_))));
    assert!(parse_document("---\ntitle: \"\"\n---\nBody").is_err());
}
