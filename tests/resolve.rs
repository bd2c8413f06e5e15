use std::cell::Cell;
use std::io::{Error, ErrorKind};

use site_content::error::MarkdownError;
use site_content::path::check_path;
use site_content::resolve::{
    blog_post_path, doc_index_file_path, doc_page_path, get_blog_post, get_doc_index, get_doc_page,
    parse_markdown_file, read_failure,
};

const POST: &str = "---\ntitle: Post\ndate: 2024-01-01\n---\nHello *world*";

#[test]
fn traversal_is_rejected_before_any_read() {
    let reads = Cell::new(0usize);
    let read = |_: &str| -> std::io::Result<String> {
        reads.set(reads.get() + 1);
        Ok(POST.to_string())
    };
    assert!(matches!(get_blog_post("../secret", &read), Err(MarkdownError::InvalidPath)));
    assert!(matches!(get_doc_page("a..b", "x", &read), Err(MarkdownError::InvalidPath)));
    assert!(matches!(get_doc_page("guide", "..", &read), Err(MarkdownError::InvalidPath)));
    assert!(matches!(get_doc_index(Some(".."), &read), Err(MarkdownError::InvalidPath)));
    assert!(matches!(parse_markdown_file("/etc/passwd", &read), Err(MarkdownError::InvalidPath)));
    assert!(matches!(parse_markdown_file("content/../x.md", &read), Err(MarkdownError::InvalidPath)));
    assert_eq!(reads.get(), 0);
}

#[test]
fn safe_paths_are_read_once() {
    let reads = Cell::new(0usize);
    let read = |p: &str| -> std::io::Result<String> {
        reads.set(reads.get() + 1);
        assert_eq!(p, "content/blog/hello.md");
        Ok(POST.to_string())
    };
    let doc = get_blog_post("hello", &read).unwrap();
    assert_eq!(reads.get(), 1);
    assert_eq!(doc.frontmatter.title, "Post");
    assert!(doc.html.contains("<em>world</em>"));
}

#[test]
fn path_check_decides_safety() {
    assert!(check_path("content/blog/a.md"));
    assert!(check_path(""));
    assert!(check_path("a.b/c.d"));
    assert!(!check_path("/abs"));
    assert!(!check_path(".."));
    assert!(!check_path("x/y..z"));
}

#[test]
fn paths_are_built_from_segments() {
    assert_eq!(blog_post_path("first"), "content/blog/first.md");
    assert_eq!(doc_page_path("guide", "intro"), "content/docs/guide/intro.md");
    assert_eq!(doc_index_file_path(Some("guide")), "content/docs/guide/index.md");
    assert_eq!(doc_index_file_path(None), "content/docs/index.md");
}

#[test]
fn doc_lookups_read_the_expected_files() {
    let read = |p: &str| -> std::io::Result<String> { Ok(format!("---\ntitle: \"{}\"\n---\n", p)) };
    assert_eq!(get_doc_page("guide", "intro", &read).unwrap().frontmatter.title, "content/docs/guide/intro.md");
    assert_eq!(get_doc_index(Some("guide"), &read).unwrap().frontmatter.title, "content/docs/guide/index.md");
    assert_eq!(get_doc_index(None, &read).unwrap().frontmatter.title, "content/docs/index.md");
}

#[test]
fn missing_file_is_not_found() {
    let read = |_: &str| -> std::io::Result<String> { Err(Error::new(ErrorKind::NotFound, "gone")) };
    assert!(matches!(get_blog_post("nope", &read), Err(MarkdownError::NotFound)));
}

#[test]
fn other_read_failures_are_parse_errors() {
    let read = |_: &str| -> std::io::Result<String> { Err(Error::new(ErrorKind::PermissionDenied, "denied")) };
    match get_blog_post("locked", &read) {
        Err(MarkdownError::ParseError(m)) => assert!(m.contains("denied")),
        _ => panic!("expected a parse error"),
    }
}

#[test]
fn read_failure_maps_kinds() {
    assert!(matches!(read_failure(true, "x".to_string()), MarkdownError::NotFound));
    match read_failure(false, "boom".to_string()) {
        MarkdownError::ParseError(m) => assert_eq!(m, "boom"),
        _ => panic!("expected a parse error"),
    }
}

#[test]
fn untitled_file_fails_to_resolve() {
    let read = |_: &str| -> std::io::Result<String> { Ok("---\ndescription: d\n---\nbody".to_string()) };
    assert!(matches!(get_blog_post("untitled", &read), Err(MarkdownError::ParseError(_))));
    let read = |_: &str| -> std::io::Result<String> { Ok("plain text".to_string()) };
    assert!(matches!(get_doc_index(None, &read), Err(MarkdownError::ParseError(_))));
}

#[test]
fn missing_front_matter_block_fails_to_resolve() {
    let read = |_: &str| -> std::io::Result<String> { Ok("# Hello\nbody\n".to_string()) };
    match get_blog_post("plain", &read) {
        Err(MarkdownError::ParseError(m)) => assert_eq!(m, "missing frontmatter"),
        _ => panic!("expected a parse error"),
    }
}

#[test]
fn badly_typed_field_fails_to_resolve() {
    let read = |_: &str| -> std::io::Result<String> { Ok("---\ntitle: T\ntags: 5\n---\nx\n".to_string()) };
    assert!(matches!(get_blog_post("typed", &read), Err(MarkdownError::ParseError(_))));
}

#[test]
fn resolved_front_matter_round_trips() {
    let read = |_: &str| -> std::io::Result<String> {
        Ok("---\ntitle: T\ndescription: D\ndate: '2024-01-01'\nauthor: A\ntags: [b, a, b]\n---\nbody\n".to_string())
    };
    let fm = get_blog_post("full", &read).unwrap().frontmatter;
    assert_eq!(fm.title, "T");
    assert_eq!(fm.description.as_deref(), Some("D"));
    assert_eq!(fm.date.as_deref(), Some("2024-01-01"));
    assert_eq!(fm.author.as_deref(), Some("A"));
    assert_eq!(fm.tags, Some(vec!["b".to_string(), "a".to_string(), "b".to_string()]));
}
