use vstd::prelude::*;
use crate::document::{document_outcome, parse_document, MarkdownContent};
use crate::error::MarkdownError;
use crate::path::{check_path, dots_at, has_parent_segment, is_safe_path};

verus! {

/// `std::io::Error`, as a reader of content files reports it.
#[verifier::external_type_specification]
#[verifier::external_body]
pub struct ExIoError(std::io::Error);

/// Relies on `std::io::Error::kind`: whether the error is `ErrorKind::NotFound`.
#[verifier::external_body]
fn io_not_found(e: &std::io::Error) -> bool {
    e.kind() == std::io::ErrorKind::NotFound
}

/// Relies on `std::io::Error`'s `Display`: a message describing the error.
#[verifier::external_body]
fn io_message(e: &std::io::Error) -> String {
    e.to_string()
}

/// The error for a failed read: `NotFound` when the file is absent, else a `ParseError`
/// carrying `detail`.
pub fn read_failure(not_found: bool, detail: String) -> (r: MarkdownError)
    ensures
        not_found ==> r is NotFound,
        !not_found ==> r == MarkdownError::ParseError(detail),
{
    if not_found {
        MarkdownError::NotFound
    } else {
        MarkdownError::ParseError(detail)
    }
}

impl MarkdownError {
    /// Maps an I/O error from reading a content file as `read_failure` does.
    pub fn from_io(e: std::io::Error) -> (r: MarkdownError)
        ensures
            r is NotFound || r is ParseError,
    {
        let not_found = io_not_found(&e);
        read_failure(not_found, io_message(&e))
    }
}

/// `content/blog/{slug}.md`
pub open spec fn blog_path(slug: Seq<char>) -> Seq<char> {
    "content/blog/"@ + slug + ".md"@
}

/// `content/docs/{folder}/{slug}.md`
pub open spec fn doc_path(folder: Seq<char>, slug: Seq<char>) -> Seq<char> {
    "content/docs/"@ + folder + "/"@ + slug + ".md"@
}

/// `content/docs/{folder}/index.md`, or `content/docs/index.md` for the root.
pub open spec fn doc_index_path(folder: Option<Seq<char>>) -> Seq<char> {
    match folder {
        Some(f) => "content/docs/"@ + f + "/index.md"@,
        None => "content/docs/index.md"@,
    }
}

proof fn lemma_parent_shifts(pre: Seq<char>, mid: Seq<char>, post: Seq<char>)
    requires
        has_parent_segment(mid),
    ensures
        !is_safe_path(pre + mid + post),
{
    let i = choose|i: int| dots_at(mid, i);
    assert(dots_at(pre + mid + post, pre.len() + i));
}

/// A slug or folder holding `..` anywhere makes a path that is never safe, so resolving
/// a blog post, a doc page or a folder index built from it fails with `InvalidPath`.
pub proof fn lemma_parent_segment_rejected(folder: Seq<char>, slug: Seq<char>)
    ensures
        has_parent_segment(slug) ==> !is_safe_path(blog_path(slug)),
        has_parent_segment(slug) || has_parent_segment(folder) ==> !is_safe_path(
            doc_path(folder, slug),
        ),
        has_parent_segment(folder) ==> !is_safe_path(doc_index_path(Some(folder))),
{
    if has_parent_segment(slug) {
        lemma_parent_shifts("content/blog/"@, slug, ".md"@);
        lemma_parent_shifts("content/docs/"@ + folder + "/"@, slug, ".md"@);
        assert(doc_path(folder, slug) == "content/docs/"@ + folder + "/"@ + slug + ".md"@);
    }
    if has_parent_segment(folder) {
        lemma_parent_shifts("content/docs/"@, folder, "/"@ + slug + ".md"@);
        assert(doc_path(folder, slug) =~= "content/docs/"@ + folder + ("/"@ + slug + ".md"@));
        lemma_parent_shifts("content/docs/"@, folder, "/index.md"@);
    }
}

pub fn blog_post_path(slug: &str) -> (r: String)
    ensures
        r@ == blog_path(slug@),
{
    let mut p = String::from_str("content/blog/");
    p.append(slug);
    p.append(".md");
    p
}

pub fn doc_page_path(folder: &str, slug: &str) -> (r: String)
    ensures
        r@ == doc_path(folder@, slug@),
{
    let mut p = String::from_str("content/docs/");
    p.append(folder);
    p.append("/");
    p.append(slug);
    p.append(".md");
    p
}

pub fn doc_index_file_path(folder: Option<&str>) -> (r: String)
    ensures
        r@ == doc_index_path(
            match folder {
                Some(f) => Some(f@),
                None => None,
            },
        ),
{
    match folder {
        Some(f) => {
            let mut p = String::from_str("content/docs/");
            p.append(f);
            p.append("/index.md");
            p
        },
        None => String::from_str("content/docs/index.md"),
    }
}

/// What `parse_markdown_file` promises for `path` whatever the reader returned: an unsafe
/// path fails with `InvalidPath` and the reader is not asked; a safe path is handed to the
/// reader, a failed read gives `NotFound` or `ParseError`, and text read is parsed with the
/// outcome `document_outcome` states.
pub open spec fn resolved<F: Fn(&str) -> std::io::Result<String>>(
    path: &str,
    read: &F,
    r: Result<MarkdownContent, MarkdownError>,
) -> bool {
    &&& !is_safe_path(path@) ==> (r is Err && r->Err_0 is InvalidPath)
    &&& is_safe_path(path@) ==> exists|x: std::io::Result<String>|
        #[trigger] read.ensures((path,), x) && match x {
            Ok(text) => document_outcome(text@, r),
            Err(_) => r is Err && (r->Err_0 is NotFound || r->Err_0 is ParseError),
        }
    &&& (r is Err && r->Err_0 is NotFound) ==> exists|e: std::io::Error|
        #[trigger] read.ensures((path,), Err(e))
    &&& (r is Err && r->Err_0 is ParseError) ==> exists|x: std::io::Result<String>|
        #[trigger] read.ensures((path,), x)
}

/// Loads and parses the content file at `file_path` through `read`. The path is checked
/// first, and `read` is called only for a safe one; a missing file fails with `NotFound`,
/// any other read failure and any front-matter failure with `ParseError`.
pub fn parse_markdown_file<F: Fn(&str) -> std::io::Result<String>>(file_path: &str, read: &F) -> (r:
    Result<MarkdownContent, MarkdownError>)
    requires
        forall|p: &str| read.requires((p,)),
    ensures
        resolved(file_path, read, r),
{
    if !check_path(file_path) {
        return Err(MarkdownError::InvalidPath);
    }
    let res = read(file_path);
    let ghost x = res;
    let r = match res {
        Ok(text) => parse_document(text.as_str()),
        Err(e) => Err(MarkdownError::from_io(e)),
    };
    assert(read.ensures((file_path,), x));
    r
}

/// Resolves the blog post `slug` at `content/blog/{slug}.md`.
pub fn get_blog_post<F: Fn(&str) -> std::io::Result<String>>(slug: &str, read: &F) -> (r: Result<
    MarkdownContent,
    MarkdownError,
>)
    requires
        forall|p: &str| read.requires((p,)),
    ensures
        exists|p: &str| p@ == blog_path(slug@) && resolved(p, read, r),
{
    let path = blog_post_path(slug);
    parse_markdown_file(path.as_str(), read)
}

/// Resolves the doc page `slug` of `folder` at `content/docs/{folder}/{slug}.md`.
pub fn get_doc_page<F: Fn(&str) -> std::io::Result<String>>(folder: &str, slug: &str, read: &F) -> (r:
    Result<MarkdownContent, MarkdownError>)
    requires
        forall|p: &str| read.requires((p,)),
    ensures
        exists|p: &str| p@ == doc_path(folder@, slug@) && resolved(p, read, r),
{
    let path = doc_page_path(folder, slug);
    parse_markdown_file(path.as_str(), read)
}

/// Resolves a folder's index page, or the docs root's when `folder` is `None`.
pub fn get_doc_index<F: Fn(&str) -> std::io::Result<String>>(folder: Option<&str>, read: &F) -> (r:
    Result<MarkdownContent, MarkdownError>)
    requires
        forall|p: &str| read.requires((p,)),
    ensures
        exists|p: &str|
            p@ == doc_index_path(
                match folder {
                    Some(f) => Some(f@),
                    None => None,
                },
            ) && resolved(p, read, r),
{
    let path = doc_index_file_path(folder);
    parse_markdown_file(path.as_str(), read)
}

} // verus!
