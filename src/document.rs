use vstd::prelude::*;
use crate::error::MarkdownError;
use crate::frontmatter::{frontmatter_spec, Frontmatter};
use crate::yaml::YamlValue;

verus! {

/// pulldown-cmark's `ENABLE_TABLES` flag.
pub const ENABLE_TABLES: u32 = 2;

/// pulldown-cmark's `ENABLE_STRIKETHROUGH` flag.
pub const ENABLE_STRIKETHROUGH: u32 = 8;

/// pulldown-cmark's `ENABLE_TASKLISTS` flag.
pub const ENABLE_TASKLISTS: u32 = 16;

/// pulldown-cmark's `ENABLE_SMART_PUNCTUATION` flag.
pub const ENABLE_SMART_PUNCTUATION: u32 = 32;

/// The fixed set of Markdown extensions every document is rendered with.
pub const MARKDOWN_EXTENSIONS: u32 = ENABLE_STRIKETHROUGH | ENABLE_TABLES | ENABLE_TASKLISTS
    | ENABLE_SMART_PUNCTUATION;

/// A parsed content file: its metadata and its rendered body.
#[derive(Debug, Clone)]
pub struct MarkdownContent {
    pub frontmatter: Frontmatter,
    pub html: String,
}

/// gray_matter's `Pod`, the parsed front matter, carried opaquely until converted.
#[verifier::external_type_specification]
#[verifier::external_body]
pub struct ExPod(gray_matter::Pod);

/// The HTML that pulldown-cmark renders for `markdown` with the extension flags `options`.
pub uninterp spec fn html_of(markdown: Seq<char>, options: u32) -> Seq<char>;

/// What gray_matter's parse gives for `text`: whether a front-matter block was found, and
/// the text left once the block is cut off.
pub uninterp spec fn matter_parts(text: Seq<char>) -> (bool, Seq<char>);

/// A front-matter block was found in `text`.
pub open spec fn matter_found(text: Seq<char>) -> bool {
    matter_parts(text).0
}

/// The body of `text`, without its front-matter block.
pub open spec fn matter_body(text: Seq<char>) -> Seq<char> {
    matter_parts(text).1
}

/// Relies on pulldown_cmark's `Parser::new_ext` and `html::push_html`: the HTML for
/// `markdown` under the flags `options`, a function of the two alone.
#[verifier::external_body]
fn render_html(markdown: &str, options: u32) -> (r: String)
    ensures
        r@ == html_of(markdown@, options),
{
    let flags = pulldown_cmark::Options::from_bits_truncate(options);
    let parser = pulldown_cmark::Parser::new_ext(markdown, flags);
    let mut out = String::new();
    pulldown_cmark::html::push_html(&mut out, parser);
    out
}

/// Relies on gray_matter's `Matter::<YAML>::parse`: the front matter found, if any, and the
/// remaining content. Whether a block is found, and the content, depend on the text alone;
/// the front matter's mappings come out in hash-map order, so nothing more is said of it.
#[verifier::external_body]
fn split_front_matter(text: &str) -> (r: (Option<gray_matter::Pod>, String))
    ensures
        r.0 is Some == matter_parts(text@).0,
        r.1@ == matter_parts(text@).1,
{
    let parsed = gray_matter::Matter::<gray_matter::engine::YAML>::new().parse(text);
    (parsed.data, parsed.content)
}

/// Relies on the variants of gray_matter's `Pod`: converts each one for one into the
/// library's `YamlValue`, a float into `Real`, a hash's entries in its iteration order.
#[verifier::external_body]
fn yaml_from_pod(p: gray_matter::Pod) -> YamlValue {
    match p {
        gray_matter::Pod::Null => YamlValue::Null,
        gray_matter::Pod::String(s) => YamlValue::Text(s),
        gray_matter::Pod::Integer(i) => YamlValue::Integer(i),
        gray_matter::Pod::Float(_) => YamlValue::Real,
        gray_matter::Pod::Boolean(b) => YamlValue::Boolean(b),
        gray_matter::Pod::Array(v) => YamlValue::Sequence(v.into_iter().map(yaml_from_pod).collect()),
        gray_matter::Pod::Hash(h) => YamlValue::Mapping(
            h.into_iter().map(|(k, v)| (k, yaml_from_pod(v))).collect(),
        ),
    }
}

/// A content file as read from disk: its slug (the file stem) and its text.
pub struct SourceFile {
    pub slug: String,
    pub text: String,
}

/// A content file reduced to what a listing reads: its slug and the front matter found.
pub struct ParsedSource {
    pub slug: String,
    pub front_matter: Option<YamlValue>,
}

/// The front matter gray_matter finds in `text`, if any.
pub fn read_front_matter(text: &str) -> Option<YamlValue> {
    let (data, _body) = split_front_matter(text);
    match data {
        Some(p) => Some(yaml_from_pod(p)),
        None => None,
    }
}

/// Reduces a content file to its slug and front matter.
pub fn parse_source(file: &SourceFile) -> (r: ParsedSource)
    ensures
        r.slug@ == file.slug@,
{
    ParsedSource { slug: file.slug.clone(), front_matter: read_front_matter(file.text.as_str()) }
}

/// Renders a Markdown body to HTML with the fixed extension set.
pub fn render_markdown(body: &str) -> (r: String)
    ensures
        r@ == html_of(body@, MARKDOWN_EXTENSIONS),
{
    render_html(body, MARKDOWN_EXTENSIONS)
}

/// Front matter was found and has the expected shape.
pub open spec fn document_spec(data: Option<YamlValue>) -> bool {
    match data {
        Some(v) => frontmatter_spec(v) is Some,
        None => false,
    }
}

/// Builds a document from the front matter found (if any) and the body that follows it.
/// Without front matter it fails with `ParseError("missing frontmatter")`; with front
/// matter of the wrong shape, with a `ParseError`; otherwise the body is rendered.
pub fn document_from_parts(data: Option<YamlValue>, body: &str) -> (r: Result<
    MarkdownContent,
    MarkdownError,
>)
    ensures
        r is Ok <==> document_spec(data),
        data is None ==> (r matches Err(MarkdownError::ParseError(m)) && m@
            == "missing frontmatter"@),
        data is Some && !document_spec(data) ==> r matches Err(MarkdownError::ParseError(_)),
        r matches Ok(doc) ==> (Some(doc.frontmatter@) == frontmatter_spec(data->0) && doc.html@
            == html_of(body@, MARKDOWN_EXTENSIONS) && doc.frontmatter.well_formed()),
{
    match data {
        None => Err(MarkdownError::ParseError(String::from_str("missing frontmatter"))),
        Some(v) => match Frontmatter::from_yaml(&v) {
            Ok(frontmatter) => {
                let html = render_markdown(body);
                Ok(MarkdownContent { frontmatter, html })
            },
            Err(e) => Err(e),
        },
    }
}

/// What parsing the content file `text` promises: every failure is a `ParseError`, and
/// one without a front-matter block is `ParseError("missing frontmatter")`; a document has
/// well-formed front matter decoded from a YAML value and the rendered body of `text`.
pub open spec fn document_outcome(text: Seq<char>, r: Result<MarkdownContent, MarkdownError>) -> bool {
    &&& r is Err ==> r->Err_0 is ParseError
    &&& !matter_found(text) ==> (r is Err && r->Err_0 == MarkdownError::ParseError(r->Err_0->ParseError_0)
        && r->Err_0->ParseError_0@ == "missing frontmatter"@)
    &&& r is Ok ==> {
        &&& r->Ok_0.frontmatter.well_formed()
        &&& exists|v: YamlValue| frontmatter_spec(v) == Some(#[trigger] r->Ok_0.frontmatter@)
        &&& r->Ok_0.html@ == html_of(matter_body(text), MARKDOWN_EXTENSIONS)
    }
}

/// Splits a content file into front matter and body, and builds the document from them
/// as `document_from_parts` does.
pub fn parse_document(text: &str) -> (r: Result<MarkdownContent, MarkdownError>)
    ensures
        document_outcome(text@, r),
{
    let (data, body) = split_front_matter(text);
    let yaml = match data {
        Some(p) => Some(yaml_from_pod(p)),
        None => None,
    };
    let r = document_from_parts(yaml, body.as_str());
    proof {
        if r is Ok {
            assert(frontmatter_spec(yaml->0) == Some(r->Ok_0.frontmatter@));
        }
    }
    r
}

} // verus!
