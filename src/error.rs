use vstd::prelude::*;

verus! {

/// The three ways resolving or indexing content can fail.
#[derive(Debug, Clone)]
pub enum MarkdownError {
    /// The requested file does not exist.
    NotFound,
    /// The caller-built path names a parent directory or is absolute.
    InvalidPath,
    /// Missing or malformed front matter, or an I/O failure other than absence.
    ParseError(String),
}

impl MarkdownError {
    /// Builds a `ParseError` carrying `detail`.
    pub fn parse_error(detail: String) -> (r: MarkdownError)
        ensures
            r == MarkdownError::ParseError(detail),
    {
        MarkdownError::ParseError(detail)
    }
}

} // verus!
