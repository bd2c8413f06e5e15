//! Content indexing and document resolution for a Markdown-driven site.
//!
//! Content files are Markdown with YAML front matter. The library splits and reads the
//! front matter, renders bodies to HTML, resolves single documents by path (after a
//! path-safety check), lists blog posts in date order, and builds the two-level docs
//! navigation. It also builds the page models and SEO data the site's pages show.
pub mod error;
pub mod text;
pub mod order;
pub mod path;
pub mod yaml;
pub mod frontmatter;
pub mod document;
pub mod resolve;
pub mod display;
pub mod blog;
pub mod docs;
pub mod seo;
pub mod pages;
