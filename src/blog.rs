use vstd::prelude::*;
use crate::document::{document_spec, parse_source, ParsedSource, SourceFile};
use crate::frontmatter::{frontmatter_spec, opt_text, opt_texts, Frontmatter, FrontmatterView};
use crate::order::{lemma_insert_sorted, lemma_text_lt_asymmetric, lemma_text_lt_transitive, sorted_by, strict_order, text_less, text_lt};

verus! {

broadcast use vstd::seq_lib::group_to_multiset_ensures;

/// A blog post's metadata without its body.
#[derive(Debug, Clone)]
pub struct BlogPostSummary {
    pub slug: String,
    pub title: String,
    pub description: Option<String>,
    pub date: Option<String>,
    pub author: Option<String>,
    pub tags: Option<Vec<String>>,
}

pub struct BlogPostView {
    pub slug: Seq<char>,
    pub title: Seq<char>,
    pub description: Option<Seq<char>>,
    pub date: Option<Seq<char>>,
    pub author: Option<Seq<char>>,
    pub tags: Option<Seq<Seq<char>>>,
}

impl View for BlogPostSummary {
    type V = BlogPostView;

    open spec fn view(&self) -> BlogPostView {
        BlogPostView {
            slug: self.slug@,
            title: self.title@,
            description: opt_text(self.description),
            date: opt_text(self.date),
            author: opt_text(self.author),
            tags: opt_texts(self.tags),
        }
    }
}

/// The summary of the post with slug `slug` and front matter `fm`.
pub open spec fn summary_of(slug: Seq<char>, fm: FrontmatterView) -> BlogPostView {
    BlogPostView {
        slug,
        title: fm.title,
        description: fm.description,
        date: fm.date,
        author: fm.author,
        tags: fm.tags,
    }
}

/// Listing order: later dates first; a dated post before an undated one; undated posts by title.
pub open spec fn blog_before(a: BlogPostView, b: BlogPostView) -> bool {
    match (a.date, b.date) {
        (Some(da), Some(db)) => text_lt(db, da),
        (Some(_), None) => true,
        (None, Some(_)) => false,
        (None, None) => text_lt(a.title, b.title),
    }
}

pub open spec fn blog_order() -> spec_fn(BlogPostView, BlogPostView) -> bool {
    |a: BlogPostView, b: BlogPostView| blog_before(a, b)
}

pub open spec fn blog_views(s: Seq<BlogPostSummary>) -> Seq<BlogPostView> {
    s.map_values(|p: BlogPostSummary| p@)
}

/// The summaries of the sources whose front matter reads, in source order.
pub open spec fn blog_candidates(sources: Seq<ParsedSource>) -> Seq<BlogPostView>
    decreases sources.len(),
{
    if sources.len() == 0 {
        Seq::empty()
    } else {
        let prev = blog_candidates(sources.drop_last());
        let e = sources.last();
        if document_spec(e.front_matter) {
            prev.push(summary_of(e.slug@, frontmatter_spec(e.front_matter->0)->0))
        } else {
            prev
        }
    }
}

pub proof fn lemma_blog_order()
    ensures
        strict_order(blog_order()),
{
    assert forall|a: BlogPostView, b: BlogPostView| #[trigger]
        blog_order()(a, b) implies !blog_order()(b, a) by {
        lemma_text_lt_asymmetric(a.title, b.title);
        if a.date is Some && b.date is Some {
            lemma_text_lt_asymmetric(a.date->0, b.date->0);
        }
    }
    assert forall|a: BlogPostView, b: BlogPostView, c: BlogPostView| #[trigger]
        blog_order()(a, b) && #[trigger] blog_order()(b, c) implies blog_order()(a, c) by {
        if a.date is None && b.date is None && c.date is None {
            lemma_text_lt_transitive(a.title, b.title, c.title);
        }
        if a.date is Some && b.date is Some && c.date is Some {
            lemma_text_lt_transitive(c.date->0, b.date->0, a.date->0);
        }
    }
}

/// Decides `blog_before(a@, b@)`.
fn blog_less(a: &BlogPostSummary, b: &BlogPostSummary) -> (r: bool)
    ensures
        r == blog_before(a@, b@),
{
    match (&a.date, &b.date) {
        (Some(da), Some(db)) => text_less(db.as_str(), da.as_str()),
        (Some(_), None) => true,
        (None, Some(_)) => false,
        (None, None) => text_less(a.title.as_str(), b.title.as_str()),
    }
}

fn insert_post(out: &mut Vec<BlogPostSummary>, x: BlogPostSummary)
    requires
        sorted_by(blog_views(old(out)@), blog_order()),
    ensures
        sorted_by(blog_views(final(out)@), blog_order()),
        blog_views(final(out)@).to_multiset() == blog_views(old(out)@).to_multiset().insert(x@),
{
    let n = out.len();
    let mut p: usize = 0;
    while p < n && !blog_less(&x, &out[p])
        invariant
            n == out@.len(),
            p <= n,
            forall|k: int| 0 <= k < p ==> !blog_before(x@, #[trigger] out@[k]@),
        decreases n - p,
    {
        p = p + 1;
    }
    let ghost before = blog_views(out@);
    let ghost xv = x@;
    proof {
        lemma_blog_order();
        lemma_insert_sorted(before, p as int, xv, blog_order());
    }
    out.insert(p, x);
    assert(blog_views(out@) =~= before.insert(p as int, xv));
}

fn summary_from(slug: &String, fm: Frontmatter) -> (r: BlogPostSummary)
    ensures
        r@ == summary_of(slug@, fm@),
{
    BlogPostSummary {
        slug: slug.clone(),
        title: fm.title,
        description: fm.description,
        date: fm.date,
        author: fm.author,
        tags: fm.tags,
    }
}

/// The blog listing for sources already split: every source whose front matter reads,
/// summarized, in listing order; the others are left out.
pub fn blog_posts_from_sources(sources: &Vec<ParsedSource>) -> (r: Vec<BlogPostSummary>)
    ensures
        sorted_by(blog_views(r@), blog_order()),
        blog_views(r@).to_multiset() == blog_candidates(sources@).to_multiset(),
{
    let mut out: Vec<BlogPostSummary> = Vec::new();
    let n = sources.len();
    let mut i: usize = 0;
    assert(blog_views(out@) =~= Seq::empty());
    while i < n
        invariant
            n == sources@.len(),
            i <= n,
            sorted_by(blog_views(out@), blog_order()),
            blog_views(out@).to_multiset() == blog_candidates(sources@.take(i as int)).to_multiset(),
        decreases n - i,
    {
        let src = &sources[i];
        assert(sources@.take(i + 1).drop_last() =~= sources@.take(i as int));
        match &src.front_matter {
            Some(v) => match Frontmatter::from_yaml(v) {
                Ok(fm) => {
                    let s = summary_from(&src.slug, fm);
                    insert_post(&mut out, s);
                },
                Err(_) => {},
            },
            None => {},
        }
        i = i + 1;
    }
    assert(sources@.take(n as int) =~= sources@);
    out
}

/// The blog listing for the Markdown files of the blog directory: each file's front matter
/// is read, files without readable front matter are skipped, the rest come in listing order.
pub fn index_blog_posts(files: &Vec<SourceFile>) -> (r: Vec<BlogPostSummary>)
    ensures
        sorted_by(blog_views(r@), blog_order()),
        exists|s: Seq<ParsedSource>|
            s.len() == files@.len() && (forall|k: int|
                0 <= k < s.len() ==> #[trigger] s[k].slug@ == files@[k].slug@) && blog_views(
                r@,
            ).to_multiset() == blog_candidates(s).to_multiset(),
        r@.len() <= files@.len(),
        forall|i: int|
            0 <= i < r@.len() ==> exists|j: int|
                0 <= j < files@.len() && #[trigger] r@[i].slug@ == #[trigger] files@[j].slug@,
{
    let mut sources: Vec<ParsedSource> = Vec::new();
    let n = files.len();
    let mut i: usize = 0;
    while i < n
        invariant
            n == files@.len(),
            i <= n,
            sources@.len() == i,
            forall|k: int| 0 <= k < i ==> #[trigger] sources@[k].slug@ == files@[k].slug@,
        decreases n - i,
    {
        sources.push(parse_source(&files[i]));
        i = i + 1;
    }
    let r = blog_posts_from_sources(&sources);
    proof {
        lemma_candidates_from(sources@);
        assert forall|i: int| 0 <= i < r@.len() implies exists|j: int|
            0 <= j < files@.len() && #[trigger] r@[i].slug@ == #[trigger] files@[j].slug@ by {
            let v = blog_views(r@)[i];
            assert(blog_views(r@).to_multiset().count(v) > 0);
            assert(blog_candidates(sources@).contains(v));
            let k = choose|k: int| 0 <= k < sources@.len() && sources@[k].slug@ == v.slug;
            assert(r@[i].slug@ == files@[k].slug@);
        }
        assert(blog_views(r@).to_multiset().len() == blog_views(r@).len());
        assert(blog_candidates(sources@).to_multiset().len() == blog_candidates(sources@).len());
        assert(blog_views(r@).len() == r@.len());
        assert(forall|k: int| 0 <= k < sources@.len() ==> #[trigger] sources@[k].slug@ == files@[k].slug@);
    }
    r
}

/// Every candidate comes from one of the sources, and there are no more of them.
proof fn lemma_candidates_from(sources: Seq<ParsedSource>)
    ensures
        blog_candidates(sources).len() <= sources.len(),
        forall|v: BlogPostView| #[trigger]
            blog_candidates(sources).contains(v) ==> exists|k: int|
                0 <= k < sources.len() && sources[k].slug@ == v.slug,
    decreases sources.len(),
{
    if sources.len() > 0 {
        let prev = sources.drop_last();
        lemma_candidates_from(prev);
        assert forall|v: BlogPostView| #[trigger]
            blog_candidates(sources).contains(v) implies exists|k: int|
                0 <= k < sources.len() && sources[k].slug@ == v.slug by {
            if blog_candidates(prev).contains(v) {
                let k = choose|k: int| 0 <= k < prev.len() && prev[k].slug@ == v.slug;
                assert(sources[k] == prev[k]);
            } else {
                assert(sources[sources.len() - 1].slug@ == v.slug);
            }
        }
    }
}

} // verus!
