use vstd::prelude::*;
use crate::blog::BlogPostSummary;
use crate::display::{display_name, display_name_of};
use crate::docs::{folder_wf, DocFolder};
use crate::seo::SeoMeta;
use crate::text::{contains, is_prefix, occurs_in, same_text, starts_with};

verus! {

/// The landing page's meta description.
pub const HOME_DESCRIPTION: &'static str = "RunPiper is an open-source, enterprise-grade AI agent runtime built in Rust. Deploy thousands of agents with one click\u{2014}self-hosted or on RunPiper Cloud.";

/// The landing page's meta keywords.
pub const HOME_KEYWORDS: &'static str = "AI agents, agent runtime, Rust, enterprise AI, open source, agent deployment, agent orchestration";

/// The landing page's heading.
pub const HOME_HEADING: &'static str = "The Runtime for Production AI Agents";

/// The landing page's subheading.
pub const HOME_SUBHEADING: &'static str = "Open-source. Built in Rust. One-click deploy to RunPiper Cloud or self-host.";

/// The landing page's welcome text.
pub const HOME_WELCOME: &'static str = "Prototyping AI agents is easy\u{2014}running them reliably at scale is not. RunPiper handles the hard parts: memory-safe execution, sub-millisecond cold starts, and rock-solid stability for thousands of concurrent agents. Build with any framework, deploy anywhere.";

/// Meta keywords of a blog post page.
pub const BLOG_KEYWORDS: &'static str = "blog, AI agents, runpiper";

/// Meta keywords of a docs page.
pub const DOCS_KEYWORDS: &'static str = "documentation, AI agents, runpiper";

/// The blog index's meta description.
pub const BLOG_LIST_DESCRIPTION: &'static str = "Insights, updates, and best practices for building production-grade AI agents with RunPiper. Learn about Rust, performance optimization, and agent deployment strategies.";

/// The blog index's meta keywords.
pub const BLOG_LIST_KEYWORDS: &'static str = "AI agents blog, Rust blog, agent runtime, performance, best practices, tutorials";

/// The not-found page's meta description.
pub const NOT_FOUND_DESCRIPTION: &'static str = "The page you're looking for doesn't exist or has been moved.";

/// The not-found page's meta keywords.
pub const NOT_FOUND_KEYWORDS: &'static str = "404, page not found";

/// One step of a breadcrumb trail; an empty `url` marks the current page.
#[derive(Debug, Clone)]
pub struct BreadcrumbItem {
    pub label: String,
    pub url: String,
}

pub open spec fn crumbs(v: Seq<BreadcrumbItem>) -> Seq<(Seq<char>, Seq<char>)> {
    v.map_values(|b: BreadcrumbItem| (b.label@, b.url@))
}

fn crumb(label: String, url: String) -> (r: BreadcrumbItem)
    ensures
        r.label@ == label@,
        r.url@ == url@,
{
    BreadcrumbItem { label, url }
}

fn joined(a: &str, b: &str) -> (r: String)
    ensures
        r@ == a@ + b@,
{
    let mut s = String::from_str(a);
    s.append(b);
    s
}

/// `{base}/og-image.png`
pub open spec fn og_image_of(base: Seq<char>) -> Seq<char> {
    base + "/og-image.png"@
}

/// The landing page.
pub struct HomeTemplate {
    pub site_name: &'static str,
    pub page_title: &'static str,
    pub meta_description: &'static str,
    pub meta_keywords: &'static str,
    pub canonical_url: String,
    pub base_url: &'static str,
    pub og_image: String,
    pub current_year: u16,
    pub heading: &'static str,
    pub subheading: &'static str,
    pub welcome_text: &'static str,
}

impl HomeTemplate {
    pub fn new(seo: &SeoMeta) -> (r: HomeTemplate)
        ensures
            r.site_name == seo.site_name,
            r.base_url == seo.base_url,
            r.canonical_url@ == seo.base_url@,
            r.og_image@ == og_image_of(seo.base_url@),
            r.current_year == seo.current_year,
            r.page_title@ == "Home"@,
            r.meta_description == HOME_DESCRIPTION,
            r.meta_keywords == HOME_KEYWORDS,
            r.heading == HOME_HEADING,
            r.subheading == HOME_SUBHEADING,
            r.welcome_text == HOME_WELCOME,
    {
        HomeTemplate {
            site_name: seo.site_name,
            page_title: "Home",
            meta_description: HOME_DESCRIPTION,
            meta_keywords: HOME_KEYWORDS,
            canonical_url: String::from_str(seo.base_url),
            base_url: seo.base_url,
            og_image: joined(seo.base_url, "/og-image.png"),
            current_year: seo.current_year,
            heading: HOME_HEADING,
            subheading: HOME_SUBHEADING,
            welcome_text: HOME_WELCOME,
        }
    }
}

/// A blog post page.
pub struct BlogTemplate {
    pub site_name: &'static str,
    pub page_title: String,
    pub meta_description: String,
    pub meta_keywords: &'static str,
    pub canonical_url: String,
    pub base_url: &'static str,
    pub og_image: String,
    pub current_year: u16,
    pub title: String,
    pub date: Option<String>,
    pub author: Option<String>,
    pub tags: Option<Vec<String>>,
    pub content: String,
    pub breadcrumbs: Vec<BreadcrumbItem>,
}

/// The description, or `{fallback}` built from the title when there is none.
pub open spec fn described(description: Option<String>, fallback: Seq<char>) -> Seq<char> {
    match description {
        Some(d) => d@,
        None => fallback,
    }
}

impl BlogTemplate {
    /// The page for a post: trail Blog > title, canonical URL `{base}/blog/{slug}`, and the
    /// post's description or `{title} - {site name}` as meta description.
    pub fn new(
        seo: &SeoMeta,
        slug: &str,
        title: String,
        description: Option<String>,
        date: Option<String>,
        author: Option<String>,
        tags: Option<Vec<String>>,
        content: String,
    ) -> (r: BlogTemplate)
        ensures
            r.site_name == seo.site_name,
            r.base_url == seo.base_url,
            r.current_year == seo.current_year,
            r.page_title@ == title@,
            r.title@ == title@,
            r.meta_description@ == described(description, title@ + " - "@ + seo.site_name@),
            r.canonical_url@ == seo.base_url@ + "/blog/"@ + slug@,
            r.og_image@ == og_image_of(seo.base_url@),
            r.date == date,
            r.author == author,
            r.tags == tags,
            r.content == content,
            r.meta_keywords == BLOG_KEYWORDS,
            crumbs(r.breadcrumbs@) == seq![("Blog"@, "/blog"@), (title@, "/blog/"@ + slug@)],
    {
        let meta_description = match description {
            Some(d) => d,
            None => {
                let mut m = title.clone();
                m.append(" - ");
                m.append(seo.site_name);
                m
            },
        };
        let mut breadcrumbs: Vec<BreadcrumbItem> = Vec::new();
        breadcrumbs.push(crumb(String::from_str("Blog"), String::from_str("/blog")));
        breadcrumbs.push(crumb(title.clone(), joined("/blog/", slug)));
        assert(crumbs(breadcrumbs@) =~= seq![("Blog"@, "/blog"@), (title@, "/blog/"@ + slug@)]);
        let mut canonical_url = joined(seo.base_url, "/blog/");
        canonical_url.append(slug);
        BlogTemplate {
            site_name: seo.site_name,
            page_title: title.clone(),
            meta_description,
            meta_keywords: BLOG_KEYWORDS,
            canonical_url,
            base_url: seo.base_url,
            og_image: joined(seo.base_url, "/og-image.png"),
            current_year: seo.current_year,
            title,
            date,
            author,
            tags,
            content,
            breadcrumbs,
        }
    }
}

/// A documentation page.
pub struct DocsTemplate {
    pub site_name: &'static str,
    pub page_title: String,
    pub meta_description: String,
    pub meta_keywords: &'static str,
    pub canonical_url: String,
    pub base_url: &'static str,
    pub og_image: String,
    pub current_year: u16,
    pub title: String,
    pub description: Option<String>,
    pub content: String,
    pub docs_nav: Vec<DocFolder>,
    pub current_folder: String,
    pub current_slug: String,
    pub breadcrumbs: Vec<BreadcrumbItem>,
}

/// The breadcrumb label of `folder`: the display name of the first navigation folder of that
/// name, or the name title-cased when the navigation has none.
pub open spec fn nav_label(nav: Seq<DocFolder>, folder: Seq<char>) -> Seq<char>
    decreases nav.len(),
{
    if nav.len() == 0 {
        display_name_of(folder)
    } else if nav[0].name@ == folder {
        nav[0].display_name@
    } else {
        nav_label(nav.drop_first(), folder)
    }
}

/// Wherever the navigation is a docs listing, a folder's breadcrumb label is its derived
/// display name, whether or not the navigation holds that folder.
pub proof fn lemma_nav_label_is_display_name(nav: Seq<DocFolder>, folder: Seq<char>)
    requires
        folder.len() > 0,
        forall|i: int| 0 <= i < nav.len() ==> folder_wf(#[trigger] nav[i]@),
    ensures
        nav_label(nav, folder) == display_name_of(folder),
    decreases nav.len(),
{
    if nav.len() > 0 {
        assert(folder_wf(nav[0]@));
        if nav[0].name@ != folder {
            assert forall|i: int| 0 <= i < nav.drop_first().len() implies folder_wf(
                #[trigger] nav.drop_first()[i]@,
            ) by {
                assert(folder_wf(nav[i + 1]@));
            }
            lemma_nav_label_is_display_name(nav.drop_first(), folder);
        }
    }
}

/// The canonical URL of a docs page.
pub open spec fn docs_canonical(base: Seq<char>, folder: Seq<char>, slug: Seq<char>) -> Seq<
    char,
> {
    if folder.len() == 0 {
        base + "/docs"@
    } else if slug == "index"@ {
        base + "/docs/"@ + folder
    } else {
        base + "/docs/"@ + folder + "/"@ + slug
    }
}

/// The trail Docs > folder > title; the folder step is left out at the root, and a step
/// that names the current page has no URL.
pub open spec fn docs_trail(
    nav: Seq<DocFolder>,
    folder: Seq<char>,
    slug: Seq<char>,
    title: Seq<char>,
) -> Seq<(Seq<char>, Seq<char>)> {
    let first = ("Docs"@, if slug == "docs"@ { Seq::empty() } else { "/docs"@ });
    let last = (title, Seq::<char>::empty());
    if folder.len() == 0 {
        seq![first, last]
    } else {
        seq![
            first,
            (nav_label(nav, folder), if slug == "index"@ { Seq::empty() } else { "/docs/"@ + folder }),
            last,
        ]
    }
}

fn folder_label(nav: &Vec<DocFolder>, folder: &str) -> (r: String)
    ensures
        r@ == nav_label(nav@, folder@),
{
    let n = nav.len();
    let mut i: usize = 0;
    assert(nav@.skip(0) =~= nav@);
    while i < n
        invariant
            n == nav@.len(),
            i <= n,
            nav_label(nav@, folder@) == nav_label(nav@.skip(i as int), folder@),
        decreases n - i,
    {
        if same_text(nav[i].name.as_str(), folder) {
            return nav[i].display_name.clone();
        }
        assert(nav@.skip(i as int).drop_first() =~= nav@.skip(i + 1));
        i = i + 1;
    }
    display_name(folder)
}

impl DocsTemplate {
    /// The page for a doc: canonical URL by `docs_canonical`, trail by `docs_trail`, and the
    /// page's description or `{title} - Documentation` as meta description.
    pub fn new(
        seo: &SeoMeta,
        folder: &str,
        slug: &str,
        title: String,
        description: Option<String>,
        content: String,
        docs_nav: Vec<DocFolder>,
    ) -> (r: DocsTemplate)
        ensures
            r.site_name == seo.site_name,
            r.base_url == seo.base_url,
            r.current_year == seo.current_year,
            r.page_title@ == title@,
            r.title@ == title@,
            r.description == description,
            r.content == content,
            r.docs_nav == docs_nav,
            r.current_folder@ == folder@,
            r.current_slug@ == slug@,
            r.meta_description@ == described(description, title@ + " - Documentation"@),
            r.canonical_url@ == docs_canonical(seo.base_url@, folder@, slug@),
            r.og_image@ == og_image_of(seo.base_url@),
            r.meta_keywords == DOCS_KEYWORDS,
            crumbs(r.breadcrumbs@) == docs_trail(docs_nav@, folder@, slug@, title@),
    {
        let meta_description = match &description {
            Some(d) => d.clone(),
            None => joined(title.as_str(), " - Documentation"),
        };
        let is_index = same_text(slug, "index");
        let canonical_url = if folder.is_empty() {
            joined(seo.base_url, "/docs")
        } else if is_index {
            let mut u = joined(seo.base_url, "/docs/");
            u.append(folder);
            u
        } else {
            let mut u = joined(seo.base_url, "/docs/");
            u.append(folder);
            u.append("/");
            u.append(slug);
            u
        };
        let docs_url = if same_text(slug, "docs") {
            String::new()
        } else {
            String::from_str("/docs")
        };
        let mut breadcrumbs: Vec<BreadcrumbItem> = Vec::new();
        breadcrumbs.push(crumb(String::from_str("Docs"), docs_url));
        if !folder.is_empty() {
            let label = folder_label(&docs_nav, folder);
            let url = if is_index {
                String::new()
            } else {
                joined("/docs/", folder)
            };
            breadcrumbs.push(crumb(label, url));
        }
        breadcrumbs.push(crumb(title.clone(), String::new()));
        assert(crumbs(breadcrumbs@) =~= docs_trail(docs_nav@, folder@, slug@, title@));
        DocsTemplate {
            site_name: seo.site_name,
            page_title: title.clone(),
            meta_description,
            meta_keywords: DOCS_KEYWORDS,
            canonical_url,
            base_url: seo.base_url,
            og_image: joined(seo.base_url, "/og-image.png"),
            current_year: seo.current_year,
            title,
            description,
            content,
            docs_nav,
            current_folder: String::from_str(folder),
            current_slug: String::from_str(slug),
            breadcrumbs,
        }
    }
}

/// The blog index page.
pub struct BlogListTemplate {
    pub site_name: &'static str,
    pub page_title: &'static str,
    pub meta_description: &'static str,
    pub meta_keywords: &'static str,
    pub canonical_url: String,
    pub base_url: &'static str,
    pub og_image: String,
    pub current_year: u16,
    pub posts: Vec<BlogPostSummary>,
}

impl BlogListTemplate {
    pub fn new(seo: &SeoMeta, posts: Vec<BlogPostSummary>) -> (r: BlogListTemplate)
        ensures
            r.site_name == seo.site_name,
            r.base_url == seo.base_url,
            r.current_year == seo.current_year,
            r.page_title@ == "Blog"@,
            r.canonical_url@ == seo.base_url@ + "/blog"@,
            r.og_image@ == og_image_of(seo.base_url@),
            r.posts == posts,
            r.meta_description == BLOG_LIST_DESCRIPTION,
            r.meta_keywords == BLOG_LIST_KEYWORDS,
    {
        BlogListTemplate {
            site_name: seo.site_name,
            page_title: "Blog",
            meta_description: BLOG_LIST_DESCRIPTION,
            meta_keywords: BLOG_LIST_KEYWORDS,
            canonical_url: joined(seo.base_url, "/blog"),
            base_url: seo.base_url,
            og_image: joined(seo.base_url, "/og-image.png"),
            current_year: seo.current_year,
            posts,
        }
    }
}

/// The page for an unknown address.
pub struct NotFoundTemplate {
    pub site_name: &'static str,
    pub page_title: &'static str,
    pub meta_description: &'static str,
    pub meta_keywords: &'static str,
    pub canonical_url: String,
    pub base_url: &'static str,
    pub og_image: String,
    pub current_year: u16,
    pub can_go_back: bool,
}

impl NotFoundTemplate {
    pub fn new(seo: &SeoMeta, can_go_back: bool) -> (r: NotFoundTemplate)
        ensures
            r.site_name == seo.site_name,
            r.base_url == seo.base_url,
            r.current_year == seo.current_year,
            r.page_title@ == "404 - Page Not Found"@,
            r.canonical_url@ == seo.base_url@ + "/404"@,
            r.og_image@ == og_image_of(seo.base_url@),
            r.can_go_back == can_go_back,
            r.meta_description == NOT_FOUND_DESCRIPTION,
            r.meta_keywords == NOT_FOUND_KEYWORDS,
    {
        NotFoundTemplate {
            site_name: seo.site_name,
            page_title: "404 - Page Not Found",
            meta_description: NOT_FOUND_DESCRIPTION,
            meta_keywords: NOT_FOUND_KEYWORDS,
            canonical_url: joined(seo.base_url, "/404"),
            base_url: seo.base_url,
            og_image: joined(seo.base_url, "/og-image.png"),
            current_year: seo.current_year,
            can_go_back,
        }
    }
}

/// A referring page counts as this site when it is under the base URL, on localhost or
/// 127.0.0.1, or on runpiper.ai while the base URL is too.
pub open spec fn same_site(referer: Seq<char>, base: Seq<char>) -> bool {
    is_prefix(base, referer) || is_prefix("http://localhost"@, referer) || is_prefix(
        "https://localhost"@,
        referer,
    ) || occurs_in("127.0.0.1"@, referer) || (occurs_in("runpiper.ai"@, referer) && occurs_in(
        "runpiper.ai"@,
        base,
    ))
}

/// Whether the not-found page offers a way back: only for a referer of this site.
pub fn can_go_back(referer: Option<&str>, base_url: &str) -> (r: bool)
    ensures
        r == match referer {
            Some(s) => same_site(s@, base_url@),
            None => false,
        },
{
    match referer {
        Some(s) => starts_with(s, base_url) || starts_with(s, "http://localhost") || starts_with(
            s,
            "https://localhost",
        ) || contains(s, "127.0.0.1") || (contains(s, "runpiper.ai") && contains(
            base_url,
            "runpiper.ai",
        )),
        None => false,
    }
}

} // verus!
