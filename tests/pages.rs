use site_content::docs::{DocFolder, ROOT_FOLDER};
use site_content::order::text_less;
use site_content::pages::{can_go_back, BlogListTemplate, BlogTemplate, DocsTemplate, HomeTemplate, NotFoundTemplate};
use site_content::seo::{year_from_unix_seconds, PageSeo, SeoMeta, BASE_URL, SITE_NAME};
use site_content::text::{contains, starts_with};

fn seo() -> SeoMeta {
    SeoMeta::new(2025)
}

fn crumbs(items: &[site_content::pages::BreadcrumbItem]) -> Vec<(String, String)> {
    items.iter().map(|b| (b.label.clone(), b.url.clone())).collect()
}

fn pair(a: &str, b: &str) -> (String, String) {
    (a.to_string(), b.to_string())
}

#[test]
fn year_from_seconds() {
    assert_eq!(year_from_unix_seconds(0), 1970);
    assert_eq!(year_from_unix_seconds(31_557_600 * 55), 2025);
    assert_eq!(year_from_unix_seconds(31_557_600 * 55 - 1), 2024);
    assert_eq!(year_from_unix_seconds(u64::MAX), u16::MAX);
}

#[test]
fn seo_meta_holds_the_site_settings() {
    let s = seo();
    assert_eq!(s.site_name, SITE_NAME);
    assert_eq!(s.base_url, BASE_URL);
    assert_eq!(s.current_year, 2025);
    let d = SeoMeta::default();
    assert!(d.current_year >= 2024);
}

#[test]
fn page_seo_builders() {
    let p = PageSeo::new("Title", "Desc");
    assert_eq!(p.og_type, "website");
    assert_eq!(p.keywords, "");
    assert_eq!(p.canonical_path, "");
    let p = p.with_keywords("a, b").with_path("/blog/x").as_article();
    assert_eq!(p.title, "Title");
    assert_eq!(p.description, "Desc");
    assert_eq!(p.keywords, "a, b");
    assert_eq!(p.canonical_path, "/blog/x");
    assert_eq!(p.og_type, "article");
}

#[test]
fn home_page_urls() {
    let h = HomeTemplate::new(&seo());
    assert_eq!(h.canonical_url, "https://example.com");
    assert_eq!(h.og_image, "https://example.com/og-image.png");
    assert_eq!(h.page_title, "Home");
    assert_eq!(h.heading, site_content::pages::HOME_HEADING);
    assert_eq!(h.current_year, 2025);
}

#[test]
fn blog_page_trail_and_description() {
    let b = BlogTemplate::new(&seo(), "hello", "Hello".to_string(), None, None, None, None, "<p/>".to_string());
    assert_eq!(b.meta_description, "Hello - My Website");
    assert_eq!(b.canonical_url, "https://example.com/blog/hello");
    assert_eq!(crumbs(&b.breadcrumbs), vec![pair("Blog", "/blog"), pair("Hello", "/blog/hello")]);
    let b = BlogTemplate::new(&seo(), "x", "X".to_string(), Some("Given".to_string()), None, None, None, String::new());
    assert_eq!(b.meta_description, "Given");
}

fn nav() -> Vec<DocFolder> {
    vec![DocFolder { name: "guide".to_string(), display_name: "The Guide".to_string(), pages: vec![] }]
}

#[test]
fn docs_page_in_a_folder() {
    let d = DocsTemplate::new(&seo(), "guide", "intro", "Intro".to_string(), None, String::new(), nav());
    assert_eq!(d.canonical_url, "https://example.com/docs/guide/intro");
    assert_eq!(d.meta_description, "Intro - Documentation");
    assert_eq!(
        crumbs(&d.breadcrumbs),
        vec![pair("Docs", "/docs"), pair("The Guide", "/docs/guide"), pair("Intro", "")]
    );
}

#[test]
fn docs_folder_index_and_fallback_label() {
    let d = DocsTemplate::new(&seo(), "getting_started-guide", "index", "Start".to_string(), Some("S".to_string()), String::new(), nav());
    assert_eq!(d.canonical_url, "https://example.com/docs/getting_started-guide");
    assert_eq!(d.meta_description, "S");
    assert_eq!(
        crumbs(&d.breadcrumbs),
        vec![pair("Docs", "/docs"), pair("Getting Started Guide", ""), pair("Start", "")]
    );
}

#[test]
fn docs_root_page() {
    let d = DocsTemplate::new(&seo(), "", "docs", "Docs".to_string(), None, String::new(), vec![]);
    assert_eq!(d.canonical_url, "https://example.com/docs");
    assert_eq!(crumbs(&d.breadcrumbs), vec![pair("Docs", ""), pair("Docs", "")]);
    assert_eq!(d.current_folder, "");
    assert_eq!(d.current_slug, "docs");
}

#[test]
fn list_and_not_found_pages() {
    let l = BlogListTemplate::new(&seo(), vec![]);
    assert_eq!(l.canonical_url, "https://example.com/blog");
    let n = NotFoundTemplate::new(&seo(), true);
    assert_eq!(n.canonical_url, "https://example.com/404");
    assert!(n.can_go_back);
}

#[test]
fn referer_decides_way_back() {
    assert!(can_go_back(Some("https://example.com/blog"), BASE_URL));
    assert!(can_go_back(Some("http://localhost:3000/x"), BASE_URL));
    assert!(can_go_back(Some("https://localhost/"), BASE_URL));
    assert!(can_go_back(Some("http://127.0.0.1:8080/"), BASE_URL));
    assert!(!can_go_back(Some("https://runpiper.ai/"), BASE_URL));
    assert!(can_go_back(Some("https://runpiper.ai/"), "https://www.runpiper.ai"));
    assert!(!can_go_back(Some("https://other.org/"), BASE_URL));
    assert!(!can_go_back(None, BASE_URL));
}

#[test]
fn text_helpers() {
    assert!(starts_with("abc", "ab"));
    assert!(starts_with("abc", ""));
    assert!(!starts_with("ab", "abc"));
    assert!(contains("xx127.0.0.1", "127.0.0.1"));
    assert!(contains("", ""));
    assert!(!contains("abc", "bd"));
    assert!(text_less("2024-01-01", "2024-06-01"));
    assert!(!text_less("b", "a"));
    assert!(text_less("a", "ab"));
    assert!(!text_less("a", "a"));
    assert!(text_less(ROOT_FOLDER, "a"));
}
