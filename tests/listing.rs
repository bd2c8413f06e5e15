use site_content::blog::{blog_posts_from_sources, index_blog_posts};
use site_content::display::display_name;
use site_content::docs::{docs_from_sources, index_docs, DocsEntry, DocsSource, ROOT_FOLDER};
use site_content::document::{ParsedSource, SourceFile};
use site_content::yaml::YamlValue;

fn file(slug: &str, text: &str) -> SourceFile {
    SourceFile { slug: slug.to_string(), text: text.to_string() }
}

#[test]
fn empty_blog_directory_lists_nothing() {
    assert!(index_blog_posts(&Vec::new()).is_empty());
    assert!(blog_posts_from_sources(&Vec::new()).is_empty());
}

#[test]
fn blog_posts_newest_first_then_undated_by_title() {
    let files = vec![
        file("old", "---\ntitle: Old\ndate: 2024-01-01\n---\nx"),
        file("zeta", "---\ntitle: Zeta\n---\nx"),
        file("new", "---\ntitle: New\ndate: 2024-06-01\n---\nx"),
    ];
    let posts = index_blog_posts(&files);
    let dates: Vec<Option<&str>> = posts.iter().map(|p| p.date.as_deref()).collect();
    assert_eq!(dates, vec![Some("2024-06-01"), Some("2024-01-01"), None]);
    assert_eq!(posts[2].title, "Zeta");
    assert_eq!(posts[0].slug, "new");
}

#[test]
fn undated_posts_sort_by_title() {
    let files = vec![
        file("b", "---\ntitle: Beta\n---\n"),
        file("a", "---\ntitle: Alpha\n---\n"),
        file("d", "---\ntitle: Delta\ndate: \"2023-03-03\"\n---\n"),
    ];
    let titles: Vec<String> = index_blog_posts(&files).into_iter().map(|p| p.title).collect();
    assert_eq!(titles, vec!["Delta", "Alpha", "Beta"]);
}

#[test]
fn blog_listing_skips_unreadable_files() {
    let files = vec![
        file("good", "---\ntitle: Good\ntags: [x, y]\n---\n"),
        file("untitled", "---\ndescription: no title\n---\n"),
        file("bare", "no front matter at all"),
    ];
    let posts = index_blog_posts(&files);
    assert_eq!(posts.len(), 1);
    assert_eq!(posts[0].slug, "good");
    assert_eq!(posts[0].tags, Some(vec!["x".to_string(), "y".to_string()]));
}

#[test]
fn blog_summaries_keep_the_front_matter() {
    let files = vec![file("p", "---\ntitle: P\ndescription: D\nauthor: A\ndate: 2020-02-02\n---\nbody")];
    let p = &index_blog_posts(&files)[0];
    assert_eq!(p.description.as_deref(), Some("D"));
    assert_eq!(p.author.as_deref(), Some("A"));
    assert_eq!(p.date.as_deref(), Some("2020-02-02"));
}

#[test]
fn blog_sources_with_equal_dates_are_all_kept() {
    let src = |slug: &str, title: &str| ParsedSource {
        slug: slug.to_string(),
        front_matter: Some(YamlValue::Mapping(vec![
            ("title".to_string(), YamlValue::Text(title.to_string())),
            ("date".to_string(), YamlValue::Text("2024-01-01".to_string())),
        ])),
    };
    let posts = blog_posts_from_sources(&vec![src("a", "A"), src("b", "B")]);
    assert_eq!(posts.len(), 2);
}

fn docs_fixture(with_root: bool) -> Vec<DocsEntry> {
    let mut entries = vec![
        DocsEntry::Folder {
            name: "getting-started".to_string(),
            files: vec![
                file("install", "---\ntitle: Installation\n---\n"),
                file("index", "---\ntitle: Start Here\n---\n"),
            ],
        },
        DocsEntry::Folder {
            name: "advanced-topics".to_string(),
            files: vec![
                file("tuning", "---\ntitle: Tuning\n---\n"),
                file("index", "---\ntitle: Overview\n---\n"),
            ],
        },
    ];
    if with_root {
        entries.push(DocsEntry::Root(file("index", "---\ntitle: Docs Home\n---\n")));
    }
    entries
}

#[test]
fn docs_folders_and_index_pages_are_ordered() {
    let folders = index_docs(&docs_fixture(true));
    let names: Vec<&str> = folders.iter().map(|f| f.name.as_str()).collect();
    assert_eq!(names, vec![ROOT_FOLDER, "advanced-topics", "getting-started"]);
    assert_eq!(folders[0].name, "");
    assert_eq!(folders[0].display_name, "Root");
    assert_eq!(folders[0].pages[0].folder, "");
    assert_eq!(folders[0].pages[0].title, "Docs Home");
    for f in &folders[1..] {
        assert_eq!(f.pages.len(), 2);
        assert!(f.pages[0].is_index);
        assert_eq!(f.pages[0].slug, "index");
        assert!(!f.pages[1].is_index);
        assert_eq!(f.pages[1].folder, f.name);
    }
    assert_eq!(folders[1].display_name, "Advanced Topics");
    assert_eq!(folders[2].display_name, "Getting Started");
}

#[test]
fn docs_without_root_files_have_no_root_group() {
    let folders = index_docs(&docs_fixture(false));
    let names: Vec<&str> = folders.iter().map(|f| f.name.as_str()).collect();
    assert_eq!(names, vec!["advanced-topics", "getting-started"]);
}

#[test]
fn docs_pages_other_than_index_sort_by_title() {
    let entries = vec![DocsEntry::Folder {
        name: "guide".to_string(),
        files: vec![
            file("z", "---\ntitle: Zebra\n---\n"),
            file("a", "---\ntitle: Apple\n---\n"),
            file("index", "---\ntitle: Middle\n---\n"),
        ],
    }];
    let titles: Vec<String> = index_docs(&entries)[0].pages.iter().map(|p| p.title.clone()).collect();
    assert_eq!(titles, vec!["Middle", "Apple", "Zebra"]);
}

#[test]
fn docs_listing_skips_unreadable_files_and_empty_folders() {
    let entries = vec![
        DocsEntry::Folder { name: "empty".to_string(), files: vec![file("x", "---\nauthor: nobody\n---\n")] },
        DocsEntry::Folder {
            name: "mixed".to_string(),
            files: vec![file("ok", "---\ntitle: Ok\n---\n"), file("bad", "no front matter")],
        },
        DocsEntry::Root(file("loose", "---\ndate: 2020-01-01\n---\n")),
    ];
    let folders = index_docs(&entries);
    assert_eq!(folders.len(), 1);
    assert_eq!(folders[0].name, "mixed");
    assert_eq!(folders[0].pages.len(), 1);
}

#[test]
fn empty_docs_directory_lists_nothing() {
    assert!(index_docs(&Vec::new()).is_empty());
    assert!(docs_from_sources(&Vec::<DocsSource>::new()).is_empty());
}

#[test]
fn display_name_title_cases_words() {
    assert_eq!(display_name("getting_started-guide"), "Getting Started Guide");
    assert_eq!(display_name("api"), "Api");
    assert_eq!(display_name("--a__b  c-"), "A B C");
    assert_eq!(display_name(""), "");
    assert_eq!(display_name("\u{e9}t\u{e9}"), "\u{c9}t\u{e9}");
    assert_eq!(display_name("_root"), "Root");
}

#[test]
fn directory_named_like_a_marker_stays_apart_from_root_files() {
    let entries = vec![
        DocsEntry::Folder { name: "_root".to_string(), files: vec![file("a", "---\ntitle: A\n---\n")] },
        DocsEntry::Root(file("b", "---\ntitle: B\n---\n")),
    ];
    let folders = index_docs(&entries);
    let names: Vec<&str> = folders.iter().map(|f| f.name.as_str()).collect();
    assert_eq!(names, vec![ROOT_FOLDER, "_root"]);
    assert_eq!(folders[1].display_name, "Root");
    assert_eq!(folders[1].pages[0].folder, "_root");
}

#[test]
fn only_index_slug_marks_an_index_page() {
    let entries = vec![DocsEntry::Folder {
        name: "g".to_string(),
        files: vec![file("index", "---\ntitle: I\n---\n"), file("indexes", "---\ntitle: A\n---\n")],
    }];
    let pages = &index_docs(&entries)[0].pages;
    assert_eq!(pages.iter().filter(|p| p.is_index).count(), 1);
    assert_eq!(pages[0].slug, "index");
}
