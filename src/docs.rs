use vstd::prelude::*;
use vstd::multiset::Multiset;
use crate::blog::{blog_candidates, BlogPostView};
use crate::display::{display_name, display_name_of};
use crate::document::{document_spec, parse_source, ParsedSource, SourceFile};
use crate::frontmatter::{frontmatter_spec, Frontmatter};
use crate::yaml::{lookup, YamlValue};
use crate::order::{lemma_insert_all, lemma_insert_sorted, lemma_text_lt_asymmetric, lemma_text_lt_transitive, sorted_by, strict_order, text_less, text_lt};

verus! {

broadcast use vstd::seq_lib::group_to_multiset_ensures;

/// The folder name under which pages directly in the docs root are grouped. No directory
/// has an empty name, so the key is distinct from every real folder's.
pub const ROOT_FOLDER: &'static str = "";

/// The display name of the root group.
pub const ROOT_DISPLAY_NAME: &'static str = "Root";

/// The slug of a folder's landing page.
pub const INDEX_SLUG: &'static str = "index";

/// One documentation page in the navigation tree.
#[derive(Debug, Clone)]
pub struct DocPageSummary {
    /// The folder's raw name; empty for pages directly in the docs root.
    pub folder: String,
    pub slug: String,
    pub title: String,
    pub is_index: bool,
}

pub struct PageView {
    pub folder: Seq<char>,
    pub slug: Seq<char>,
    pub title: Seq<char>,
    pub is_index: bool,
}

impl View for DocPageSummary {
    type V = PageView;

    open spec fn view(&self) -> PageView {
        PageView {
            folder: self.folder@,
            slug: self.slug@,
            title: self.title@,
            is_index: self.is_index,
        }
    }
}

/// A folder of documentation pages with its derived display name.
#[derive(Debug, Clone)]
pub struct DocFolder {
    pub name: String,
    pub display_name: String,
    pub pages: Vec<DocPageSummary>,
}

pub struct FolderView {
    pub name: Seq<char>,
    pub display_name: Seq<char>,
    pub pages: Seq<PageView>,
}

pub open spec fn page_views(s: Seq<DocPageSummary>) -> Seq<PageView> {
    s.map_values(|p: DocPageSummary| p@)
}

impl View for DocFolder {
    type V = FolderView;

    open spec fn view(&self) -> FolderView {
        FolderView {
            name: self.name@,
            display_name: self.display_name@,
            pages: page_views(self.pages@),
        }
    }
}

/// One entry of the docs root, its files already split: a directory with the Markdown
/// files directly inside it, or a Markdown file directly in the root. Entries come from
/// one directory listing, so each directory entry makes its own folder.
pub enum DocsSource {
    Folder { name: String, files: Vec<ParsedSource> },
    Root(ParsedSource),
}

/// One entry of the docs root as read from disk.
pub enum DocsEntry {
    Folder { name: String, files: Vec<SourceFile> },
    Root(SourceFile),
}

/// The page for `src` in folder `folder`, when its front matter reads.
pub open spec fn page_of(folder: Seq<char>, src: ParsedSource) -> Option<PageView> {
    if document_spec(src.front_matter) {
        Some(
            PageView {
                folder,
                slug: src.slug@,
                title: frontmatter_spec(src.front_matter->0)->0.title,
                is_index: src.slug@ == "index"@,
            },
        )
    } else {
        None
    }
}

/// The pages of a directory's files, in file order, skipping unreadable ones.
pub open spec fn folder_pages(folder: Seq<char>, files: Seq<ParsedSource>) -> Seq<PageView>
    decreases files.len(),
{
    if files.len() == 0 {
        Seq::empty()
    } else {
        let prev = folder_pages(folder, files.drop_last());
        match page_of(folder, files.last()) {
            Some(p) => prev.push(p),
            None => prev,
        }
    }
}

/// The pages of the files directly in the docs root, with an empty folder.
pub open spec fn root_pages(entries: Seq<DocsSource>) -> Seq<PageView>
    decreases entries.len(),
{
    if entries.len() == 0 {
        Seq::empty()
    } else {
        let prev = root_pages(entries.drop_last());
        match entries.last() {
            DocsSource::Root(src) => match page_of(Seq::empty(), src) {
                Some(p) => prev.push(p),
                None => prev,
            },
            _ => prev,
        }
    }
}

/// Each directory with at least one readable page, as its name and its pages.
pub open spec fn folder_groups(entries: Seq<DocsSource>) -> Seq<(Seq<char>, Multiset<PageView>)>
    decreases entries.len(),
{
    if entries.len() == 0 {
        Seq::empty()
    } else {
        let prev = folder_groups(entries.drop_last());
        match entries.last() {
            DocsSource::Folder { name, files } => if folder_pages(name@, files@).len() > 0 {
                prev.push((name@, folder_pages(name@, files@).to_multiset()))
            } else {
                prev
            },
            _ => prev,
        }
    }
}

/// The groups a docs listing is made of: the directories' and, when any root file
/// reads, the root group.
pub open spec fn doc_groups(entries: Seq<DocsSource>) -> Seq<(Seq<char>, Multiset<PageView>)> {
    if root_pages(entries).len() > 0 {
        folder_groups(entries).push((Seq::empty(), root_pages(entries).to_multiset()))
    } else {
        folder_groups(entries)
    }
}

/// A folder's name and the pages it holds, order aside.
pub open spec fn folder_key(f: FolderView) -> (Seq<char>, Multiset<PageView>) {
    (f.name, f.pages.to_multiset())
}

/// Page order within a folder: the index page first, the others by title.
pub open spec fn page_before(a: PageView, b: PageView) -> bool {
    (a.is_index && !b.is_index) || (!a.is_index && !b.is_index && text_lt(a.title, b.title))
}

pub open spec fn page_order() -> spec_fn(PageView, PageView) -> bool {
    |a: PageView, b: PageView| page_before(a, b)
}

/// Folder order by raw name; the root group's empty name puts it first.
pub open spec fn folder_before(a: FolderView, b: FolderView) -> bool {
    text_lt(a.name, b.name)
}

pub open spec fn folder_order() -> spec_fn(FolderView, FolderView) -> bool {
    |a: FolderView, b: FolderView| folder_before(a, b)
}

pub open spec fn folder_views(s: Seq<DocFolder>) -> Seq<FolderView> {
    s.map_values(|f: DocFolder| f@)
}

/// A page belongs to `folder`, and is the index page exactly when its slug is `index`.
pub open spec fn page_fits(p: PageView, folder: Seq<char>) -> bool {
    p.folder == folder && p.is_index == (p.slug == "index"@)
}

/// The display name a folder of raw name `name` gets.
pub open spec fn folder_display(name: Seq<char>) -> Seq<char> {
    if name.len() == 0 {
        "Root"@
    } else {
        display_name_of(name)
    }
}

/// A folder as listed: at least one page, pages in page order and all of this folder, and
/// the display name derived from the raw name. Pages with distinct slugs thus hold at most
/// one index page.
pub open spec fn folder_wf(f: FolderView) -> bool {
    &&& f.pages.len() > 0
    &&& sorted_by(f.pages, page_order())
    &&& f.display_name == folder_display(f.name)
    &&& forall|k: int| 0 <= k < f.pages.len() ==> page_fits(#[trigger] f.pages[k], f.name)
}

pub proof fn lemma_page_order()
    ensures
        strict_order(page_order()),
{
    assert forall|a: PageView, b: PageView| #[trigger]
        page_order()(a, b) implies !page_order()(b, a) by {
        lemma_text_lt_asymmetric(a.title, b.title);
    }
    assert forall|a: PageView, b: PageView, c: PageView| #[trigger]
        page_order()(a, b) && #[trigger] page_order()(b, c) implies page_order()(a, c) by {
        if !a.is_index && !b.is_index && !c.is_index {
            lemma_text_lt_transitive(a.title, b.title, c.title);
        }
    }
}

pub proof fn lemma_folder_order()
    ensures
        strict_order(folder_order()),
{
    assert forall|a: FolderView, b: FolderView| #[trigger]
        folder_order()(a, b) implies !folder_order()(b, a) by {
        lemma_text_lt_asymmetric(a.name, b.name);
    }
    assert forall|a: FolderView, b: FolderView, c: FolderView| #[trigger]
        folder_order()(a, b) && #[trigger] folder_order()(b, c) implies folder_order()(a, c) by {
        lemma_text_lt_transitive(a.name, b.name, c.name);
    }
}

/// A file whose front matter has no `title` fails to become a document, so resolving it
/// fails, while both listings leave it out without an error.
pub proof fn lemma_untitled_is_skipped(src: ParsedSource, folder: Seq<char>)
    requires
        src.front_matter matches Some(YamlValue::Mapping(es)) && lookup(es@, "title"@) is None,
    ensures
        !document_spec(src.front_matter),
        page_of(folder, src) is None,
        blog_candidates(seq![src]) == Seq::<BlogPostView>::empty(),
        root_pages(seq![DocsSource::Root(src)]) == Seq::<PageView>::empty(),
{
    reveal_with_fuel(blog_candidates, 2);
    reveal_with_fuel(root_pages, 2);
    assert(seq![src].drop_last() =~= Seq::<ParsedSource>::empty());
    assert(seq![src].last() == src);
    assert(seq![DocsSource::Root(src)].drop_last() =~= Seq::<DocsSource>::empty());
    assert(seq![DocsSource::Root(src)].last() == DocsSource::Root(src));
}

fn page_less(a: &DocPageSummary, b: &DocPageSummary) -> (r: bool)
    ensures
        r == page_before(a@, b@),
{
    if a.is_index {
        !b.is_index
    } else if b.is_index {
        false
    } else {
        text_less(a.title.as_str(), b.title.as_str())
    }
}

fn insert_page(out: &mut Vec<DocPageSummary>, x: DocPageSummary)
    requires
        sorted_by(page_views(old(out)@), page_order()),
    ensures
        sorted_by(page_views(final(out)@), page_order()),
        page_views(final(out)@).to_multiset() == page_views(old(out)@).to_multiset().insert(x@),
        final(out)@.len() == old(out)@.len() + 1,
        exists|p: int|
            0 <= p <= old(out)@.len() && page_views(final(out)@) == page_views(old(out)@).insert(
                p,
                x@,
            ),
{
    let n = out.len();
    let mut p: usize = 0;
    while p < n && !page_less(&x, &out[p])
        invariant
            n == out@.len(),
            p <= n,
            forall|k: int| 0 <= k < p ==> !page_before(x@, #[trigger] out@[k]@),
        decreases n - p,
    {
        p = p + 1;
    }
    let ghost before = page_views(out@);
    let ghost xv = x@;
    proof {
        lemma_page_order();
        lemma_insert_sorted(before, p as int, xv, page_order());
    }
    out.insert(p, x);
    assert(page_views(out@) =~= before.insert(p as int, xv));
}

fn folder_less(a: &DocFolder, b: &DocFolder) -> (r: bool)
    ensures
        r == folder_before(a@, b@),
{
    text_less(a.name.as_str(), b.name.as_str())
}

fn insert_folder(out: &mut Vec<DocFolder>, x: DocFolder)
    requires
        sorted_by(folder_views(old(out)@), folder_order()),
    ensures
        sorted_by(folder_views(final(out)@), folder_order()),
        exists|p: int|
            0 <= p <= old(out)@.len() && folder_views(final(out)@) == folder_views(
                old(out)@,
            ).insert(p, x@),
{
    let n = out.len();
    let mut p: usize = 0;
    while p < n && !folder_less(&x, &out[p])
        invariant
            n == out@.len(),
            p <= n,
            forall|k: int| 0 <= k < p ==> !folder_before(x@, #[trigger] out@[k]@),
        decreases n - p,
    {
        p = p + 1;
    }
    let ghost before = folder_views(out@);
    let ghost xv = x@;
    proof {
        lemma_folder_order();
        lemma_insert_sorted(before, p as int, xv, folder_order());
    }
    out.insert(p, x);
    assert(folder_views(out@) =~= before.insert(p as int, xv));
}

proof fn lemma_insert_wf(before: Seq<DocFolder>, after: Seq<DocFolder>, p: int, fv: FolderView)
    requires
        0 <= p <= before.len(),
        folder_views(after) == folder_views(before).insert(p, fv),
        forall|k: int| 0 <= k < before.len() ==> folder_wf(#[trigger] before[k]@),
        folder_wf(fv),
    ensures
        forall|k: int| 0 <= k < after.len() ==> folder_wf(#[trigger] after[k]@),
{
    assert forall|k: int| 0 <= k < after.len() implies folder_wf(#[trigger] after[k]@) by {
        assert(folder_views(after).len() == after.len());
        assert(folder_views(after)[k] == after[k]@);
        if k < p {
            assert(folder_views(before)[k] == before[k]@);
        } else if k > p {
            assert(folder_views(before)[k - 1] == before[k - 1]@);
        }
    }
}

/// The directory name of an entry; `None` for a root file.
pub open spec fn dir_name(e: DocsSource) -> Option<Seq<char>> {
    match e {
        DocsSource::Folder { name, .. } => Some(name@),
        DocsSource::Root(_) => None,
    }
}

/// The directory entries have distinct, non-empty names, as one directory listing does.
pub open spec fn distinct_dirs(entries: Seq<DocsSource>) -> bool {
    &&& forall|i: int, j: int|
        0 <= i < entries.len() && 0 <= j < entries.len() && i != j && #[trigger] dir_name(entries[i])
            is Some && #[trigger] dir_name(entries[j]) is Some ==> dir_name(entries[i]) != dir_name(
            entries[j],
        )
    &&& forall|i: int|
        0 <= i < entries.len() && #[trigger] dir_name(entries[i]) is Some ==> dir_name(
            entries[i],
        )->0.len() > 0
}

/// No two folders share a name.
pub open spec fn names_distinct(s: Seq<FolderView>) -> bool {
    forall|i: int, j: int| 0 <= i < j < s.len() ==> #[trigger] s[i].name != #[trigger] s[j].name
}

/// One of the first `i` entries is a directory named `name`.
pub open spec fn named_before(entries: Seq<DocsSource>, i: int, name: Seq<char>) -> bool {
    exists|j: int| 0 <= j < i && #[trigger] dir_name(entries[j]) == Some(name)
}

proof fn lemma_folder_names_insert(
    entries: Seq<DocsSource>,
    i: int,
    before: Seq<FolderView>,
    p: int,
    fv: FolderView,
)
    requires
        0 <= i < entries.len(),
        dir_name(entries[i]) == Some(fv.name),
        0 <= p <= before.len(),
        forall|k: int| 0 <= k < before.len() ==> named_before(entries, i, #[trigger] before[k].name),
        distinct_dirs(entries) ==> names_distinct(before),
    ensures
        forall|k: int|
            0 <= k < before.len() + 1 ==> named_before(
                entries,
                i + 1,
                #[trigger] before.insert(p, fv)[k].name,
            ),
        distinct_dirs(entries) ==> names_distinct(before.insert(p, fv)),
{
    let after = before.insert(p, fv);
    assert forall|k: int| 0 <= k < before.len() + 1 implies named_before(
        entries,
        i + 1,
        #[trigger] after[k].name,
    ) by {
        if k == p {
            assert(dir_name(entries[i]) == Some(after[k].name));
        } else {
            let m = if k < p { k } else { k - 1 };
            assert(after[k] == before[m]);
            assert(named_before(entries, i, before[m].name));
            let j = choose|j: int| 0 <= j < i && #[trigger] dir_name(entries[j]) == Some(before[m].name);
            assert(dir_name(entries[j]) == Some(after[k].name));
        }
    }
    if distinct_dirs(entries) {
        assert forall|a: int, b: int| 0 <= a < b < after.len() implies #[trigger] after[a].name
            != #[trigger] after[b].name by {
            if a != p && b != p {
                let ma = if a < p { a } else { a - 1 };
                let mb = if b < p { b } else { b - 1 };
                assert(after[a] == before[ma] && after[b] == before[mb]);
            } else {
                let o = if a == p { b } else { a };
                let m = if o < p { o } else { o - 1 };
                assert(after[o] == before[m]);
                assert(named_before(entries, i, before[m].name));
                let j = choose|j: int| 0 <= j < i && #[trigger] dir_name(entries[j]) == Some(before[m].name);
                assert(dir_name(entries[j]) != dir_name(entries[i]));
            }
        }
    }
}

proof fn lemma_root_name_insert(entries: Seq<DocsSource>, before: Seq<FolderView>, p: int, fv: FolderView)
    requires
        fv.name.len() == 0,
        0 <= p <= before.len(),
        forall|k: int|
            0 <= k < before.len() ==> named_before(entries, entries.len() as int, #[trigger] before[k].name),
        distinct_dirs(entries) ==> names_distinct(before),
    ensures
        distinct_dirs(entries) ==> names_distinct(before.insert(p, fv)),
{
    let after = before.insert(p, fv);
    if distinct_dirs(entries) {
        assert forall|a: int, b: int| 0 <= a < b < after.len() implies #[trigger] after[a].name
            != #[trigger] after[b].name by {
            if a != p && b != p {
                let ma = if a < p { a } else { a - 1 };
                let mb = if b < p { b } else { b - 1 };
                assert(after[a] == before[ma] && after[b] == before[mb]);
            } else {
                let o = if a == p { b } else { a };
                let m = if o < p { o } else { o - 1 };
                assert(after[o] == before[m]);
                assert(named_before(entries, entries.len() as int, before[m].name));
                let j = choose|j: int|
                    0 <= j < entries.len() && #[trigger] dir_name(entries[j]) == Some(before[m].name);
                assert(dir_name(entries[j])->0.len() > 0);
            }
        }
    }
}

fn folder_display_name(name: &String) -> (r: String)
    ensures
        r@ == folder_display(name@),
{
    if name.as_str().is_empty() {
        String::from_str(ROOT_DISPLAY_NAME)
    } else {
        display_name(name.as_str())
    }
}

fn page_from(folder: &String, src: &ParsedSource) -> (r: Option<DocPageSummary>)
    ensures
        match r {
            Some(p) => page_of(folder@, *src) == Some(p@),
            None => page_of(folder@, *src) is None,
        },
{
    match &src.front_matter {
        Some(v) => match Frontmatter::from_yaml(v) {
            Ok(fm) => {
                let is_index = src.slug == String::from_str(INDEX_SLUG);
                proof {
                    reveal_strlit("index");
                }
                Some(
                    DocPageSummary {
                        folder: folder.clone(),
                        slug: src.slug.clone(),
                        title: fm.title,
                        is_index,
                    },
                )
            },
            Err(_) => None,
        },
        None => None,
    }
}

/// The pages of one directory's files, in page order.
fn sorted_folder_pages(folder: &String, files: &Vec<ParsedSource>) -> (r: Vec<DocPageSummary>)
    ensures
        sorted_by(page_views(r@), page_order()),
        page_views(r@).to_multiset() == folder_pages(folder@, files@).to_multiset(),
        forall|k: int| 0 <= k < r@.len() ==> page_fits(#[trigger] page_views(r@)[k], folder@),
{
    let mut out: Vec<DocPageSummary> = Vec::new();
    let n = files.len();
    let mut i: usize = 0;
    assert(page_views(out@) =~= Seq::empty());
    while i < n
        invariant
            n == files@.len(),
            i <= n,
            sorted_by(page_views(out@), page_order()),
            page_views(out@).to_multiset() == folder_pages(folder@, files@.take(i as int)).to_multiset(),
            forall|k: int| 0 <= k < out@.len() ==> page_fits(#[trigger] page_views(out@)[k], folder@),
        decreases n - i,
    {
        assert(files@.take(i + 1).drop_last() =~= files@.take(i as int));
        match page_from(folder, &files[i]) {
            Some(p) => {
                let ghost before = page_views(out@);
                let ghost pv = p@;
                insert_page(&mut out, p);
                proof {
                    let q = choose|q: int|
                        0 <= q <= before.len() && page_views(out@) == before.insert(q, pv);
                    let pred = |v: PageView| page_fits(v, folder@);
                    assert(pred(pv));
                    assert forall|k: int| 0 <= k < before.len() implies pred(#[trigger] before[k]) by {
                        assert(page_fits(before[k], folder@));
                    }
                    lemma_insert_all(before, q, pv, pred);
                    assert forall|k: int| 0 <= k < out@.len() implies page_fits(
                        #[trigger] page_views(out@)[k],
                        folder@,
                    ) by {
                        assert(page_views(out@).len() == out@.len());
                        assert(pred(before.insert(q, pv)[k]));
                    }
                }
            },
            None => {},
        }
        i = i + 1;
    }
    assert(files@.take(n as int) =~= files@);
    out
}

/// The docs listing for an already split docs root. Each directory with at least one page
/// whose front matter reads becomes a folder; files directly in the root, if any reads, form
/// the `ROOT_FOLDER` group (empty name) with an empty `folder` in their pages. Unreadable files are
/// skipped. Folders come root first, then by name; pages index first, then by title.
pub fn docs_from_sources(entries: &Vec<DocsSource>) -> (r: Vec<DocFolder>)
    ensures
        sorted_by(folder_views(r@), folder_order()),
        folder_views(r@).map_values(|f: FolderView| folder_key(f)).to_multiset() == doc_groups(
            entries@,
        ).to_multiset(),
        forall|i: int| 0 <= i < r@.len() ==> folder_wf(#[trigger] r@[i]@),
        distinct_dirs(entries@) ==> names_distinct(folder_views(r@)),
        entries@.len() == 0 ==> r@.len() == 0,
{
    let n = entries.len();
    let empty = String::new();
    let mut root: Vec<DocPageSummary> = Vec::new();
    let mut i: usize = 0;
    assert(page_views(root@) =~= Seq::empty());
    while i < n
        invariant
            n == entries@.len(),
            i <= n,
            empty@ == Seq::<char>::empty(),
            root@.len() <= i,
            sorted_by(page_views(root@), page_order()),
            page_views(root@).to_multiset() == root_pages(entries@.take(i as int)).to_multiset(),
            forall|k: int| 0 <= k < root@.len() ==> page_fits(#[trigger] page_views(root@)[k], Seq::empty()),
        decreases n - i,
    {
        assert(entries@.take(i + 1).drop_last() =~= entries@.take(i as int));
        match &entries[i] {
            DocsSource::Root(src) => match page_from(&empty, src) {
                Some(p) => {
                    let ghost before = page_views(root@);
                    let ghost pv = p@;
                    insert_page(&mut root, p);
                    proof {
                        let q = choose|q: int|
                            0 <= q <= before.len() && page_views(root@) == before.insert(q, pv);
                        let pred = |v: PageView| page_fits(v, Seq::empty());
                        assert(pred(pv));
                        assert forall|k: int| 0 <= k < before.len() implies pred(#[trigger] before[k]) by {
                            assert(page_fits(before[k], Seq::empty()));
                        }
                        lemma_insert_all(before, q, pv, pred);
                        assert forall|k: int| 0 <= k < root@.len() implies page_fits(
                            #[trigger] page_views(root@)[k],
                            Seq::empty(),
                        ) by {
                            assert(page_views(root@).len() == root@.len());
                        assert(pred(before.insert(q, pv)[k]));
                        }
                    }
                },
                None => {},
            },
            _ => {},
        }
        i = i + 1;
    }
    assert(entries@.take(n as int) =~= entries@);

    let mut out: Vec<DocFolder> = Vec::new();
    let ghost keys = |s: Seq<DocFolder>| folder_views(s).map_values(|f: FolderView| folder_key(f));
    i = 0;
    assert(keys(out@) =~= Seq::empty());
    while i < n
        invariant
            n == entries@.len(),
            i <= n,
            keys == (|s: Seq<DocFolder>| folder_views(s).map_values(|f: FolderView| folder_key(f))),
            sorted_by(folder_views(out@), folder_order()),
            keys(out@).to_multiset() == folder_groups(entries@.take(i as int)).to_multiset(),
            forall|k: int| 0 <= k < out@.len() ==> folder_wf(#[trigger] out@[k]@),
            out@.len() <= i,
            n == 0 ==> root@.len() == 0,
            forall|k: int|
                0 <= k < out@.len() ==> named_before(entries@, i as int, #[trigger] folder_views(out@)[k].name),
            distinct_dirs(entries@) ==> names_distinct(folder_views(out@)),
        decreases n - i,
    {
        assert(entries@.take(i + 1).drop_last() =~= entries@.take(i as int));
        match &entries[i] {
            DocsSource::Folder { name, files } => {
                let pages = sorted_folder_pages(name, files);
                assert(page_views(pages@).to_multiset().len() == page_views(pages@).len());
                assert(folder_pages(name@, files@).to_multiset().len() == folder_pages(
                    name@,
                    files@,
                ).len());
                if pages.len() > 0 {
                    let f = DocFolder { name: name.clone(), display_name: folder_display_name(name), pages };
                    let ghost old_out = out@;
                    let ghost fv = f@;
                    insert_folder(&mut out, f);
                    proof {
                        let p = choose|p: int|
                            0 <= p <= old_out.len() && folder_views(out@) == folder_views(
                                old_out,
                            ).insert(p, fv);
                        assert(keys(out@) =~= keys(old_out).insert(p, folder_key(fv)));
                        lemma_insert_wf(old_out, out@, p, fv);
                        lemma_folder_names_insert(entries@, i as int, folder_views(old_out), p, fv);
                        assert(folder_views(out@).len() == out@.len());
                    }
                }
            },
            _ => {},
        }
        proof {
            assert forall|k: int| 0 <= k < out@.len() implies named_before(
                entries@,
                i + 1,
                #[trigger] folder_views(out@)[k].name,
            ) by {
                if !named_before(entries@, i + 1, folder_views(out@)[k].name) {
                    assert(named_before(entries@, i as int, folder_views(out@)[k].name)
                        || folder_views(out@)[k].name == folder_views(out@)[k].name);
                }
            }
        }
        i = i + 1;
    }
    assert(entries@.take(n as int) =~= entries@);
    if root.len() > 0 {
        let name = String::new();
        let f = DocFolder { display_name: folder_display_name(&name), name, pages: root };
        let ghost old_out = out@;
        let ghost fv = f@;
        insert_folder(&mut out, f);
        proof {
            let p = choose|p: int|
                0 <= p <= old_out.len() && folder_views(out@) == folder_views(old_out).insert(p, fv);
            assert(keys(out@) =~= keys(old_out).insert(p, folder_key(fv)));
            lemma_insert_wf(old_out, out@, p, fv);
            lemma_root_name_insert(entries@, folder_views(old_out), p, fv);
            assert(page_views(root@).to_multiset().len() == page_views(root@).len());
            assert(root_pages(entries@).to_multiset().len() == root_pages(entries@).len());
        }
    } else {
        assert(page_views(root@).to_multiset().len() == page_views(root@).len());
        assert(root_pages(entries@).to_multiset().len() == root_pages(entries@).len());
    }
    out
}

/// `s` is `e` with each file reduced to its slug and front matter: same kind, directory
/// name and file slugs, in the same order.
pub open spec fn entry_shape(s: DocsSource, e: DocsEntry) -> bool {
    match (s, e) {
        (DocsSource::Folder { name, files }, DocsEntry::Folder { name: en, files: ef }) => {
            &&& name@ == en@
            &&& files@.len() == ef@.len()
            &&& forall|m: int| 0 <= m < files@.len() ==> #[trigger] files@[m].slug@ == ef@[m].slug@
        },
        (DocsSource::Root(src), DocsEntry::Root(f)) => src.slug@ == f.slug@,
        _ => false,
    }
}

/// The docs listing for the entries of the docs root as read from disk: each file's front
/// matter is read and the listing built as `docs_from_sources` does.
pub fn index_docs(entries: &Vec<DocsEntry>) -> (r: Vec<DocFolder>)
    ensures
        sorted_by(folder_views(r@), folder_order()),
        forall|i: int| 0 <= i < r@.len() ==> folder_wf(#[trigger] r@[i]@),
        entries@.len() == 0 ==> r@.len() == 0,
        exists|s: Seq<DocsSource>|
            {
                &&& s.len() == entries@.len()
                &&& forall|k: int| 0 <= k < s.len() ==> entry_shape(#[trigger] s[k], entries@[k])
                &&& folder_views(r@).map_values(|f: FolderView| folder_key(f)).to_multiset()
                    == doc_groups(s).to_multiset()
                &&& distinct_dirs(s) ==> names_distinct(folder_views(r@))
            },
{
    let mut sources: Vec<DocsSource> = Vec::new();
    let n = entries.len();
    let mut i: usize = 0;
    while i < n
        invariant
            n == entries@.len(),
            i <= n,
            sources@.len() == i,
            forall|k: int| 0 <= k < i ==> entry_shape(#[trigger] sources@[k], entries@[k]),
        decreases n - i,
    {
        match &entries[i] {
            DocsEntry::Folder { name, files } => {
                let mut parsed: Vec<ParsedSource> = Vec::new();
                let m = files.len();
                let mut j: usize = 0;
                while j < m
                    invariant
                        m == files@.len(),
                        j <= m,
                        parsed@.len() == j,
                        forall|q: int| 0 <= q < j ==> #[trigger] parsed@[q].slug@ == files@[q].slug@,
                    decreases m - j,
                {
                    parsed.push(parse_source(&files[j]));
                    j = j + 1;
                }
                sources.push(DocsSource::Folder { name: name.clone(), files: parsed });
            },
            DocsEntry::Root(file) => {
                sources.push(DocsSource::Root(parse_source(file)));
            },
        }
        i = i + 1;
    }
    let r = docs_from_sources(&sources);
    r
}

} // verus!
