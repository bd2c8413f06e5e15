use vstd::prelude::*;
use vstd::std_specs::convert::IntoSpec;

verus! {

/// The site's name.
pub const SITE_NAME: &'static str = "My Website";

/// The site's base URL, without a trailing slash.
pub const BASE_URL: &'static str = "https://example.com";

/// Seconds in an average Julian year.
pub const SECONDS_PER_YEAR: u64 = 31_557_600;

/// Site-wide SEO settings, built once and handed to the pages that need them.
pub struct SeoMeta {
    pub site_name: &'static str,
    pub base_url: &'static str,
    pub current_year: u16,
}

/// The approximate calendar year `secs` seconds after the Unix epoch, capped at `u16::MAX`.
pub open spec fn year_of(secs: u64) -> int {
    let y = 1970 + secs / SECONDS_PER_YEAR;
    if y > u16::MAX {
        u16::MAX as int
    } else {
        y
    }
}

pub fn year_from_unix_seconds(secs: u64) -> (r: u16)
    ensures
        r == year_of(secs),
{
    let y = 1970 + secs / SECONDS_PER_YEAR;
    if y > u16::MAX as u64 {
        u16::MAX
    } else {
        y as u16
    }
}

/// Relies on `SystemTime::now` and `duration_since(UNIX_EPOCH)`: seconds since the epoch,
/// 0 for a clock set before it. Nothing is known of the value.
#[verifier::external_body]
fn unix_seconds_now() -> u64 {
    std::time::SystemTime::now().duration_since(std::time::UNIX_EPOCH).map(|d| d.as_secs()).unwrap_or(0)
}

impl SeoMeta {
    /// The site's settings with the given current year.
    pub fn new(current_year: u16) -> (r: SeoMeta)
        ensures
            r.site_name == SITE_NAME,
            r.base_url == BASE_URL,
            r.current_year == current_year,
    {
        SeoMeta { site_name: SITE_NAME, base_url: BASE_URL, current_year }
    }
}

impl Default for SeoMeta {
    /// The site's settings, with the year taken from the system clock.
    fn default() -> (r: SeoMeta)
        ensures
            r.site_name == SITE_NAME,
            r.base_url == BASE_URL,
            exists|secs: u64| r.current_year == year_of(secs),
    {
        let secs = unix_seconds_now();
        SeoMeta::new(year_from_unix_seconds(secs))
    }
}

/// Page-specific SEO data.
pub struct PageSeo {
    pub title: String,
    pub description: String,
    pub keywords: String,
    pub canonical_path: String,
    pub og_type: String,
}

impl PageSeo {
    /// A `website` page with the given title and description and no keywords or path.
    pub fn new<T: Into<String>, D: Into<String>>(title: T, description: D) -> (r: PageSeo)
        ensures
            T::obeys_into_spec() ==> r.title == title.into_spec(),
            D::obeys_into_spec() ==> r.description == description.into_spec(),
            r.keywords@ == Seq::<char>::empty(),
            r.canonical_path@ == Seq::<char>::empty(),
            r.og_type@ == "website"@,
    {
        PageSeo {
            title: title.into(),
            description: description.into(),
            keywords: String::new(),
            canonical_path: String::new(),
            og_type: String::from_str("website"),
        }
    }

    /// Sets the keywords, keeping the other fields.
    pub fn with_keywords<K: Into<String>>(self, keywords: K) -> (r: PageSeo)
        ensures
            K::obeys_into_spec() ==> r.keywords == keywords.into_spec(),
            r.title == self.title,
            r.description == self.description,
            r.canonical_path == self.canonical_path,
            r.og_type == self.og_type,
    {
        PageSeo { keywords: keywords.into(), ..self }
    }

    /// Sets the canonical path, keeping the other fields.
    pub fn with_path<P: Into<String>>(self, path: P) -> (r: PageSeo)
        ensures
            P::obeys_into_spec() ==> r.canonical_path == path.into_spec(),
            r.title == self.title,
            r.description == self.description,
            r.keywords == self.keywords,
            r.og_type == self.og_type,
    {
        PageSeo { canonical_path: path.into(), ..self }
    }

    /// Marks the page as an `article`.
    pub fn as_article(self) -> (r: PageSeo)
        ensures
            r.title == self.title,
            r.description == self.description,
            r.keywords == self.keywords,
            r.canonical_path == self.canonical_path,
            r.og_type@ == "article"@,
    {
        PageSeo { og_type: String::from_str("article"), ..self }
    }
}

} // verus!
