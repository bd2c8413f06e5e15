use vstd::prelude::*;
use crate::error::MarkdownError;
use crate::yaml::{deref_opt, find_entry, lookup, YamlValue};

verus! {

/// Metadata at the head of a content file.
#[derive(Debug, Clone)]
pub struct Frontmatter {
    pub title: String,
    pub description: Option<String>,
    pub date: Option<String>,
    pub author: Option<String>,
    pub tags: Option<Vec<String>>,
}

/// What a `Frontmatter` holds, as character sequences.
pub struct FrontmatterView {
    pub title: Seq<char>,
    pub description: Option<Seq<char>>,
    pub date: Option<Seq<char>>,
    pub author: Option<Seq<char>>,
    pub tags: Option<Seq<Seq<char>>>,
}

pub open spec fn opt_text(o: Option<String>) -> Option<Seq<char>> {
    match o {
        Some(s) => Some(s@),
        None => None,
    }
}

pub open spec fn texts(v: Seq<String>) -> Seq<Seq<char>> {
    v.map_values(|s: String| s@)
}

pub open spec fn opt_texts(o: Option<Vec<String>>) -> Option<Seq<Seq<char>>> {
    match o {
        Some(v) => Some(texts(v@)),
        None => None,
    }
}

impl Frontmatter {
    /// Every document's title is non-empty.
    pub open spec fn well_formed(&self) -> bool {
        self.title@.len() > 0
    }
}

impl View for Frontmatter {
    type V = FrontmatterView;

    open spec fn view(&self) -> FrontmatterView {
        FrontmatterView {
            title: self.title@,
            description: opt_text(self.description),
            date: opt_text(self.date),
            author: opt_text(self.author),
            tags: opt_texts(self.tags),
        }
    }
}

/// The characters of a text scalar (empty for anything else).
pub open spec fn text_of(v: YamlValue) -> Seq<char> {
    match v {
        YamlValue::Text(s) => s@,
        _ => Seq::empty(),
    }
}

/// The required `title`: present and a non-empty text scalar.
pub open spec fn decode_title(v: Option<YamlValue>) -> Option<Seq<char>> {
    match v {
        Some(YamlValue::Text(s)) => if s@.len() > 0 {
            Some(s@)
        } else {
            None
        },
        _ => None,
    }
}

/// An optional text field: absent or null gives `None`; `None` at the outside is a type error.
pub open spec fn decode_text(v: Option<YamlValue>) -> Option<Option<Seq<char>>> {
    match v {
        None => Some(None),
        Some(YamlValue::Null) => Some(None),
        Some(YamlValue::Text(s)) => Some(Some(s@)),
        _ => None,
    }
}

pub open spec fn all_text(items: Seq<YamlValue>) -> bool {
    forall|i: int| 0 <= i < items.len() ==> #[trigger] items[i] is Text
}

/// The optional `tags` field: a sequence of text scalars.
pub open spec fn decode_tags(v: Option<YamlValue>) -> Option<Option<Seq<Seq<char>>>> {
    match v {
        None => Some(None),
        Some(YamlValue::Null) => Some(None),
        Some(YamlValue::Sequence(items)) => if all_text(items@) {
            Some(Some(items@.map_values(|x: YamlValue| text_of(x))))
        } else {
            None
        },
        _ => None,
    }
}

/// The front matter made of the five field values, or `None` when one has the wrong shape.
pub open spec fn decode_fields(
    t: Option<YamlValue>,
    d: Option<YamlValue>,
    da: Option<YamlValue>,
    a: Option<YamlValue>,
    tg: Option<YamlValue>,
) -> Option<FrontmatterView> {
    if decode_title(t) is Some && decode_text(d) is Some && decode_text(da) is Some && decode_text(
        a,
    ) is Some && decode_tags(tg) is Some {
        Some(
            FrontmatterView {
                title: decode_title(t)->0,
                description: decode_text(d)->0,
                date: decode_text(da)->0,
                author: decode_text(a)->0,
                tags: decode_tags(tg)->0,
            },
        )
    } else {
        None
    }
}

/// The front matter that a YAML value describes: a mapping read by key; `None` when it is
/// not a mapping or a field has the wrong shape.
pub open spec fn frontmatter_spec(v: YamlValue) -> Option<FrontmatterView> {
    match v {
        YamlValue::Mapping(es) => decode_fields(
            lookup(es@, "title"@),
            lookup(es@, "description"@),
            lookup(es@, "date"@),
            lookup(es@, "author"@),
            lookup(es@, "tags"@),
        ),
        _ => None,
    }
}

/// `x` writes the optional text `o`: a text scalar, or null when absent.
pub open spec fn encodes_text(x: YamlValue, o: Option<Seq<char>>) -> bool {
    match o {
        None => x is Null,
        Some(s) => x is Text && text_of(x) == s,
    }
}

/// `x` writes the optional list `o`: a sequence of text scalars, or null when absent.
pub open spec fn encodes_tags(x: YamlValue, o: Option<Seq<Seq<char>>>) -> bool {
    match o {
        None => x is Null,
        Some(ts) => match x {
            YamlValue::Sequence(items) => items@.len() == ts.len() && forall|i: int|
                0 <= i < ts.len() ==> #[trigger] items@[i] is Text && text_of(items@[i]) == ts[i],
            _ => false,
        },
    }
}

/// `v` is the serialized form of `fm`: a mapping of the five keys in order.
pub open spec fn encodes_frontmatter(v: YamlValue, fm: FrontmatterView) -> bool {
    match v {
        YamlValue::Mapping(es) => {
            &&& es@.len() == 5
            &&& es@[0].0@ == "title"@ && es@[0].1 is Text && text_of(es@[0].1) == fm.title
            &&& es@[1].0@ == "description"@ && encodes_text(es@[1].1, fm.description)
            &&& es@[2].0@ == "date"@ && encodes_text(es@[2].1, fm.date)
            &&& es@[3].0@ == "author"@ && encodes_text(es@[3].1, fm.author)
            &&& es@[4].0@ == "tags"@ && encodes_tags(es@[4].1, fm.tags)
        },
        _ => false,
    }
}

/// Reading back serialized front matter gives the same `title`, `description`, `date`,
/// `author` and `tags`.
pub proof fn lemma_frontmatter_round_trip(v: YamlValue, fm: FrontmatterView)
    requires
        encodes_frontmatter(v, fm),
        fm.title.len() > 0,
    ensures
        frontmatter_spec(v) == Some(fm),
{
    reveal_strlit("title");
    reveal_strlit("description");
    reveal_strlit("date");
    reveal_strlit("author");
    reveal_strlit("tags");
    reveal_with_fuel(lookup, 6);
    let es = v->Mapping_0@;
    assert(es.drop_first()[0] == es[1]);
    assert(es.drop_first().drop_first()[0] == es[2]);
    assert(es.drop_first().drop_first().drop_first()[0] == es[3]);
    assert(es.drop_first().drop_first().drop_first().drop_first()[0] == es[4]);
    assert("title"@.len() == 5 && "description"@.len() == 11 && "date"@.len() == 4);
    assert("author"@.len() == 6 && "tags"@.len() == 4);
    assert("date"@[0] != "tags"@[0]);
    assert(lookup(es, "title"@) == Some(es[0].1));
    assert(lookup(es, "description"@) == Some(es[1].1));
    assert(lookup(es, "date"@) == Some(es[2].1));
    assert(lookup(es, "author"@) == Some(es[3].1));
    assert(lookup(es, "tags"@) == Some(es[4].1));
    if let Some(ts) = fm.tags {
        let items = es[4].1->Sequence_0@;
        assert(all_text(items));
        assert(items.map_values(|x: YamlValue| text_of(x)) =~= ts);
    }
}

fn text_value(o: &Option<String>) -> (r: YamlValue)
    ensures
        encodes_text(r, opt_text(*o)),
{
    match o {
        Some(s) => YamlValue::Text(s.clone()),
        None => YamlValue::Null,
    }
}

fn invalid(detail: &str) -> (r: MarkdownError)
    ensures
        r is ParseError,
{
    let mut msg = String::from_str("invalid frontmatter: ");
    msg.append(detail);
    MarkdownError::ParseError(msg)
}

fn read_title(v: Option<&YamlValue>) -> (r: Result<String, MarkdownError>)
    ensures
        match r {
            Ok(s) => decode_title(deref_opt(v)) == Some(s@),
            Err(e) => decode_title(deref_opt(v)) is None && e is ParseError,
        },
{
    match v {
        Some(YamlValue::Text(s)) => {
            if s.as_str().unicode_len() == 0 {
                Err(invalid("`title` is empty"))
            } else {
                Ok(s.clone())
            }
        },
        Some(_) => Err(invalid("`title` is not text")),
        None => Err(invalid("missing field `title`")),
    }
}

fn read_text(v: Option<&YamlValue>, field: &str) -> (r: Result<Option<String>, MarkdownError>)
    ensures
        match r {
            Ok(o) => decode_text(deref_opt(v)) == Some(opt_text(o)),
            Err(e) => decode_text(deref_opt(v)) is None && e is ParseError,
        },
{
    match v {
        None => Ok(None),
        Some(YamlValue::Null) => Ok(None),
        Some(YamlValue::Text(s)) => Ok(Some(s.clone())),
        Some(_) => {
            let mut msg = String::from_str(field);
            msg.append(" is not text");
            Err(invalid(msg.as_str()))
        },
    }
}

fn read_tags(v: Option<&YamlValue>) -> (r: Result<Option<Vec<String>>, MarkdownError>)
    ensures
        match r {
            Ok(o) => decode_tags(deref_opt(v)) == Some(opt_texts(o)),
            Err(e) => decode_tags(deref_opt(v)) is None && e is ParseError,
        },
{
    match v {
        None => Ok(None),
        Some(YamlValue::Null) => Ok(None),
        Some(YamlValue::Sequence(items)) => {
            let mut out: Vec<String> = Vec::new();
            let n = items.len();
            let mut i: usize = 0;
            while i < n
                invariant
                    deref_opt(v) == Some(YamlValue::Sequence(*items)),
                    n == items@.len(),
                    i <= n,
                    out@.len() == i,
                    forall|j: int| 0 <= j < i ==> #[trigger] items@[j] is Text,
                    forall|j: int| 0 <= j < i ==> #[trigger] out@[j]@ == text_of(items@[j]),
                decreases n - i,
            {
                match &items[i] {
                    YamlValue::Text(s) => {
                        out.push(s.clone());
                    },
                    _ => {
                        assert(!(items@[i as int] is Text));
                        assert(!all_text(items@));
                        return Err(invalid("`tags` holds a value that is not text"));
                    },
                }
                i = i + 1;
            }
            assert(texts(out@) =~= items@.map_values(|x: YamlValue| text_of(x)));
            Ok(Some(out))
        },
        Some(_) => Err(invalid("`tags` is not a sequence")),
    }
}

fn from_fields(
    t: Option<&YamlValue>,
    d: Option<&YamlValue>,
    da: Option<&YamlValue>,
    a: Option<&YamlValue>,
    tg: Option<&YamlValue>,
) -> (r: Result<Frontmatter, MarkdownError>)
    ensures
        match r {
            Ok(fm) => decode_fields(
                deref_opt(t),
                deref_opt(d),
                deref_opt(da),
                deref_opt(a),
                deref_opt(tg),
            ) == Some(fm@),
            Err(e) => decode_fields(
                deref_opt(t),
                deref_opt(d),
                deref_opt(da),
                deref_opt(a),
                deref_opt(tg),
            ) is None && e is ParseError,
        },
{
    let title = match read_title(t) {
        Ok(s) => s,
        Err(e) => return Err(e),
    };
    let description = match read_text(d, "`description`") {
        Ok(s) => s,
        Err(e) => return Err(e),
    };
    let date = match read_text(da, "`date`") {
        Ok(s) => s,
        Err(e) => return Err(e),
    };
    let author = match read_text(a, "`author`") {
        Ok(s) => s,
        Err(e) => return Err(e),
    };
    let tags = match read_tags(tg) {
        Ok(s) => s,
        Err(e) => return Err(e),
    };
    Ok(Frontmatter { title, description, date, author, tags })
}

impl Frontmatter {
    /// Serializes the front matter as a mapping of its five fields, absent ones as null.
    pub fn to_yaml(&self) -> (r: YamlValue)
        ensures
            encodes_frontmatter(r, self@),
            self.well_formed() ==> frontmatter_spec(r) == Some(self@),
    {
        let tags = match &self.tags {
            Some(ts) => {
                let mut items: Vec<YamlValue> = Vec::new();
                let n = ts.len();
                let mut i: usize = 0;
                while i < n
                    invariant
                        n == ts@.len(),
                        i <= n,
                        items@.len() == i,
                        forall|j: int|
                            0 <= j < i ==> #[trigger] items@[j] is Text && text_of(items@[j])
                                == ts@[j]@,
                    decreases n - i,
                {
                    items.push(YamlValue::Text(ts[i].clone()));
                    i = i + 1;
                }
                YamlValue::Sequence(items)
            },
            None => YamlValue::Null,
        };
        let mut es: Vec<(String, YamlValue)> = Vec::new();
        es.push((String::from_str("title"), YamlValue::Text(self.title.clone())));
        es.push((String::from_str("description"), text_value(&self.description)));
        es.push((String::from_str("date"), text_value(&self.date)));
        es.push((String::from_str("author"), text_value(&self.author)));
        es.push((String::from_str("tags"), tags));
        let r = YamlValue::Mapping(es);
        proof {
            if self.well_formed() {
                lemma_frontmatter_round_trip(r, self@);
            }
        }
        r
    }

    /// Reads front matter out of a YAML value: exactly when `frontmatter_spec` gives one;
    /// otherwise a `ParseError`.
    pub fn from_yaml(v: &YamlValue) -> (r: Result<Frontmatter, MarkdownError>)
        ensures
            match r {
                Ok(fm) => frontmatter_spec(*v) == Some(fm@) && fm.well_formed(),
                Err(e) => frontmatter_spec(*v) is None && e is ParseError,
            },
    {
        match v {
            YamlValue::Mapping(es) => {
                let t = find_entry(es, &String::from_str("title"));
                let d = find_entry(es, &String::from_str("description"));
                let da = find_entry(es, &String::from_str("date"));
                let a = find_entry(es, &String::from_str("author"));
                let tg = find_entry(es, &String::from_str("tags"));
                from_fields(t, d, da, a, tg)
            },
            _ => Err(invalid("not a mapping")),
        }
    }
}

} // verus!
