use vstd::prelude::*;

verus! {

/// A YAML value as the front-matter reader sees it.
///
/// Floating-point scalars are kept only as the fact that one was there.
#[derive(Debug)]
pub enum YamlValue {
    Null,
    Text(String),
    Integer(i64),
    Real,
    Boolean(bool),
    Sequence(Vec<YamlValue>),
    Mapping(Vec<(String, YamlValue)>),
}

/// The value of the first entry of `entries` whose key is `key`.
pub open spec fn lookup(entries: Seq<(String, YamlValue)>, key: Seq<char>) -> Option<YamlValue>
    decreases entries.len(),
{
    if entries.len() == 0 {
        None
    } else if entries[0].0@ == key {
        Some(entries[0].1)
    } else {
        lookup(entries.drop_first(), key)
    }
}

/// Drops the reference inside an optional borrowed value.
pub open spec fn deref_opt(o: Option<&YamlValue>) -> Option<YamlValue> {
    match o {
        Some(v) => Some(*v),
        None => None,
    }
}

proof fn lemma_lookup_skip(entries: Seq<(String, YamlValue)>, key: Seq<char>, i: int)
    requires
        0 <= i < entries.len(),
        entries[i].0@ != key,
    ensures
        lookup(entries.subrange(i, entries.len() as int), key) == lookup(
            entries.subrange(i + 1, entries.len() as int),
            key,
        ),
{
    let s = entries.subrange(i, entries.len() as int);
    assert(s.drop_first() =~= entries.subrange(i + 1, entries.len() as int));
}

/// Finds the value stored under `key` in a mapping's entries.
pub fn find_entry<'a>(entries: &'a Vec<(String, YamlValue)>, key: &String) -> (r: Option<
    &'a YamlValue,
>)
    ensures
        deref_opt(r) == lookup(entries@, key@),
{
    let n = entries.len();
    let mut i: usize = 0;
    assert(entries@.subrange(0, n as int) =~= entries@);
    while i < n
        invariant
            n == entries@.len(),
            i <= n,
            lookup(entries@, key@) == lookup(entries@.subrange(i as int, n as int), key@),
        decreases n - i,
    {
        if entries[i].0 == *key {
            return Some(&entries[i].1);
        }
        proof {
            lemma_lookup_skip(entries@, key@, i as int);
        }
        i = i + 1;
    }
    None
}

} // verus!
