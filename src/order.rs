use vstd::prelude::*;

verus! {

/// Lexicographic order on character sequences by code point, as `str` orders its UTF-8 bytes.
pub open spec fn text_lt(a: Seq<char>, b: Seq<char>) -> bool
    decreases a.len(),
{
    if b.len() == 0 {
        false
    } else if a.len() == 0 {
        true
    } else if a[0] != b[0] {
        a[0] < b[0]
    } else {
        text_lt(a.drop_first(), b.drop_first())
    }
}

pub proof fn lemma_text_lt_asymmetric(a: Seq<char>, b: Seq<char>)
    ensures
        !(text_lt(a, b) && text_lt(b, a)),
    decreases a.len(),
{
    if a.len() > 0 && b.len() > 0 && a[0] == b[0] {
        lemma_text_lt_asymmetric(a.drop_first(), b.drop_first());
    }
}

pub proof fn lemma_text_lt_transitive(a: Seq<char>, b: Seq<char>, c: Seq<char>)
    requires
        text_lt(a, b),
        text_lt(b, c),
    ensures
        text_lt(a, c),
    decreases a.len(),
{
    if a.len() > 0 && b.len() > 0 && c.len() > 0 && a[0] == b[0] && b[0] == c[0] {
        lemma_text_lt_transitive(a.drop_first(), b.drop_first(), c.drop_first());
    }
}

/// Decides `text_lt(a@, b@)`.
pub fn text_less(a: &str, b: &str) -> (r: bool)
    ensures
        r == text_lt(a@, b@),
{
    let na = a.unicode_len();
    let nb = b.unicode_len();
    let mut i: usize = 0;
    assert(a@.skip(0) =~= a@);
    assert(b@.skip(0) =~= b@);
    while i < na && i < nb
        invariant
            na == a@.len(),
            nb == b@.len(),
            i <= na,
            i <= nb,
            text_lt(a@, b@) == text_lt(a@.skip(i as int), b@.skip(i as int)),
        decreases na - i,
    {
        let ca = a.get_char(i);
        let cb = b.get_char(i);
        if ca != cb {
            return ca < cb;
        }
        assert(a@.skip(i as int).drop_first() =~= a@.skip(i + 1));
        assert(b@.skip(i as int).drop_first() =~= b@.skip(i + 1));
        i = i + 1;
    }
    i < nb
}

/// No element of `s` comes before an earlier one.
pub open spec fn sorted_by<V>(s: Seq<V>, before: spec_fn(V, V) -> bool) -> bool {
    forall|i: int, j: int| 0 <= i < j < s.len() ==> !before(#[trigger] s[j], #[trigger] s[i])
}

/// `before` is asymmetric and transitive.
pub open spec fn strict_order<V>(before: spec_fn(V, V) -> bool) -> bool {
    &&& forall|a: V, b: V| #[trigger] before(a, b) ==> !before(b, a)
    &&& forall|a: V, b: V, c: V| #[trigger] before(a, b) && #[trigger] before(b, c) ==> before(a, c)
}

/// Inserting `x` just before the first element it precedes keeps a sequence sorted.
pub proof fn lemma_insert_sorted<V>(s: Seq<V>, p: int, x: V, before: spec_fn(V, V) -> bool)
    requires
        sorted_by(s, before),
        strict_order(before),
        0 <= p <= s.len(),
        forall|k: int| 0 <= k < p ==> !before(x, #[trigger] s[k]),
        p < s.len() ==> before(x, s[p]),
    ensures
        sorted_by(s.insert(p, x), before),
{
    let t = s.insert(p, x);
    assert forall|i: int, j: int| 0 <= i < j < t.len() implies !before(
        #[trigger] t[j],
        #[trigger] t[i],
    ) by {
        if i < p && j == p {
        } else if i == p {
            if j - 1 > p {
                assert(!before(s[j - 1], s[p]));
            }
        } else if i < p && j > p {
            assert(!before(s[j - 1], s[i]));
        } else if i > p {
            assert(!before(s[j - 1], s[i - 1]));
        }
    }
}

/// Inserting an element that satisfies `pred` into a sequence whose elements all do keeps
/// every element satisfying it.
pub proof fn lemma_insert_all<V>(s: Seq<V>, p: int, x: V, pred: spec_fn(V) -> bool)
    requires
        0 <= p <= s.len(),
        forall|k: int| 0 <= k < s.len() ==> pred(#[trigger] s[k]),
        pred(x),
    ensures
        forall|k: int| 0 <= k < s.len() + 1 ==> pred(#[trigger] s.insert(p, x)[k]),
{
    assert forall|k: int| 0 <= k < s.len() + 1 implies pred(#[trigger] s.insert(p, x)[k]) by {
        if k < p {
            assert(s.insert(p, x)[k] == s[k]);
        } else if k > p {
            assert(s.insert(p, x)[k] == s[k - 1]);
        }
    }
}

} // verus!
