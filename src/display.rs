use vstd::prelude::*;

verus! {

/// Whether `char::is_whitespace` holds of `c` (Unicode's White_Space property).
pub uninterp spec fn is_space(c: char) -> bool;

/// The characters that `char::to_uppercase` yields for `c`.
pub uninterp spec fn upper_of(c: char) -> Seq<char>;

/// Relies on `char::is_whitespace`; its documentation lists the space among them.
#[verifier::external_body]
fn is_whitespace(c: char) -> (r: bool)
    ensures
        r == is_space(c),
        c == ' ' ==> r,
{
    c.is_whitespace()
}

/// Relies on `char::to_uppercase`: the uppercase mapping of `c`, a function of `c` alone.
#[verifier::external_body]
fn uppercase(c: char) -> (r: String)
    ensures
        r@ == upper_of(c),
{
    c.to_uppercase().collect()
}

/// Relies on `String::push`: appends `c`.
#[verifier::external_body]
fn push_char(s: &mut String, c: char)
    ensures
        final(s)@ == old(s)@.push(c),
{
    s.push(c)
}

/// Hyphens and underscores read as spaces.
pub open spec fn spaced(c: char) -> char {
    if c == '-' || c == '_' {
        ' '
    } else {
        c
    }
}

/// The maximal runs of non-whitespace characters of `s`, in order.
pub open spec fn words(s: Seq<char>) -> Seq<Seq<char>>
    decreases s.len(),
{
    if s.len() == 0 {
        Seq::empty()
    } else {
        let prev = words(s.drop_last());
        let c = s.last();
        if is_space(c) {
            prev
        } else if s.len() == 1 || is_space(s[s.len() - 2]) {
            prev.push(seq![c])
        } else {
            prev.update(prev.len() - 1, prev.last().push(c))
        }
    }
}

/// A word with its first character uppercased and the rest kept.
pub open spec fn title_word(w: Seq<char>) -> Seq<char> {
    if w.len() == 0 {
        w
    } else {
        upper_of(w[0]) + w.drop_first()
    }
}

/// The words joined with single spaces.
pub open spec fn join_words(ws: Seq<Seq<char>>) -> Seq<char>
    decreases ws.len(),
{
    if ws.len() == 0 {
        Seq::empty()
    } else if ws.len() == 1 {
        ws[0]
    } else {
        join_words(ws.drop_last()) + seq![' '] + ws.last()
    }
}

/// The display name of a raw folder name: hyphens and underscores become spaces, and the
/// whitespace-separated words, each title-cased, are joined with single spaces.
pub open spec fn display_name_of(raw: Seq<char>) -> Seq<char> {
    join_words(words(raw.map_values(|c: char| spaced(c))).map_values(|w: Seq<char>| title_word(w)))
}

proof fn lemma_words_last_nonempty(s: Seq<char>)
    requires
        s.len() > 0,
        !is_space(s.last()),
    ensures
        words(s).len() > 0,
        words(s).last().len() > 0,
    decreases s.len(),
{
    if !(s.len() == 1 || is_space(s[s.len() - 2])) {
        lemma_words_last_nonempty(s.drop_last());
    }
}

/// Title-cases a raw folder name for display.
pub fn display_name(raw: &str) -> (r: String)
    ensures
        r@ == display_name_of(raw@),
{
    let ghost sp = raw@.map_values(|c: char| spaced(c));
    let n = raw.unicode_len();
    let mut out = String::new();
    let mut in_word = false;
    let mut any_word = false;
    let mut i: usize = 0;
    while i < n
        invariant
            n == raw@.len(),
            sp == raw@.map_values(|c: char| spaced(c)),
            i <= n,
            out@ == join_words(words(sp.take(i as int)).map_values(|w: Seq<char>| title_word(w))),
            in_word == (i > 0 && !is_space(sp[i - 1])),
            any_word == (words(sp.take(i as int)).len() > 0),
        decreases n - i,
    {
        let ghost pre = sp.take(i as int);
        let ghost next = sp.take(i + 1);
        assert(next.drop_last() =~= pre);
        let c0 = raw.get_char(i);
        let c = if c0 == '-' || c0 == '_' {
            ' '
        } else {
            c0
        };
        assert(next.last() == c);
        let ghost ws = words(pre);
        let ghost tws = ws.map_values(|w: Seq<char>| title_word(w));
        if is_whitespace(c) {
            in_word = false;
            assert(words(next) == ws);
        } else if !in_word {
            assert(next.len() == 1 || is_space(next[next.len() - 2]));
            assert(words(next) == ws.push(seq![c]));
            let ghost ntws = words(next).map_values(|w: Seq<char>| title_word(w));
            assert(ntws =~= tws.push(title_word(seq![c])));
            assert(title_word(seq![c]) =~= upper_of(c));
            if any_word {
                push_char(&mut out, ' ');
            } else {
                assert(tws.len() == 0);
            }
            let u = uppercase(c);
            out.append(u.as_str());
            assert(ntws.drop_last() =~= tws);
            in_word = true;
            any_word = true;
        } else {
            proof {
                lemma_words_last_nonempty(pre);
            }
            let ghost last = ws.last();
            assert(words(next) == ws.update(ws.len() - 1, last.push(c)));
            let ghost ntws = words(next).map_values(|w: Seq<char>| title_word(w));
            assert(title_word(last.push(c)) =~= title_word(last).push(c));
            assert(ntws.drop_last() =~= tws.drop_last());
            push_char(&mut out, c);
            assert(out@ =~= join_words(ntws));
        }
        i = i + 1;
    }
    assert(sp.take(n as int) =~= sp);
    out
}

} // verus!
