use vstd::prelude::*;

verus! {

/// Positions `i` and `i + 1` of `s` are both dots.
pub open spec fn dots_at(s: Seq<char>, i: int) -> bool {
    0 <= i && i + 1 < s.len() && s[i] == '.' && s[i + 1] == '.'
}

/// `s` holds two consecutive dots somewhere.
pub open spec fn has_parent_segment(s: Seq<char>) -> bool {
    exists|i: int| #[trigger] dots_at(s, i)
}

/// `s` begins with the path separator.
pub open spec fn is_absolute(s: Seq<char>) -> bool {
    s.len() > 0 && s[0] == '/'
}

/// A path is safe to open when it neither climbs out of the content root nor is absolute.
pub open spec fn is_safe_path(s: Seq<char>) -> bool {
    !has_parent_segment(s) && !is_absolute(s)
}

/// Decides `is_safe_path` for `path`.
pub fn check_path(path: &str) -> (r: bool)
    ensures
        r == is_safe_path(path@),
{
    let n = path.unicode_len();
    if n > 0 && path.get_char(0) == '/' {
        return false;
    }
    let mut prev_dot = false;
    let mut i: usize = 0;
    while i < n
        invariant
            n == path@.len(),
            i <= n,
            prev_dot == (i > 0 && path@[i - 1] == '.'),
            forall|j: int| j + 1 < i ==> !#[trigger] dots_at(path@, j),
        decreases n - i,
    {
        let c = path.get_char(i);
        if c == '.' && prev_dot {
            assert(dots_at(path@, i - 1));
            return false;
        }
        prev_dot = c == '.';
        i = i + 1;
    }
    true
}

} // verus!
