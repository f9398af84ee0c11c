//! Path text: joining a child name onto a directory, and the sandbox
//! safety check for relative inputs.
//!
//! Paths are plain character sequences here; the host layer is the only
//! place where they meet the real filesystem.

use vstd::prelude::*;

verus! {

/// `base` and `name` joined with the `/` separator.
pub open spec fn joined(base: Seq<char>, name: Seq<char>) -> Seq<char> {
    base + seq!['/'] + name
}

/// Whether position `i` in `s` starts a `..` path component: two dots
/// delimited by the string's ends or by `/` on either side.
pub open spec fn dot_dot_at(s: Seq<char>, i: int) -> bool {
    &&& 0 <= i
    &&& i + 2 <= s.len()
    &&& s[i] == '.'
    &&& s[i + 1] == '.'
    &&& (i == 0 || s[i - 1] == '/')
    &&& (i + 2 == s.len() || s[i + 2] == '/')
}

/// A relative input may be anchored under a sandbox base only when it is
/// non-empty, does not name an absolute location, contains no backslash —
/// which some hosts treat as a separator, so `..\x` would traverse there —
/// and has no `..` component through which it could traverse out of the
/// base.
pub open spec fn safe_relative(s: Seq<char>) -> bool {
    &&& s.len() > 0
    &&& s[0] != '/'
    &&& forall|i: int| 0 <= i < s.len() ==> s[i] != '\\'
    &&& forall|i: int| !(#[trigger] dot_dot_at(s, i))
}

/// Joins a child name onto a directory path with the `/` separator.
pub fn join_under(base: &str, name: &str) -> (r: String)
    ensures
        r@ == joined(base@, name@),
{
    let mut r = base.to_owned();
    r.append("/");
    r.append(name);
    proof {
        reveal_strlit("/");
        assert(r@ =~= joined(base@, name@));
    }
    r
}

/// Decides [`safe_relative`] for a relative path input.
pub fn is_safe_relative(s: &str) -> (b: bool)
    ensures
        b == safe_relative(s@),
{
    let n = s.unicode_len();
    if n == 0 {
        return false;
    }
    if s.get_char(0) == '/' {
        return false;
    }
    let mut i: usize = 0;
    while i < n
        invariant
            n == s@.len(),
            i <= n,
            forall|j: int| 0 <= j < i ==> s@[j] != '\\',
            forall|j: int| j < i ==> !(#[trigger] dot_dot_at(s@, j)),
        decreases n - i,
    {
        if s.get_char(i) == '\\' {
            return false;
        }
        if s.get_char(i) == '.' && i + 1 < n && s.get_char(i + 1) == '.' {
            let pre_ok = i == 0 || s.get_char(i - 1) == '/';
            let post_ok = i + 2 == n || s.get_char(i + 2) == '/';
            if pre_ok && post_ok {
                proof {
                    assert(dot_dot_at(s@, i as int));
                }
                return false;
            }
        }
        i += 1;
    }
    proof {
        assert forall|j: int| !(#[trigger] dot_dot_at(s@, j)) by {
            if 0 <= j && j + 2 <= s@.len() {
                assert(j < i);
            }
        }
    }
    true
}

/// Law: a joined child path stays under its directory. The directory's own
/// text is exactly the leading segment of the joined path, the separator
/// follows it, and the child's name is exactly the trailing segment.
pub proof fn lemma_joined_stays_under(base: Seq<char>, name: Seq<char>)
    ensures
        joined(base, name).len() == base.len() + 1 + name.len(),
        joined(base, name).subrange(0, base.len() as int) == base,
        joined(base, name)[base.len() as int] == '/',
        joined(base, name).subrange(base.len() + 1 as int, joined(base, name).len() as int) == name,
{
    assert(joined(base, name).subrange(0, base.len() as int) =~= base);
    assert(joined(base, name).subrange(base.len() + 1 as int, joined(base, name).len() as int) =~= name);
}

} // verus!
