//! What the clone command decides: where to clone from and into what.

use vstd::prelude::*;
use crate::text::{chars_of, find_char, index_of, range_is, string_of};

verus! {

/// A location without `@` and without `:` is taken to name a repository
/// on GitHub.
pub open spec fn spec_convert_uri(uri: Seq<char>) -> Option<Seq<char>> {
    if index_of(uri, '@', 0) >= uri.len() && index_of(uri, ':', 0) >= uri.len() {
        Some("git@github.com:"@ + uri + ".git"@)
    } else {
        None
    }
}

/// The full location of a repository that is named in short.
pub fn convert_uri(uri: &str) -> (r: Option<String>)
    ensures
        match r {
            Some(full) => spec_convert_uri(uri@) == Some(full@),
            None => spec_convert_uri(uri@) is None,
        },
{
    let text = chars_of(uri);
    let n = text.len();
    if find_char(&text, '@', 0) >= n && find_char(&text, ':', 0) >= n {
        Some("git@github.com:".to_string().concat(uri).concat(".git"))
    } else {
        None
    }
}

/// Where the last segment of a location starts: after the last `/` among
/// the first `n` characters, or at the start.
pub open spec fn last_segment(s: Seq<char>, n: nat) -> int
    decreases n,
{
    if n == 0 {
        0
    } else if s[n - 1] == '/' {
        n as int
    } else {
        last_segment(s, (n - 1) as nat)
    }
}

/// Where `s[from..to]` ends once every `suffix` at its end is taken off.
pub open spec fn without_suffixes(s: Seq<char>, suffix: Seq<char>, from: int, to: int) -> int
    decreases to - from,
{
    if suffix.len() > 0 && from <= to - suffix.len() && to <= s.len() && s.subrange(
        to - suffix.len(),
        to,
    ) == suffix {
        without_suffixes(s, suffix, from, to - suffix.len())
    } else {
        to
    }
}

/// The name of the directory that a repository is cloned into: the last
/// segment of its location, without `.git` at the end.
pub open spec fn spec_repo_name(uri: Seq<char>) -> Seq<char> {
    let start = last_segment(uri, uri.len());
    uri.subrange(start, without_suffixes(uri, ".git"@, start, uri.len() as int))
}

/// The name of the directory that a repository is cloned into.
pub fn repo_name(uri: &str) -> (r: String)
    ensures
        r@ == spec_repo_name(uri@),
{
    let text = chars_of(uri);
    let n = text.len();
    let mut start: usize = n;
    while start > 0 && text[start - 1] != '/'
        invariant
            start <= n,
            n == text@.len(),
            last_segment(text@, n as nat) == last_segment(text@, start as nat),
        decreases start,
    {
        start -= 1;
    }
    let k = ".git".unicode_len();
    let mut end: usize = n;
    while k > 0 && end >= k && start <= end - k && range_is(&text, end - k, end, ".git")
        invariant
            start <= end <= n,
            n == text@.len(),
            k == ".git"@.len(),
            without_suffixes(text@, ".git"@, start as int, n as int) == without_suffixes(
                text@,
                ".git"@,
                start as int,
                end as int,
            ),
        decreases end,
    {
        end -= k;
    }
    string_of(&text, start, end)
}

} // verus!
