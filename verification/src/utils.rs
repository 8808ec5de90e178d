//! Small helpers on names of refs and on text that is shown.

use vstd::prelude::*;
use vstd::utf8::encode_utf8;
use crate::text::{chars_of, find_char, has_prefix, index_of, starts_with};

verus! {

/// The name holds no remote.
#[derive(Clone, Copy, Debug, PartialEq, Eq, Structural)]
pub struct ParseRemoteError;

/// The remote that the name of a remote-tracking branch starts with. A full
/// name, one that starts with `refs/`, must start with `refs/remotes/`; the
/// remote is what follows, up to the next `/`. A short name must hold a `/`;
/// the remote is what stands before it.
pub open spec fn spec_parse_remote(name: Seq<char>) -> Option<Seq<char>> {
    if has_prefix(name, "refs/"@) {
        if has_prefix(name, "refs/remotes/"@) {
            let start = "refs/remotes/"@.len() as int;
            Some(name.subrange(start, index_of(name, '/', start)))
        } else {
            None
        }
    } else if index_of(name, '/', 0) < name.len() {
        Some(name.subrange(0, index_of(name, '/', 0)))
    } else {
        None
    }
}

/// The remote that a remote-tracking branch of this name belongs to.
pub fn parse_remote(refname: &str) -> (r: Result<&str, ParseRemoteError>)
    ensures
        match r {
            Ok(remote) => spec_parse_remote(refname@) == Some(remote@),
            Err(_) => spec_parse_remote(refname@) is None,
        },
{
    let name = chars_of(refname);
    if starts_with(&name, "refs/") {
        if starts_with(&name, "refs/remotes/") {
            let start = "refs/remotes/".unicode_len();
            let end = find_char(&name, '/', start);
            Ok(refname.substring_char(start, end))
        } else {
            Err(ParseRemoteError)
        }
    } else {
        let end = find_char(&name, '/', 0);
        if end < name.len() {
            Ok(refname.substring_char(0, end))
        } else {
            Err(ParseRemoteError)
        }
    }
}

impl ParseRemoteError {
    /// What went wrong, in words.
    pub fn message(&self) -> (s: String)
        ensures
            s@ == "failed to parse remote"@,
    {
        "failed to parse remote".to_string()
    }
}

/// A text that takes at most `len` bytes stays as it is. A longer one is cut
/// to its first `len - 3` characters, followed by three dots.
pub open spec fn spec_shorten(s: Seq<char>, len: int) -> Seq<char> {
    if encode_utf8(s).len() <= len {
        s
    } else if len - 3 < s.len() {
        s.subrange(0, len - 3) + "..."@
    } else {
        s + "..."@
    }
}

/// Cuts a text for display.
pub fn shorten(s: &str, len: usize) -> (r: String)
    requires
        len >= 3 || encode_utf8(s@).len() <= len,
    ensures
        r@ == spec_shorten(s@, len as int),
{
    if s.as_bytes().len() <= len {
        return s.to_string();
    }
    let count = s.unicode_len();
    let keep = if len - 3 < count {
        len - 3
    } else {
        count
    };
    let head = s.substring_char(0, keep);
    assert(keep == count ==> head@ =~= s@);
    head.to_string().concat("...")
}

} // verus!
