//! What the push command decides.

use vstd::prelude::*;
use vstd::utf8::{decode_utf8, valid_utf8};
use crate::text::{chars_of, is_space, space, string_of, utf8_str};

verus! {

#[derive(Clone, Copy, Debug, PartialEq, Eq, Structural)]
pub enum PushError {
    /// The branch points at nothing.
    MissingTarget,
    /// The name of the upstream holds no remote.
    RemoteParse,
}

impl PushError {
    /// What went wrong, in words.
    pub fn message(&self) -> (s: String)
        ensures
            s@ == match *self {
                PushError::MissingTarget => "missing target"@,
                PushError::RemoteParse => "failed to parse remote in upstream"@,
            },
    {
        match self {
            PushError::MissingTarget => "missing target".to_string(),
            PushError::RemoteParse => "failed to parse remote in upstream".to_string(),
        }
    }
}

/// What is pushed: the ref, with a `+` in front where the push is forced.
pub fn refspec(refname: &str, force: bool) -> (s: String)
    ensures
        s@ == if force {
            "+"@ + refname@
        } else {
            refname@
        },
{
    if force {
        "+".to_string().concat(refname)
    } else {
        refname.to_string()
    }
}

/// The name of the ref that tracks `branch` on `remote`.
pub fn tracking_ref(remote: &str, branch: &str) -> (s: String)
    ensures
        s@ == "refs/remotes/"@ + remote@ + "/"@ + branch@,
{
    "refs/remotes/".to_string().concat(remote).concat("/").concat(branch)
}

/// A character that is taken off the ends of what a remote says: white
/// space and the zero character.
pub open spec fn is_padding(c: char) -> bool {
    is_space(c) || c == '\0'
}

/// Where `s[from..to]` starts once the padding is taken off its front.
pub open spec fn padding_start(s: Seq<char>, from: int, to: int) -> int
    decreases to - from,
{
    if from >= to || from < 0 || from >= s.len() || !is_padding(s[from]) {
        from
    } else {
        padding_start(s, from + 1, to)
    }
}

/// Where `s[from..to]` ends once the padding is taken off its back.
pub open spec fn padding_end(s: Seq<char>, from: int, to: int) -> int
    decreases to - from,
{
    if to <= from || to > s.len() || to <= 0 || !is_padding(s[to - 1]) {
        to
    } else {
        padding_end(s, from, to - 1)
    }
}

/// What a remote said, as it is shown: its output as text, without the
/// padding at its two ends. Nothing is shown where the output is not valid
/// text or holds nothing but padding.
pub open spec fn spec_reply_text(stdout: Seq<u8>) -> Option<Seq<char>> {
    if !valid_utf8(stdout) {
        None
    } else {
        let s = decode_utf8(stdout);
        let a = padding_start(s, 0, s.len() as int);
        let b = padding_end(s, a, s.len() as int);
        if a >= b {
            None
        } else {
            Some(s.subrange(a, b))
        }
    }
}

/// The message of the remote that is shown after a push.
pub fn reply_text(stdout: &[u8]) -> (r: Option<String>)
    ensures
        match r {
            Some(text) => spec_reply_text(stdout@) == Some(text@),
            None => spec_reply_text(stdout@) is None,
        },
{
    let s = match utf8_str(stdout) {
        Some(s) => s,
        None => {
            return None;
        },
    };
    let v = chars_of(s);
    let n = v.len();
    let mut a: usize = 0;
    while a < n && (space(v[a]) || v[a] == '\0')
        invariant
            a <= n,
            n == v@.len(),
            padding_start(v@, 0, n as int) == padding_start(v@, a as int, n as int),
        decreases n - a,
    {
        a += 1;
    }
    let mut b: usize = n;
    while b > a && (space(v[b - 1]) || v[b - 1] == '\0')
        invariant
            a <= b <= n,
            n == v@.len(),
            padding_end(v@, a as int, n as int) == padding_end(v@, a as int, b as int),
        decreases b - a,
    {
        b -= 1;
    }
    if a >= b {
        None
    } else {
        Some(string_of(&v, a, b))
    }
}

} // verus!
