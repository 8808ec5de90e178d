//! What the pull command decides.

use vstd::prelude::*;
use crate::text::{chars_of, range_is};

verus! {

/// What is done with the commits that a fetch brought.
#[derive(Clone, Copy, Debug, PartialEq, Eq, Structural)]
pub enum PullAction {
    /// Nothing: the branch holds them already.
    UpToDate,
    /// The branch is moved forward to them.
    FastForward,
    /// The commits of the branch are replayed on top of them.
    Rebase,
    /// Nothing: the branch has moved apart and may not be rebased.
    Refuse,
}

/// Decides what a pull does, from what the store found out about the
/// upstream and from whether a rebase is allowed.
pub fn pull_action(up_to_date: bool, fast_forward: bool, rebase: bool) -> (a: PullAction)
    ensures
        a == if up_to_date {
            PullAction::UpToDate
        } else if fast_forward {
            PullAction::FastForward
        } else if rebase {
            PullAction::Rebase
        } else {
            PullAction::Refuse
        },
{
    if up_to_date {
        PullAction::UpToDate
    } else if fast_forward {
        PullAction::FastForward
    } else if rebase {
        PullAction::Rebase
    } else {
        PullAction::Refuse
    }
}

impl PullAction {
    /// What the user is told, where the action is to do nothing.
    pub fn message(&self) -> (r: Option<&'static str>)
        ensures
            match *self {
                PullAction::UpToDate => r matches Some(s) && s@ == "up to date"@,
                PullAction::Refuse => r matches Some(s) && s@
                    == "unable to fast-forward (rebase disabled)"@,
                _ => r is None,
            },
    {
        match self {
            PullAction::UpToDate => Some("up to date"),
            PullAction::Refuse => Some("unable to fast-forward (rebase disabled)"),
            _ => None,
        }
    }
}

/// Where the name of a branch starts in the name of a ref: after every
/// `prefix` that the name starts with, from `from` on.
pub open spec fn after_prefixes(s: Seq<char>, prefix: Seq<char>, from: int) -> int
    decreases s.len() - from,
{
    if prefix.len() > 0 && 0 <= from && from + prefix.len() <= s.len() && s.subrange(
        from,
        from + prefix.len(),
    ) == prefix {
        after_prefixes(s, prefix, from + prefix.len())
    } else {
        from
    }
}

/// The name of the branch of a ref: the name of the ref without
/// `refs/heads/` in front of it.
pub fn local_branch(refname: &str) -> (r: &str)
    ensures
        r@ == refname@.subrange(
            after_prefixes(refname@, "refs/heads/"@, 0),
            refname@.len() as int,
        ),
        0 <= after_prefixes(refname@, "refs/heads/"@, 0) <= refname@.len(),
{
    let v = chars_of(refname);
    let n = v.len();
    let k = "refs/heads/".unicode_len();
    let mut from: usize = 0;
    while k > 0 && k <= n - from && range_is(&v, from, from + k, "refs/heads/")
        invariant
            from <= n,
            n == v@.len(),
            k == "refs/heads/"@.len(),
            after_prefixes(v@, "refs/heads/"@, 0) == after_prefixes(
                v@,
                "refs/heads/"@,
                from as int,
            ),
        decreases n - from,
    {
        from += k;
    }
    refname.substring_char(from, n)
}

} // verus!
