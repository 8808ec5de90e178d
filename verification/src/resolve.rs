//! Names of revisions: `HEAD` or `@`, a branch, or either followed by `~`
//! and a number, which names an ancestor.

use vstd::prelude::*;
use crate::graph::CommitGraph;
use crate::text::{chars_of, digits_value, has_prefix, starts_with};

verus! {

#[derive(Debug, PartialEq)]
pub enum Pattern<'a> {
    Head,
    Branch(&'a str),
    Parent((usize, Box<Pattern<'a>>)),
}

/// A pattern as plain values.
pub enum PatternModel {
    Head,
    Branch(Seq<char>),
    Parent(usize, Box<PatternModel>),
}

/// The text is no pattern. Every text starts with one, so this never
/// comes up; it keeps the result of `parse` in the shape of a parser's.
#[derive(Clone, Copy, Debug, PartialEq, Eq, Structural)]
pub struct PatternError;

/// What a pattern holds, as plain values.
pub open spec fn model_of(pattern: Pattern<'_>) -> PatternModel
    decreases pattern,
{
    match pattern {
        Pattern::Head => PatternModel::Head,
        Pattern::Branch(name) => PatternModel::Branch(name@),
        Pattern::Parent((n, inner)) => PatternModel::Parent(n, Box::new(model_of(*inner))),
    }
}

impl<'a> View for Pattern<'a> {
    type V = PatternModel;

    open spec fn view(&self) -> PatternModel {
        model_of(*self)
    }
}

/// A character that ends the name of a branch.
pub open spec fn is_stop(c: char) -> bool {
    c == '@' || c == '^' || c == '~'
}

/// Where the name that starts at `from` ends: at the first stop character
/// or at the end of the text.
pub open spec fn name_end(s: Seq<char>, from: int) -> int
    decreases s.len() - from,
{
    if from < 0 || from >= s.len() || is_stop(s[from]) {
        from
    } else {
        name_end(s, from + 1)
    }
}

/// Where the digits that start at `from` end.
pub open spec fn digits_end(s: Seq<char>, from: int) -> int
    decreases s.len() - from,
{
    if from < 0 || from >= s.len() || !('0' <= s[from] <= '9') {
        from
    } else {
        digits_end(s, from + 1)
    }
}

/// The pattern at the start of a text and how many characters it takes:
/// `HEAD`, `@`, or the name of a branch, which may be empty.
pub open spec fn spec_prefix(s: Seq<char>) -> (PatternModel, int) {
    if has_prefix(s, "HEAD"@) {
        (PatternModel::Head, "HEAD"@.len() as int)
    } else if has_prefix(s, "@"@) {
        (PatternModel::Head, "@"@.len() as int)
    } else {
        (PatternModel::Branch(s.subrange(0, name_end(s, 0))), name_end(s, 0))
    }
}

/// Where the digits of a number start that may carry a sign at `from`.
pub open spec fn after_sign(s: Seq<char>, from: int) -> int {
    if 0 <= from < s.len() && (s[from] == '+' || s[from] == '-') {
        from + 1
    } else {
        from
    }
}

/// The count that a signed number stands for. A negative number counts as
/// it does when its 32 bits are read as an unsigned word of the machine.
pub open spec fn count_of(negative: bool, value: nat) -> usize {
    if negative && value > 0 {
        (usize::MAX - value + 1) as usize
    } else {
        value as usize
    }
}

/// The pattern at the start of a text and what is left of the text. A
/// prefix that is followed by `~` and a number that fits into 32 bits with
/// its sign names an ancestor; the number may carry a sign.
pub open spec fn spec_parse(s: Seq<char>) -> (PatternModel, Seq<char>) {
    let (prefix, k) = spec_prefix(s);
    let d0 = after_sign(s, k + 1);
    let d1 = digits_end(s, d0);
    let negative = d0 > k + 1 && s[k + 1] == '-';
    let value = digits_value(s.subrange(d0, d1));
    let limit = if negative {
        0x8000_0000nat
    } else {
        0x7fff_ffffnat
    };
    if 0 <= k < s.len() && s[k] == '~' && d1 > d0 && value <= limit {
        (
            PatternModel::Parent(count_of(negative, value), Box::new(prefix)),
            s.subrange(d1, s.len() as int),
        )
    } else {
        (prefix, s.subrange(k, s.len() as int))
    }
}

impl<'a> Pattern<'a> {
    /// Reads the pattern that `pattern` starts with and gives what is left
    /// of the text. Every text starts with a pattern.
    pub fn parse(pattern: &'a str) -> (r: Result<(&'a str, Pattern<'a>), PatternError>)
        ensures
            r matches Ok((rest, found)) && (found@, rest@) == spec_parse(pattern@),
    {
        let text = chars_of(pattern);
        let n = text.len();
        let (prefix, k) = if starts_with(&text, "HEAD") {
            (Pattern::Head, "HEAD".unicode_len())
        } else if starts_with(&text, "@") {
            (Pattern::Head, "@".unicode_len())
        } else {
            let mut e: usize = 0;
            while e < n && !(text[e] == '@' || text[e] == '^' || text[e] == '~')
                invariant
                    e <= n,
                    n == text@.len(),
                    name_end(text@, 0) == name_end(text@, e as int),
                decreases n - e,
            {
                e += 1;
            }
            (Pattern::Branch(pattern.substring_char(0, e)), e)
        };
        assert((prefix@, k as int) == spec_prefix(pattern@));
        assert(k <= n);
        if k >= n || text[k] != '~' {
            return Ok((pattern.substring_char(k, n), prefix));
        }
        let negative = k + 1 < n && text[k + 1] == '-';
        let d0 = if k + 1 < n && (text[k + 1] == '+' || text[k + 1] == '-') {
            k + 2
        } else {
            k + 1
        };
        let limit: u64 = if negative {
            0x8000_0000
        } else {
            0x7fff_ffff
        };
        let mut d1: usize = d0;
        let mut value: u64 = 0;
        let mut fits = true;
        assert(text@.subrange(d0 as int, d0 as int) =~= Seq::<char>::empty());
        while d1 < n && '0' <= text[d1] && text[d1] <= '9'
            invariant
                d0 <= d1 <= n,
                n == text@.len(),
                limit <= 0x8000_0000,
                digits_end(text@, d0 as int) == digits_end(text@, d1 as int),
                fits ==> value == digits_value(text@.subrange(d0 as int, d1 as int)) && value
                    <= limit,
                !fits ==> digits_value(text@.subrange(d0 as int, d1 as int)) > limit,
            decreases n - d1,
        {
            let digit = (text[d1] as u64) - ('0' as u64);
            proof {
                let longer = text@.subrange(d0 as int, d1 + 1);
                assert(longer.drop_last() =~= text@.subrange(d0 as int, d1 as int));
                assert(longer.last() == text@[d1 as int]);
            }
            if fits {
                value = value * 10 + digit;
                if value > limit {
                    fits = false;
                }
            }
            d1 += 1;
        }
        if d1 > d0 && fits {
            let count: usize = if negative && value > 0 {
                usize::MAX - ((value - 1) as usize)
            } else {
                value as usize
            };
            Ok((pattern.substring_char(d1, n), Pattern::Parent((count, Box::new(prefix)))))
        } else {
            Ok((pattern.substring_char(k, n), prefix))
        }
    }
}

/// The names that patterns are resolved against: where the head stands
/// and where each local branch points, as positions of commits.
#[derive(Debug)]
pub struct Refs {
    pub head: Option<usize>,
    pub branches: Vec<(String, usize)>,
}

#[derive(Clone, Copy, Debug, PartialEq, Eq, Structural)]
pub enum ResolveError {
    /// The head points at no commit.
    NoHead,
}

/// The commit of the first branch of this name, from `from` on.
pub open spec fn branch_target(branches: Seq<(String, usize)>, name: Seq<char>, from: int) -> Option<
    int,
>
    decreases branches.len() - from,
{
    if from < 0 || from >= branches.len() {
        None
    } else if branches[from].0@ == name {
        Some(branches[from].1 as int)
    } else {
        branch_target(branches, name, from + 1)
    }
}

impl Refs {
    /// Every ref points at a commit of the arena.
    pub open spec fn wf(&self, repo: &CommitGraph) -> bool {
        &&& self.head matches Some(c) ==> c < repo.commits@.len()
        &&& forall|i: int|
            0 <= i < self.branches@.len() ==> (#[trigger] self.branches@[i]).1
                < repo.commits@.len()
    }

    /// The commit that the branch of this name points at.
    pub fn branch(&self, name: &str) -> (r: Option<usize>)
        ensures
            match r {
                Some(c) => branch_target(self.branches@, name@, 0) == Some(c as int) && exists|
                    i: int,
                | 0 <= i < self.branches@.len() && (#[trigger] self.branches@[i]).1 == c,
                None => branch_target(self.branches@, name@, 0) is None,
            },
    {
        let wanted = name.to_string();
        let mut i: usize = 0;
        while i < self.branches.len()
            invariant
                i <= self.branches@.len(),
                wanted@ == name@,
                branch_target(self.branches@, name@, 0) == branch_target(
                    self.branches@,
                    name@,
                    i as int,
                ),
            decreases self.branches@.len() - i,
        {
            if self.branches[i].0 == wanted {
                return Some(self.branches[i].1);
            }
            i += 1;
        }
        None
    }
}

/// The commit that a pattern names: the head, the commit of a branch, or
/// an ancestor of either along first parents. A branch that does not
/// exist names nothing, and neither does an ancestor past the root.
pub open spec fn spec_resolve(pattern: PatternModel, repo: CommitGraph, refs: Refs) -> Result<
    Option<int>,
    ResolveError,
>
    decreases pattern,
{
    match pattern {
        PatternModel::Head => match refs.head {
            Some(c) => Ok(Some(c as int)),
            None => Err(ResolveError::NoHead),
        },
        PatternModel::Branch(name) => Ok(branch_target(refs.branches@, name, 0)),
        PatternModel::Parent(n, inner) => match spec_resolve(*inner, repo, refs) {
            Ok(Some(c)) => Ok(repo.spec_parent_n(c, n as nat)),
            Ok(None) => Ok(None),
            Err(e) => Err(e),
        },
    }
}

impl<'a> Pattern<'a> {
    /// The commit that the pattern names.
    pub fn resolve(&self, repo: &CommitGraph, refs: &Refs) -> (r: Result<
        Option<usize>,
        ResolveError,
    >)
        requires
            repo.wf(),
            refs.wf(repo),
        ensures
            match r {
                Ok(Some(c)) => c < repo.commits@.len() && spec_resolve(self@, *repo, *refs) == Ok::<
                    Option<int>,
                    ResolveError,
                >(Some(c as int)),
                Ok(None) => spec_resolve(self@, *repo, *refs) == Ok::<Option<int>, ResolveError>(
                    None,
                ),
                Err(e) => spec_resolve(self@, *repo, *refs) == Err::<Option<int>, ResolveError>(e),
            },
        decreases self,
    {
        match self {
            Pattern::Head => match refs.head {
                Some(c) => Ok(Some(c)),
                None => Err(ResolveError::NoHead),
            },
            Pattern::Branch(name) => Ok(refs.branch(name)),
            Pattern::Parent((n, inner)) => match inner.resolve(repo, refs) {
                Ok(Some(c)) => Ok(repo.parent_n(c, *n)),
                Ok(None) => Ok(None),
                Err(e) => Err(e),
            },
        }
    }
}

impl CommitGraph {
    /// The commit that is reached from `c` by `n` steps, each to a first
    /// parent; nothing where the line of first parents ends before.
    pub open spec fn spec_parent_n(&self, c: int, n: nat) -> Option<int>
        decreases n,
    {
        if n == 0 {
            Some(c)
        } else if 0 <= c < self.commits@.len() && self.commits@[c].parents@.len() > 0 {
            self.spec_parent_n(self.commits@[c].parents@[0] as int, (n - 1) as nat)
        } else {
            None
        }
    }

    /// The `n`th ancestor of `c` along first parents.
    pub fn parent_n(&self, c: usize, n: usize) -> (r: Option<usize>)
        requires
            self.wf(),
            c < self.commits@.len(),
        ensures
            match r {
                Some(p) => p < self.commits@.len() && self.spec_parent_n(c as int, n as nat)
                    == Some(p as int),
                None => self.spec_parent_n(c as int, n as nat) is None,
            },
    {
        let mut at: usize = c;
        let mut left: usize = n;
        while left > 0
            invariant
                self.wf(),
                at < self.commits@.len(),
                self.spec_parent_n(c as int, n as nat) == self.spec_parent_n(at as int, left as nat),
            decreases left,
        {
            if self.commits[at].parents.len() == 0 {
                return None;
            }
            at = self.commits[at].parents[0];
            left -= 1;
        }
        Some(at)
    }
}

} // verus!
