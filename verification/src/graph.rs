//! Divergence between two branch tips.
//!
//! History is held as an arena of commits. A commit is named by its position
//! in the arena, and every parent stands before its children, so a greater
//! position means a more recent commit and no walk can run in a circle.
//! The merge base of two tips is the most recent commit that both reach; the
//! commits that one tip reaches and the merge base does not are what that
//! side has on its own.

use vstd::prelude::*;
use crate::oid::Oid;

verus! {

/// One commit of the arena.
#[derive(Debug)]
pub struct Commit {
    pub id: Oid,
    /// Positions of the parents, first parent first.
    pub parents: Vec<usize>,
    pub message: String,
    /// Whether the commit carries a detached signature.
    pub signed: bool,
}

/// The commits that are known, parents before children.
#[derive(Debug)]
pub struct CommitGraph {
    pub commits: Vec<Commit>,
}

#[derive(Clone, Copy, Debug)]
pub enum GraphError {
    /// The arena holds no commit of this id.
    NotFound(Oid),
    /// The two tips share no ancestor.
    Unrelated,
}

/// What each of two tips has that the other lacks, most recent first.
#[derive(Debug)]
pub struct Graph {
    pub ahead: Vec<usize>,
    pub behind: Vec<usize>,
}

impl CommitGraph {
    /// Parents stand before their children and no id occurs twice.
    pub open spec fn wf(&self) -> bool {
        &&& forall|c: int, k: int|
            0 <= c < self.commits@.len() && 0 <= k < self.commits@[c].parents@.len() ==> (
            #[trigger] self.commits@[c].parents@[k]) < c
        &&& forall|i: int, j: int|
            #![trigger self.commits@[i], self.commits@[j]]
            0 <= i < j < self.commits@.len() ==> self.commits@[i].id.bytes@
                != self.commits@[j].id.bytes@
    }

    /// `to` is `from` or one of its ancestors.
    pub open spec fn reaches(&self, from: int, to: int) -> bool
        decreases from,
    {
        &&& 0 <= from < self.commits@.len()
        &&& (from == to || exists|k: int|
            0 <= k < self.commits@[from].parents@.len() && (
            #[trigger] self.commits@[from].parents@[k]) < from && self.reaches(
                self.commits@[from].parents@[k] as int,
                to,
            ))
    }

    /// Both tips reach `c`.
    pub open spec fn common(&self, a: int, b: int, c: int) -> bool {
        self.reaches(a, c) && self.reaches(b, c)
    }

    /// The most recent common ancestor among the first `n` commits.
    pub open spec fn newest_common_below(&self, a: int, b: int, n: nat) -> Option<int>
        decreases n,
    {
        if n == 0 {
            None
        } else if self.common(a, b, n - 1) {
            Some(n - 1)
        } else {
            self.newest_common_below(a, b, (n - 1) as nat)
        }
    }

    /// The most recent commit that both tips reach, if there is one.
    pub open spec fn spec_merge_base(&self, a: int, b: int) -> Option<int> {
        self.newest_common_below(a, b, self.commits@.len())
    }

    /// Among the first `n` commits, those that `tip` reaches and `hidden`
    /// does not, most recent first.
    pub open spec fn walk_below(&self, tip: int, hidden: int, n: nat) -> Seq<usize>
        decreases n,
    {
        if n == 0 {
            Seq::empty()
        } else {
            let rest = self.walk_below(tip, hidden, (n - 1) as nat);
            if self.reaches(tip, n - 1) && !self.reaches(hidden, n - 1) {
                seq![(n - 1) as usize] + rest
            } else {
                rest
            }
        }
    }

    /// The commits that `tip` reaches and `hidden` does not, most recent first.
    pub open spec fn spec_walk(&self, tip: int, hidden: int) -> Seq<usize> {
        self.walk_below(tip, hidden, self.commits@.len())
    }

    /// Some commit has this id.
    pub open spec fn holds(&self, id: Seq<u8>) -> bool {
        exists|c: int| 0 <= c < self.commits@.len() && (#[trigger] self.commits@[c]).id.bytes@ == id
    }

    /// The position of the commit with this id.
    pub open spec fn spec_find(&self, id: Seq<u8>) -> Option<int> {
        if self.holds(id) {
            Some(
                choose|c: int|
                    0 <= c < self.commits@.len() && (#[trigger] self.commits@[c]).id.bytes@ == id,
            )
        } else {
            None
        }
    }

    /// What the tips `a` and `b` each have that `base` does not reach.
    pub open spec fn sides(&self, a: int, b: int, base: int) -> (Seq<usize>, Seq<usize>) {
        (self.spec_walk(a, base), self.spec_walk(b, base))
    }

    /// The two sides of the commits of the ids `left` and `right`, relative
    /// to their merge base; nothing where an id is not held or the two
    /// share no ancestor.
    pub open spec fn spec_ahead_behind(&self, left: Seq<u8>, right: Seq<u8>) -> Option<
        (Seq<usize>, Seq<usize>),
    > {
        match (self.spec_find(left), self.spec_find(right)) {
            (Some(a), Some(b)) => match self.spec_merge_base(a, b) {
                Some(m) => Some(self.sides(a, b, m)),
                None => None,
            },
            _ => None,
        }
    }

    /// The two sides of the commits of the ids `left` and `right`, relative
    /// to the commit of the id `base`; nothing where an id is not held.
    pub open spec fn spec_with_base(&self, left: Seq<u8>, right: Seq<u8>, base: Seq<u8>) -> Option<
        (Seq<usize>, Seq<usize>),
    > {
        match (self.spec_find(left), self.spec_find(right), self.spec_find(base)) {
            (Some(a), Some(b), Some(m)) => Some(self.sides(a, b, m)),
            _ => None,
        }
    }

    /// Some frontier commit below `i`, other than `c`, is marked and reaches `c`.
    pub open spec fn frontier_covers(&self, marks: Seq<bool>, i: int, c: int) -> bool {
        exists|w: int|
            0 <= w < i && w < marks.len() && marks[w] && w != c && #[trigger] self.reaches(w, c)
    }

    /// A commit reaches only itself and what stands before it.
    pub proof fn lemma_reaches_bounds(&self, from: int, to: int)
        requires
            self.reaches(from, to),
        ensures
            0 <= to <= from < self.commits@.len(),
        decreases from,
    {
        if from != to {
            let k = choose|k: int|
                0 <= k < self.commits@[from].parents@.len() && (
                #[trigger] self.commits@[from].parents@[k]) < from && self.reaches(
                    self.commits@[from].parents@[k] as int,
                    to,
                );
            self.lemma_reaches_bounds(self.commits@[from].parents@[k] as int, to);
        }
    }

    /// Whoever reaches a commit reaches each of its parents.
    pub proof fn lemma_reaches_parent(&self, a: int, b: int, k: int)
        requires
            self.wf(),
            self.reaches(a, b),
            0 <= k < self.commits@[b].parents@.len(),
        ensures
            self.reaches(a, self.commits@[b].parents@[k] as int),
        decreases a,
    {
        self.lemma_reaches_bounds(a, b);
        let p = self.commits@[b].parents@[k];
        if a == b {
            assert(self.reaches(p as int, p as int));
        } else {
            let j = choose|j: int|
                0 <= j < self.commits@[a].parents@.len() && (
                #[trigger] self.commits@[a].parents@[j]) < a && self.reaches(
                    self.commits@[a].parents@[j] as int,
                    b,
                );
            self.lemma_reaches_parent(self.commits@[a].parents@[j] as int, b, k);
        }
    }

    /// What `newest_common_below` returns: the greatest common ancestor below
    /// `n`, or nothing when there is none.
    pub proof fn lemma_newest_common(&self, a: int, b: int, n: nat)
        ensures
            match self.newest_common_below(a, b, n) {
                Some(m) => 0 <= m < n && self.common(a, b, m) && forall|c: int|
                    m < c < n ==> !self.common(a, b, c),
                None => forall|c: int| 0 <= c < n ==> !self.common(a, b, c),
            },
        decreases n,
    {
        if n > 0 && !self.common(a, b, n - 1) {
            self.lemma_newest_common(a, b, (n - 1) as nat);
        }
    }

    /// What `walk_below` holds: exactly the commits below `n` that `tip`
    /// reaches and `hidden` does not, each once, in falling order.
    pub proof fn lemma_walk_below(&self, tip: int, hidden: int, n: nat)
        requires
            n <= self.commits@.len(),
            self.commits@.len() <= usize::MAX,
        ensures
            forall|x: usize|
                #![trigger self.walk_below(tip, hidden, n).contains(x)]
                self.walk_below(tip, hidden, n).contains(x) <==> (x < n && self.reaches(
                    tip,
                    x as int,
                ) && !self.reaches(hidden, x as int)),
            forall|i: int, j: int|
                0 <= i < j < self.walk_below(tip, hidden, n).len() ==> self.walk_below(
                    tip,
                    hidden,
                    n,
                )[i] > self.walk_below(tip, hidden, n)[j],
            forall|i: int|
                0 <= i < self.walk_below(tip, hidden, n).len() ==> self.walk_below(
                    tip,
                    hidden,
                    n,
                )[i] < n,
        decreases n,
    {
        let w = self.walk_below(tip, hidden, n);
        if n > 0 {
            let rest = self.walk_below(tip, hidden, (n - 1) as nat);
            self.lemma_walk_below(tip, hidden, (n - 1) as nat);
            let top = (n - 1) as usize;
            if self.reaches(tip, n - 1) && !self.reaches(hidden, n - 1) {
                assert(w =~= seq![top] + rest);
                assert(w[0] == top);
                assert forall|x: usize| #![trigger w.contains(x)] w.contains(x) <==> (x < n && self.reaches(tip, x as int)
                    && !self.reaches(hidden, x as int)) by {
                    if w.contains(x) {
                        let i = choose|i: int| 0 <= i < w.len() && w[i] == x;
                        if i > 0 {
                            assert(rest[i - 1] == x);
                            assert(rest.contains(x));
                        }
                    }
                    if x < n && self.reaches(tip, x as int) && !self.reaches(hidden, x as int) {
                        if x == top {
                            assert(w[0] == x);
                        } else {
                            assert(rest.contains(x));
                            let i = choose|i: int| 0 <= i < rest.len() && rest[i] == x;
                            assert(w[i + 1] == x);
                        }
                    }
                }
                assert forall|i: int, j: int| 0 <= i < j < w.len() implies w[i] > w[j] by {
                    assert(w[j] == rest[j - 1]);
                    if i > 0 {
                        assert(w[i] == rest[i - 1]);
                    }
                }
                assert forall|i: int| 0 <= i < w.len() implies w[i] < n by {
                    if i > 0 {
                        assert(w[i] == rest[i - 1]);
                    }
                }
            } else {
                assert(w == rest);
            }
        } else {
            assert(w =~= Seq::<usize>::empty());
        }
    }

    /// An arena without commits.
    pub fn new() -> (g: CommitGraph)
        ensures
            g.commits@.len() == 0,
            g.wf(),
    {
        CommitGraph { commits: Vec::new() }
    }

    /// Number of commits held.
    pub fn len(&self) -> (n: usize)
        ensures
            n == self.commits@.len(),
    {
        self.commits.len()
    }

    /// Position of the commit with this id.
    pub fn find(&self, id: &Oid) -> (r: Option<usize>)
        requires
            self.wf(),
        ensures
            r is Some <==> self.holds(id.bytes@),
            r matches Some(c) ==> self.spec_find(id.bytes@) == Some(c as int) && c
                < self.commits@.len() && self.commits@[c as int].id.bytes@ == id.bytes@,
            r is None ==> self.spec_find(id.bytes@) is None,
    {
        let mut i: usize = 0;
        while i < self.commits.len()
            invariant
                self.wf(),
                i <= self.commits@.len(),
                forall|j: int| 0 <= j < i ==> (#[trigger] self.commits@[j]).id.bytes@ != id.bytes@,
            decreases self.commits@.len() - i,
        {
            if self.commits[i].id.same(id) {
                proof {
                    assert(self.holds(id.bytes@));
                    let c = choose|c: int|
                        0 <= c < self.commits@.len() && (#[trigger] self.commits@[c]).id.bytes@
                            == id.bytes@;
                    if c != i {
                        // two commits with one id contradict `wf`
                        if c < i {
                            assert(self.commits@[c].id.bytes@ != self.commits@[i as int].id.bytes@);
                        } else {
                            assert(self.commits@[i as int].id.bytes@ != self.commits@[c].id.bytes@);
                        }
                    }
                }
                return Some(i);
            }
            i += 1;
        }
        None
    }

    /// Adds a commit whose parents are already held and returns its position.
    /// Nothing is added, and `None` returned, when a parent is not a position
    /// of the arena or the id is already held.
    pub fn add(&mut self, id: Oid, parents: Vec<usize>, message: String, signed: bool) -> (r:
        Option<usize>)
        requires
            old(self).wf(),
        ensures
            final(self).wf(),
            r is Some <==> (!old(self).holds(id.bytes@) && forall|k: int|
                0 <= k < parents@.len() ==> parents@[k] < old(self).commits@.len()),
            r is None ==> final(self).commits@ == old(self).commits@,
            r matches Some(c) ==> c == old(self).commits@.len() && final(self).commits@ == old(
                self,
            ).commits@.push(Commit { id, parents, message, signed }),
    {
        let n = self.commits.len();
        let mut k: usize = 0;
        while k < parents.len()
            invariant
                self.wf(),
                self.commits@ == old(self).commits@,
                k <= parents@.len(),
                n == self.commits@.len(),
                forall|j: int| 0 <= j < k ==> parents@[j] < n,
            decreases parents@.len() - k,
        {
            if parents[k] >= n {
                return None;
            }
            k += 1;
        }
        if self.find(&id).is_some() {
            return None;
        }
        self.commits.push(Commit { id, parents, message, signed });
        proof {
            let after = self.commits@;
            assert forall|i: int, j: int|
                #![trigger after[i], after[j]]
                0 <= i < j < after.len() implies after[i].id.bytes@ != after[j].id.bytes@ by {
                if j == n {
                    assert(after[i] == old(self).commits@[i]);
                } else {
                    assert(after[i] == old(self).commits@[i]);
                    assert(after[j] == old(self).commits@[j]);
                }
            }
            assert forall|c: int, j: int|
                0 <= c < after.len() && 0 <= j < after[c].parents@.len() implies (
            #[trigger] after[c].parents@[j]) < c by {
                if c < n {
                    assert(after[c] == old(self).commits@[c]);
                }
            }
        }
        Some(n)
    }

    /// For every commit, whether `tip` reaches it.
    pub fn reachable_from(&self, tip: usize) -> (marks: Vec<bool>)
        requires
            self.wf(),
            tip < self.commits@.len(),
        ensures
            marks@.len() == self.commits@.len(),
            forall|c: int| 0 <= c < marks@.len() ==> marks@[c] == self.reaches(tip as int, c),
    {
        let n = self.commits.len();
        let mut marks: Vec<bool> = Vec::new();
        let mut f: usize = 0;
        while f < n
            invariant
                f <= n,
                marks@.len() == f,
                forall|j: int| 0 <= j < f ==> !marks@[j],
            decreases n - f,
        {
            marks.push(false);
            f += 1;
        }
        marks.set(tip, true);
        assert(self.reaches(tip as int, tip as int));
        let mut i: usize = tip + 1;
        while i > 0
            invariant
                self.wf(),
                n == self.commits@.len(),
                tip < n,
                marks@.len() == n,
                i <= tip + 1,
                forall|c: int| 0 <= c < n && marks@[c] ==> self.reaches(tip as int, c),
                forall|c: int|
                    self.reaches(tip as int, c) ==> marks@[c] || self.frontier_covers(
                        marks@,
                        i as int,
                        c,
                    ),
            decreases i,
        {
            i -= 1;
            let ghost before = marks@;
            if marks[i] {
                let mut k: usize = 0;
                while k < self.commits[i].parents.len()
                    invariant
                        self.wf(),
                        n == self.commits@.len(),
                        i < n,
                        tip < n,
                        marks@.len() == n,
                        before.len() == n,
                        before[i as int],
                        self.reaches(tip as int, i as int),
                        k <= self.commits@[i as int].parents@.len(),
                        forall|c: int| 0 <= c < n && marks@[c] ==> self.reaches(tip as int, c),
                        forall|c: int| 0 <= c < n && before[c] ==> marks@[c],
                        forall|j: int|
                            0 <= j < k ==> marks@[self.commits@[i as int].parents@[j] as int],
                    decreases self.commits@[i as int].parents@.len() - k,
                {
                    let p = self.commits[i].parents[k];
                    proof {
                        self.lemma_reaches_parent(tip as int, i as int, k as int);
                    }
                    marks.set(p, true);
                    k += 1;
                }
                proof {
                    assert forall|c: int| self.reaches(tip as int, c) implies marks@[c]
                        || self.frontier_covers(marks@, i as int, c) by {
                        self.lemma_reaches_bounds(tip as int, c);
                        if !before[c] {
                            let w = choose|w: int|
                                0 <= w < i + 1 && w < before.len() && before[w] && w != c
                                    && #[trigger] self.reaches(w, c);
                            if w == i {
                                let j = choose|j: int|
                                    0 <= j < self.commits@[w].parents@.len() && (
                                    #[trigger] self.commits@[w].parents@[j]) < w && self.reaches(
                                        self.commits@[w].parents@[j] as int,
                                        c,
                                    );
                                let p = self.commits@[w].parents@[j] as int;
                                assert(marks@[p]);
                                if p != c {
                                    assert(self.reaches(p, c));
                                }
                            } else {
                                assert(marks@[w]);
                                assert(self.reaches(w, c));
                            }
                        }
                    }
                }
            } else {
                proof {
                    assert forall|c: int| self.reaches(tip as int, c) implies marks@[c]
                        || self.frontier_covers(marks@, i as int, c) by {
                        if !marks@[c] {
                            let w = choose|w: int|
                                0 <= w < i + 1 && w < before.len() && before[w] && w != c
                                    && #[trigger] self.reaches(w, c);
                            assert(w != i);
                            assert(self.reaches(w, c));
                        }
                    }
                }
            }
        }
        proof {
            assert forall|c: int| 0 <= c < marks@.len() implies marks@[c] == self.reaches(
                tip as int,
                c,
            ) by {
                if self.reaches(tip as int, c) {
                    assert(!self.frontier_covers(marks@, 0, c));
                }
            }
        }
        marks
    }

    /// The most recent commit that both `a` and `b` reach.
    pub fn merge_base(&self, a: usize, b: usize) -> (r: Option<usize>)
        requires
            self.wf(),
            a < self.commits@.len(),
            b < self.commits@.len(),
        ensures
            match r {
                Some(m) => m < self.commits@.len() && self.spec_merge_base(a as int, b as int)
                    == Some(m as int) && self.common(a as int, b as int, m as int) && forall|c: int|
                    self.common(a as int, b as int, c) ==> c <= m,
                None => self.spec_merge_base(a as int, b as int) is None && forall|c: int|
                    !self.common(a as int, b as int, c),
            },
    {
        let from_a = self.reachable_from(a);
        let from_b = self.reachable_from(b);
        let n = self.commits.len();
        let mut i: usize = n;
        proof {
            self.lemma_newest_common(a as int, b as int, n as nat);
            assert forall|c: int| self.common(a as int, b as int, c) implies 0 <= c < n by {
                self.lemma_reaches_bounds(a as int, c);
            }
        }
        while i > 0
            invariant
                i <= n,
                n == self.commits@.len(),
                from_a@.len() == n,
                from_b@.len() == n,
                forall|c: int| 0 <= c < n ==> from_a@[c] == self.reaches(a as int, c),
                forall|c: int| 0 <= c < n ==> from_b@[c] == self.reaches(b as int, c),
                self.newest_common_below(a as int, b as int, n as nat)
                    == self.newest_common_below(a as int, b as int, i as nat),
                forall|c: int| i <= c < n ==> !self.common(a as int, b as int, c),
                forall|c: int| self.common(a as int, b as int, c) ==> 0 <= c < n,
            decreases i,
        {
            i -= 1;
            if from_a[i] && from_b[i] {
                return Some(i);
            }
        }
        None
    }

    /// The commits that `tip` reaches and `hidden` does not, most recent first.
    pub fn walk(&self, tip: usize, hidden: usize) -> (out: Vec<usize>)
        requires
            self.wf(),
            tip < self.commits@.len(),
            hidden < self.commits@.len(),
        ensures
            out@ == self.spec_walk(tip as int, hidden as int),
            forall|i: int| 0 <= i < out@.len() ==> out@[i] < self.commits@.len(),
            forall|x: usize|
                #![trigger out@.contains(x)]
                out@.contains(x) <==> (self.reaches(tip as int, x as int) && !self.reaches(
                    hidden as int,
                    x as int,
                )),
            forall|i: int, j: int| 0 <= i < j < out@.len() ==> out@[i] > out@[j],
    {
        let from_tip = self.reachable_from(tip);
        let from_hidden = self.reachable_from(hidden);
        let n = self.commits.len();
        let mut out: Vec<usize> = Vec::new();
        let mut i: usize = n;
        while i > 0
            invariant
                i <= n,
                n == self.commits@.len(),
                from_tip@.len() == n,
                from_hidden@.len() == n,
                forall|c: int| 0 <= c < n ==> from_tip@[c] == self.reaches(tip as int, c),
                forall|c: int| 0 <= c < n ==> from_hidden@[c] == self.reaches(hidden as int, c),
                out@ + self.walk_below(tip as int, hidden as int, i as nat) == self.walk_below(
                    tip as int,
                    hidden as int,
                    n as nat,
                ),
            decreases i,
        {
            let ghost prev = out@;
            i -= 1;
            if from_tip[i] && !from_hidden[i] {
                out.push(i);
                assert(out@ + self.walk_below(tip as int, hidden as int, i as nat) =~= prev
                    + self.walk_below(tip as int, hidden as int, (i + 1) as nat));
            }
        }
        proof {
            assert(out@ =~= out@ + self.walk_below(tip as int, hidden as int, 0));
            self.lemma_walk_below(tip as int, hidden as int, n as nat);
            assert forall|x: usize|
                (self.reaches(tip as int, x as int) && !self.reaches(
                    hidden as int,
                    x as int,
                )) implies x < n by {
                self.lemma_reaches_bounds(tip as int, x as int);
            }
        }
        out
    }
}

impl Graph {
    /// Every commit of either side is a commit of the arena.
    pub open spec fn wf(&self, repo: &CommitGraph) -> bool {
        &&& forall|i: int| 0 <= i < self.ahead@.len() ==> self.ahead@[i] < repo.commits@.len()
        &&& forall|i: int| 0 <= i < self.behind@.len() ==> self.behind@[i] < repo.commits@.len()
    }

    /// What `left` has that `right` lacks, and the reverse, each most recent
    /// first: the commits that a tip reaches and the merge base of the two
    /// does not. A tip that the arena does not hold is reported, the left one
    /// first; so are two tips without a common ancestor.
    pub fn ahead_behind(repo: &CommitGraph, left: &Oid, right: &Oid) -> (r: Result<
        Graph,
        GraphError,
    >)
        requires
            repo.wf(),
        ensures
            match r {
                Ok(g) => {
                    &&& repo.spec_find(left.bytes@) matches Some(a)
                    &&& repo.spec_find(right.bytes@) matches Some(b)
                    &&& repo.spec_merge_base(a, b) matches Some(m)
                    &&& g.ahead@ == repo.spec_walk(a, m)
                    &&& g.behind@ == repo.spec_walk(b, m)
                    &&& g.wf(repo)
                },
                Err(GraphError::NotFound(id)) => {
                    ||| repo.spec_find(left.bytes@) is None && id.bytes@ == left.bytes@
                    ||| repo.spec_find(left.bytes@) is Some && repo.spec_find(right.bytes@) is None
                        && id.bytes@ == right.bytes@
                },
                Err(GraphError::Unrelated) => {
                    &&& repo.spec_find(left.bytes@) matches Some(a)
                    &&& repo.spec_find(right.bytes@) matches Some(b)
                    &&& repo.spec_merge_base(a, b) is None
                },
            },
            match r {
                Ok(g) => repo.spec_ahead_behind(left.bytes@, right.bytes@) == Some(
                    (g.ahead@, g.behind@),
                ),
                Err(_) => repo.spec_ahead_behind(left.bytes@, right.bytes@) is None,
            },
            left.bytes@ == right.bytes@ ==> (r matches Ok(g) ==> g.ahead@.len() == 0
                && g.behind@.len() == 0),
    {
        let a = match repo.find(left) {
            Some(a) => a,
            None => {
                return Err(GraphError::NotFound(*left));
            },
        };
        let b = match repo.find(right) {
            Some(b) => b,
            None => {
                return Err(GraphError::NotFound(*right));
            },
        };
        let m = match repo.merge_base(a, b) {
            Some(m) => m,
            None => {
                return Err(GraphError::Unrelated);
            },
        };
        let ahead = repo.walk(a, m);
        let behind = repo.walk(b, m);
        proof {
            if left.bytes@ == right.bytes@ {
                lemma_same_tip_no_divergence(repo, a as int);
            }
        }
        Ok(Graph { ahead, behind })
    }

    /// The two sides relative to a merge base that is already known: the
    /// commits that a tip reaches and `base` does not. A commit that the
    /// arena does not hold is reported, in the order left, right, base.
    pub fn with_base(repo: &CommitGraph, left: &Oid, right: &Oid, base: &Oid) -> (r: Result<
        Graph,
        GraphError,
    >)
        requires
            repo.wf(),
        ensures
            match r {
                Ok(g) => {
                    &&& repo.spec_find(left.bytes@) matches Some(a)
                    &&& repo.spec_find(right.bytes@) matches Some(b)
                    &&& repo.spec_find(base.bytes@) matches Some(m)
                    &&& g.ahead@ == repo.spec_walk(a, m)
                    &&& g.behind@ == repo.spec_walk(b, m)
                    &&& g.wf(repo)
                },
                Err(GraphError::NotFound(id)) => {
                    ||| repo.spec_find(left.bytes@) is None && id.bytes@ == left.bytes@
                    ||| repo.spec_find(left.bytes@) is Some && repo.spec_find(right.bytes@) is None
                        && id.bytes@ == right.bytes@
                    ||| repo.spec_find(left.bytes@) is Some && repo.spec_find(right.bytes@) is Some
                        && repo.spec_find(base.bytes@) is None && id.bytes@ == base.bytes@
                },
                Err(GraphError::Unrelated) => false,
            },
            match r {
                Ok(g) => repo.spec_with_base(left.bytes@, right.bytes@, base.bytes@) == Some(
                    (g.ahead@, g.behind@),
                ),
                Err(_) => repo.spec_with_base(left.bytes@, right.bytes@, base.bytes@) is None,
            },
    {
        let a = match repo.find(left) {
            Some(a) => a,
            None => {
                return Err(GraphError::NotFound(*left));
            },
        };
        let b = match repo.find(right) {
            Some(b) => b,
            None => {
                return Err(GraphError::NotFound(*right));
            },
        };
        let m = match repo.find(base) {
            Some(m) => m,
            None => {
                return Err(GraphError::NotFound(*base));
            },
        };
        let ahead = repo.walk(a, m);
        let behind = repo.walk(b, m);
        Ok(Graph { ahead, behind })
    }
}

/// Relative to the merge base of the arena, `with_base` gives the sides
/// that `ahead_behind` gives: where two ids are held and their commits
/// share an ancestor, and `base` is the id of their merge base, the two
/// give the same.
pub proof fn lemma_with_base_is_ahead_behind(
    repo: &CommitGraph,
    left: Seq<u8>,
    right: Seq<u8>,
    base: Seq<u8>,
)
    requires
        repo.wf(),
        repo.spec_find(left) is Some,
        repo.spec_find(right) is Some,
        repo.spec_merge_base(repo.spec_find(left)->0, repo.spec_find(right)->0) matches Some(m)
            && base == repo.commits@[m].id.bytes@,
    ensures
        repo.spec_ahead_behind(left, right) is Some,
        repo.spec_with_base(left, right, base) == repo.spec_ahead_behind(left, right),
{
    let a = repo.spec_find(left)->0;
    let b = repo.spec_find(right)->0;
    let m = repo.spec_merge_base(a, b)->0;
    repo.lemma_newest_common(a, b, repo.commits@.len());
    assert(repo.commits@[m].id.bytes@ == base);
    assert(repo.holds(base));
    let c = repo.spec_find(base)->0;
    if c != m {
        // two commits with one id contradict `wf`
        if c < m {
            assert(repo.commits@[c].id.bytes@ != repo.commits@[m].id.bytes@);
        } else {
            assert(repo.commits@[m].id.bytes@ != repo.commits@[c].id.bytes@);
        }
    }
}

/// A tip does not diverge from itself: it is its own merge base, and nothing
/// that it reaches is left over on either side.
pub proof fn lemma_same_tip_no_divergence(repo: &CommitGraph, a: int)
    requires
        repo.wf(),
        0 <= a < repo.commits@.len(),
    ensures
        repo.spec_merge_base(a, a) == Some(a),
        repo.spec_walk(a, a) == Seq::<usize>::empty(),
{
    let n = repo.commits@.len();
    assert(repo.commits.len() == n);
    repo.lemma_newest_common(a, a, n);
    assert(repo.reaches(a, a));
    assert(repo.common(a, a, a));
    match repo.spec_merge_base(a, a) {
        Some(m) => {
            repo.lemma_reaches_bounds(a, m);
        },
        None => {},
    }
    repo.lemma_walk_below(a, a, n);
    let w = repo.walk_below(a, a, n);
    if w.len() > 0 {
        let x = w[0];
        assert(w.contains(x));
        assert(repo.reaches(a, x as int) && !repo.reaches(a, x as int));
    }
    assert(w =~= Seq::<usize>::empty());
}

/// Each side of a divergence holds exactly the commits that its tip reaches
/// and the merge base does not, each once and before all of its ancestors.
pub proof fn lemma_divergence_sides(repo: &CommitGraph, a: int, b: int)
    requires
        repo.wf(),
        repo.spec_merge_base(a, b) is Some,
    ensures
        ({
            let m = repo.spec_merge_base(a, b)->0;
            &&& repo.common(a, b, m)
            &&& forall|c: usize|
                #![trigger repo.spec_walk(a, m).contains(c)]
                repo.spec_walk(a, m).contains(c) <==> (repo.reaches(a, c as int) && !repo.reaches(
                    m,
                    c as int,
                ))
            &&& forall|c: usize|
                #![trigger repo.spec_walk(b, m).contains(c)]
                repo.spec_walk(b, m).contains(c) <==> (repo.reaches(b, c as int) && !repo.reaches(
                    m,
                    c as int,
                ))
            &&& repo.spec_walk(a, m).no_duplicates()
            &&& repo.spec_walk(b, m).no_duplicates()
        }),
{
    let n = repo.commits@.len();
    assert(repo.commits.len() == n);
    let m = repo.spec_merge_base(a, b)->0;
    repo.lemma_newest_common(a, b, n);
    repo.lemma_walk_below(a, m, n);
    repo.lemma_walk_below(b, m, n);
    assert forall|c: usize| (repo.reaches(a, c as int) && !repo.reaches(m, c as int)) implies c
        < n by {
        repo.lemma_reaches_bounds(a, c as int);
    }
    assert forall|c: usize| (repo.reaches(b, c as int) && !repo.reaches(m, c as int)) implies c
        < n by {
        repo.lemma_reaches_bounds(b, c as int);
    }
}

/// Where every common ancestor of the two tips is an ancestor of their merge
/// base, no commit stands on both sides of the divergence.
pub proof fn lemma_divergence_disjoint(repo: &CommitGraph, a: int, b: int, c: usize)
    requires
        repo.wf(),
        repo.spec_merge_base(a, b) is Some,
        forall|x: int|
            repo.common(a, b, x) ==> repo.reaches(repo.spec_merge_base(a, b)->0, x),
    ensures
        !(repo.spec_walk(a, repo.spec_merge_base(a, b)->0).contains(c) && repo.spec_walk(
            b,
            repo.spec_merge_base(a, b)->0,
        ).contains(c)),
{
    lemma_divergence_sides(repo, a, b);
    let m = repo.spec_merge_base(a, b)->0;
    if repo.spec_walk(a, m).contains(c) && repo.spec_walk(b, m).contains(c) {
        assert(repo.common(a, b, c as int));
    }
}

} // verus!
