//! Classification of uncommitted changes.
//!
//! The store compares the head tree with the index and the index with the
//! working tree, pairs deletions with additions of similar content, and
//! reports one set of flags per path. From those flags this module makes the
//! list of changes: one entry for a path that differs in the index (staged),
//! one for a path that differs in the working tree (unstaged), both where it
//! differs in both. Staged entries come first; within a group the order of
//! the paths is kept. A change of file type is reported as its own kind.

use vstd::prelude::*;
use vstd::utf8::{decode_utf8, valid_utf8};
use crate::text::utf8_str;

verus! {

/// What the store found for one path.
#[derive(Clone, Copy, Debug, PartialEq, Eq, Structural)]
pub struct StatusFlags {
    pub index_new: bool,
    pub index_modified: bool,
    pub index_deleted: bool,
    pub index_renamed: bool,
    pub index_typechange: bool,
    pub wt_new: bool,
    pub wt_modified: bool,
    pub wt_deleted: bool,
    pub wt_typechange: bool,
    pub wt_renamed: bool,
    pub ignored: bool,
    pub conflicted: bool,
}

/// How the store is asked to compare, and what of its answer is listed.
#[derive(Clone, Copy, Debug, PartialEq, Eq, Structural)]
pub struct StatusOptions {
    pub include_ignored: bool,
    pub include_untracked: bool,
    pub recurse_untracked_dirs: bool,
    pub exclude_submodules: bool,
    /// Least similarity, in percent, at which a deletion and an addition
    /// count as one rename.
    pub rename_threshold: u16,
    /// Whether staged deletions and additions are paired into renames.
    pub renames_head_to_index: bool,
    /// Whether unstaged deletions and additions are paired into renames.
    pub renames_index_to_workdir: bool,
}

/// A path with the flags that the store reports for it.
#[derive(Debug)]
pub struct Entry {
    pub path: Vec<u8>,
    pub status: StatusFlags,
}

/// What the store reports, in the order of its paths.
#[derive(Debug)]
pub struct Status {
    pub entries: Vec<Entry>,
}

#[derive(Clone, Copy, Debug, PartialEq, Eq, Structural)]
pub enum Location {
    WorkingTree,
    Index,
}

#[derive(Clone, Copy, Debug, PartialEq, Eq, Structural)]
pub enum Change {
    New,
    Modified,
    Renamed,
    Deleted,
    TypeChanged,
    Unknown,
}

/// One listed change.
#[derive(Debug)]
pub struct StatusEntry {
    pub path: String,
    pub location: Location,
    pub change: Change,
}

/// A listed change as plain values.
pub struct StatusEntryModel {
    pub path: Seq<char>,
    pub location: Location,
    pub change: Change,
}

impl View for StatusEntry {
    type V = StatusEntryModel;

    open spec fn view(&self) -> StatusEntryModel {
        StatusEntryModel { path: self.path@, location: self.location, change: self.change }
    }
}

#[derive(Clone, Copy, Debug, PartialEq, Eq, Structural)]
pub enum StatusError {
    /// The name of the path at this position is not valid text.
    InvalidPath(usize),
}

impl StatusFlags {
    /// No flag is set: the path has no change.
    pub open spec fn spec_is_current(&self) -> bool {
        !self.index_new && !self.index_modified && !self.index_deleted && !self.index_renamed
            && !self.index_typechange && !self.wt_new && !self.wt_modified && !self.wt_deleted
            && !self.wt_typechange && !self.wt_renamed && !self.ignored && !self.conflicted
    }

    /// The flags of a path without a change.
    pub fn current() -> (f: StatusFlags)
        ensures
            f.spec_is_current(),
    {
        StatusFlags {
            index_new: false,
            index_modified: false,
            index_deleted: false,
            index_renamed: false,
            index_typechange: false,
            wt_new: false,
            wt_modified: false,
            wt_deleted: false,
            wt_typechange: false,
            wt_renamed: false,
            ignored: false,
            conflicted: false,
        }
    }

    pub fn is_current(&self) -> (r: bool)
        ensures
            r == self.spec_is_current(),
    {
        !self.index_new && !self.index_modified && !self.index_deleted && !self.index_renamed
            && !self.index_typechange && !self.wt_new && !self.wt_modified && !self.wt_deleted
            && !self.wt_typechange && !self.wt_renamed && !self.ignored && !self.conflicted
    }
}

/// The change that a path shows at one location, if it shows one there.
/// Where several flags are set, a rename wins over a modification, that over
/// an addition, that over a deletion, that over a change of type. A working
/// tree path that is only ignored or in conflict has a change of unknown
/// kind. Untracked and ignored paths count only where the options list them.
pub open spec fn change_at(f: StatusFlags, location: Location, opts: StatusOptions) -> Option<
    Change,
> {
    match location {
        Location::Index => if f.index_renamed {
            Some(Change::Renamed)
        } else if f.index_modified {
            Some(Change::Modified)
        } else if f.index_new {
            Some(Change::New)
        } else if f.index_deleted {
            Some(Change::Deleted)
        } else if f.index_typechange {
            Some(Change::TypeChanged)
        } else {
            None
        },
        Location::WorkingTree => if f.wt_renamed {
            Some(Change::Renamed)
        } else if f.wt_modified {
            Some(Change::Modified)
        } else if f.wt_new && opts.include_untracked {
            Some(Change::New)
        } else if f.wt_deleted {
            Some(Change::Deleted)
        } else if f.wt_typechange {
            Some(Change::TypeChanged)
        } else if f.conflicted || (f.ignored && opts.include_ignored) {
            Some(Change::Unknown)
        } else {
            None
        },
    }
}

/// The path is listed at some location.
pub open spec fn listed(f: StatusFlags, opts: StatusOptions) -> bool {
    change_at(f, Location::Index, opts) is Some || change_at(f, Location::WorkingTree, opts)
        is Some
}

/// The changes at one location among the first `n` paths, in their order.
pub open spec fn side_of(
    entries: Seq<Entry>,
    location: Location,
    opts: StatusOptions,
    n: nat,
) -> Seq<StatusEntryModel>
    decreases n,
{
    if n == 0 {
        Seq::empty()
    } else {
        let rest = side_of(entries, location, opts, (n - 1) as nat);
        match change_at(entries[n - 1].status, location, opts) {
            Some(change) => rest.push(
                StatusEntryModel { path: decode_utf8(entries[n - 1].path@), location, change },
            ),
            None => rest,
        }
    }
}

/// The first listed path, at or after `from`, whose name is not valid text.
pub open spec fn first_invalid(entries: Seq<Entry>, opts: StatusOptions, from: int) -> Option<int>
    decreases entries.len() - from,
{
    if from < 0 || from >= entries.len() {
        None
    } else if listed(entries[from].status, opts) && !valid_utf8(entries[from].path@) {
        Some(from)
    } else {
        first_invalid(entries, opts, from + 1)
    }
}

/// The list of changes: the staged ones, then the unstaged ones; or the
/// position of the first listed path with a name that is not valid text.
pub open spec fn spec_classify(entries: Seq<Entry>, opts: StatusOptions) -> Result<
    Seq<StatusEntryModel>,
    StatusError,
> {
    match first_invalid(entries, opts, 0) {
        Some(i) => Err(StatusError::InvalidPath(i as usize)),
        None => Ok(
            side_of(entries, Location::Index, opts, entries.len()) + side_of(
                entries,
                Location::WorkingTree,
                opts,
                entries.len(),
            ),
        ),
    }
}

/// The entries of `list`, each as plain values.
pub open spec fn models(list: Seq<StatusEntry>) -> Seq<StatusEntryModel> {
    list.map_values(|e: StatusEntry| e@)
}

/// What `first_invalid` says: the position it names is listed and has an
/// invalid name, and every listed path before it, from `from` on, has a valid
/// one.
pub proof fn lemma_first_invalid(entries: Seq<Entry>, opts: StatusOptions, from: int)
    requires
        0 <= from <= entries.len(),
    ensures
        match first_invalid(entries, opts, from) {
            Some(i) => from <= i < entries.len() && listed(entries[i].status, opts) && !valid_utf8(
                entries[i].path@,
            ) && forall|j: int|
                from <= j < i && listed(entries[j].status, opts) ==> valid_utf8(
                    #[trigger] entries[j].path@,
                ),
            None => forall|j: int|
                from <= j < entries.len() && listed(entries[j].status, opts) ==> valid_utf8(
                    #[trigger] entries[j].path@,
                ),
        },
    decreases entries.len() - from,
{
    if from < entries.len() && !(listed(entries[from].status, opts) && !valid_utf8(
        entries[from].path@,
    )) {
        lemma_first_invalid(entries, opts, from + 1);
    }
}

/// Where no path has a flag set, nothing is listed.
pub proof fn lemma_clean_lists_nothing(entries: Seq<Entry>, opts: StatusOptions)
    requires
        forall|i: int| 0 <= i < entries.len() ==> (#[trigger] entries[i]).status.spec_is_current(),
    ensures
        spec_classify(entries, opts) == Ok::<Seq<StatusEntryModel>, StatusError>(Seq::empty()),
{
    lemma_clean_side(entries, Location::Index, opts, entries.len());
    lemma_clean_side(entries, Location::WorkingTree, opts, entries.len());
    lemma_first_invalid(entries, opts, 0);
    assert(first_invalid(entries, opts, 0) is None) by {
        if first_invalid(entries, opts, 0) is Some {
            let i = first_invalid(entries, opts, 0)->0;
            assert(entries[i].status.spec_is_current());
        }
    }
    assert(Seq::<StatusEntryModel>::empty() + Seq::<StatusEntryModel>::empty() =~= Seq::<
        StatusEntryModel,
    >::empty());
}

proof fn lemma_clean_side(entries: Seq<Entry>, location: Location, opts: StatusOptions, n: nat)
    requires
        n <= entries.len(),
        forall|i: int| 0 <= i < entries.len() ==> (#[trigger] entries[i]).status.spec_is_current(),
    ensures
        side_of(entries, location, opts, n) == Seq::<StatusEntryModel>::empty(),
    decreases n,
{
    if n > 0 {
        lemma_clean_side(entries, location, opts, (n - 1) as nat);
        assert(entries[n - 1].status.spec_is_current());
    }
}

/// A path that the store reports as renamed in the index, with a valid name
/// and no flag for the working tree, is listed once, as a staged rename.
pub proof fn lemma_rename_is_one_entry(entry: Entry, opts: StatusOptions)
    requires
        entry.status.index_renamed,
        change_at(entry.status, Location::WorkingTree, opts) is None,
        valid_utf8(entry.path@),
    ensures
        spec_classify(seq![entry], opts) == Ok::<Seq<StatusEntryModel>, StatusError>(
            seq![
                StatusEntryModel {
                    path: decode_utf8(entry.path@),
                    location: Location::Index,
                    change: Change::Renamed,
                },
            ],
        ),
{
    let entries = seq![entry];
    assert(entries[0] == entry);
    lemma_first_invalid(entries, opts, 0);
    assert(first_invalid(entries, opts, 0) is None);
    assert(side_of(entries, Location::Index, opts, 0) =~= Seq::empty());
    assert(side_of(entries, Location::WorkingTree, opts, 0) =~= Seq::empty());
    assert(side_of(entries, Location::Index, opts, 1) =~= seq![
        StatusEntryModel {
            path: decode_utf8(entry.path@),
            location: Location::Index,
            change: Change::Renamed,
        },
    ]);
    assert(side_of(entries, Location::WorkingTree, opts, 1) =~= Seq::empty());
    assert(side_of(entries, Location::Index, opts, 1) + side_of(
        entries,
        Location::WorkingTree,
        opts,
        1,
    ) =~= side_of(entries, Location::Index, opts, 1));
}

/// A path that the store reports as renamed in the working tree, with a
/// valid name and no flag for the index, is listed once, as an unstaged
/// rename.
pub proof fn lemma_unstaged_rename_is_one_entry(entry: Entry, opts: StatusOptions)
    requires
        entry.status.wt_renamed,
        change_at(entry.status, Location::Index, opts) is None,
        valid_utf8(entry.path@),
    ensures
        spec_classify(seq![entry], opts) == Ok::<Seq<StatusEntryModel>, StatusError>(
            seq![
                StatusEntryModel {
                    path: decode_utf8(entry.path@),
                    location: Location::WorkingTree,
                    change: Change::Renamed,
                },
            ],
        ),
{
    let entries = seq![entry];
    assert(entries[0] == entry);
    lemma_first_invalid(entries, opts, 0);
    assert(first_invalid(entries, opts, 0) is None);
    assert(side_of(entries, Location::Index, opts, 0) =~= Seq::empty());
    assert(side_of(entries, Location::WorkingTree, opts, 0) =~= Seq::empty());
    assert(side_of(entries, Location::Index, opts, 1) =~= Seq::empty());
    assert(side_of(entries, Location::WorkingTree, opts, 1) =~= seq![
        StatusEntryModel {
            path: decode_utf8(entry.path@),
            location: Location::WorkingTree,
            change: Change::Renamed,
        },
    ]);
    assert(side_of(entries, Location::Index, opts, 1) + side_of(
        entries,
        Location::WorkingTree,
        opts,
        1,
    ) =~= side_of(entries, Location::WorkingTree, opts, 1));
}

/// The change that a path shows at one location.
pub fn change_of(f: &StatusFlags, location: Location, opts: &StatusOptions) -> (r: Option<Change>)
    ensures
        r == change_at(*f, location, *opts),
{
    match location {
        Location::Index => if f.index_renamed {
            Some(Change::Renamed)
        } else if f.index_modified {
            Some(Change::Modified)
        } else if f.index_new {
            Some(Change::New)
        } else if f.index_deleted {
            Some(Change::Deleted)
        } else if f.index_typechange {
            Some(Change::TypeChanged)
        } else {
            None
        },
        Location::WorkingTree => if f.wt_renamed {
            Some(Change::Renamed)
        } else if f.wt_modified {
            Some(Change::Modified)
        } else if f.wt_new && opts.include_untracked {
            Some(Change::New)
        } else if f.wt_deleted {
            Some(Change::Deleted)
        } else if f.wt_typechange {
            Some(Change::TypeChanged)
        } else if f.conflicted || (f.ignored && opts.include_ignored) {
            Some(Change::Unknown)
        } else {
            None
        },
    }
}

impl Default for StatusOptions {
    /// Ignored files are left out, untracked files are listed one by one,
    /// submodules are left out, and in each of the two comparisons a
    /// deletion and an addition that are at least half alike count as a
    /// rename.
    fn default() -> (o: StatusOptions)
        ensures
            !o.include_ignored,
            o.include_untracked,
            o.recurse_untracked_dirs,
            o.exclude_submodules,
            o.rename_threshold == 50,
            o.renames_head_to_index,
            o.renames_index_to_workdir,
    {
        StatusOptions {
            include_ignored: false,
            include_untracked: true,
            recurse_untracked_dirs: true,
            exclude_submodules: true,
            rename_threshold: 50,
            renames_head_to_index: true,
            renames_index_to_workdir: true,
        }
    }
}

impl Entry {
    /// The name of the path, if it is valid text.
    pub fn path(&self) -> (r: Option<&str>)
        ensures
            r is Some <==> valid_utf8(self.path@),
            r matches Some(s) ==> s@ == decode_utf8(self.path@),
    {
        utf8_str(self.path.as_slice())
    }
}

/// The paths of `entries` that have some flag set, in order.
pub open spec fn changed(entries: Seq<Entry>, n: nat) -> Seq<int>
    decreases n,
{
    if n == 0 {
        Seq::empty()
    } else if entries[n - 1].status.spec_is_current() {
        changed(entries, (n - 1) as nat)
    } else {
        changed(entries, (n - 1) as nat).push(n - 1)
    }
}

impl Status {
    /// Positions of the paths that have a change, in order.
    pub fn entries(&self) -> (r: Vec<usize>)
        ensures
            r@.map_values(|i: usize| i as int) == changed(self.entries@, self.entries@.len()),
    {
        let mut r: Vec<usize> = Vec::new();
        let mut i: usize = 0;
        assert(r@.map_values(|i: usize| i as int) =~= changed(self.entries@, 0));
        while i < self.entries.len()
            invariant
                i <= self.entries@.len(),
                r@.map_values(|i: usize| i as int) == changed(self.entries@, i as nat),
            decreases self.entries@.len() - i,
        {
            let ghost before = r@;
            if !self.entries[i].status.is_current() {
                r.push(i);
                assert(r@.map_values(|i: usize| i as int) =~= before.map_values(
                    |i: usize| i as int,
                ).push(i as int));
            }
            i += 1;
        }
        r
    }

    /// The list of changes. Staged changes come first, then unstaged ones,
    /// each group in the order of the paths. A listed path whose name is not
    /// valid text fails the whole list.
    pub fn classify(&self, opts: &StatusOptions) -> (r: Result<Vec<StatusEntry>, StatusError>)
        ensures
            match r {
                Ok(list) => spec_classify(self.entries@, *opts) == Ok::<
                    Seq<StatusEntryModel>,
                    StatusError,
                >(models(list@)),
                Err(e) => spec_classify(self.entries@, *opts) == Err::<
                    Seq<StatusEntryModel>,
                    StatusError,
                >(e),
            },
    {
        let n = self.entries.len();
        let mut i: usize = 0;
        while i < n
            invariant
                n == self.entries@.len(),
                i <= n,
                first_invalid(self.entries@, *opts, 0) == first_invalid(
                    self.entries@,
                    *opts,
                    i as int,
                ),
                forall|j: int|
                    0 <= j < i && listed(self.entries@[j].status, *opts) ==> valid_utf8(
                        #[trigger] self.entries@[j].path@,
                    ),
            decreases n - i,
        {
            let f = &self.entries[i].status;
            let is_listed = change_of(f, Location::Index, opts).is_some() || change_of(
                f,
                Location::WorkingTree,
                opts,
            ).is_some();
            if is_listed && self.entries[i].path().is_none() {
                return Err(StatusError::InvalidPath(i));
            }
            i += 1;
        }
        let mut list: Vec<StatusEntry> = Vec::new();
        self.collect(&mut list, Location::Index, opts);
        self.collect(&mut list, Location::WorkingTree, opts);
        Ok(list)
    }

    /// Appends to `list` the changes at one location, in the order of the
    /// paths.
    fn collect(&self, list: &mut Vec<StatusEntry>, location: Location, opts: &StatusOptions)
        requires
            forall|j: int|
                0 <= j < self.entries@.len() && listed(self.entries@[j].status, *opts)
                    ==> valid_utf8(#[trigger] self.entries@[j].path@),
        ensures
            models(final(list)@) == models(old(list)@) + side_of(
                self.entries@,
                location,
                *opts,
                self.entries@.len(),
            ),
    {
        let n = self.entries.len();
        let mut i: usize = 0;
        assert(models(list@) =~= models(old(list)@) + side_of(self.entries@, location, *opts, 0));
        while i < n
            invariant
                n == self.entries@.len(),
                i <= n,
                forall|j: int|
                    0 <= j < self.entries@.len() && listed(self.entries@[j].status, *opts)
                        ==> valid_utf8(#[trigger] self.entries@[j].path@),
                models(list@) == models(old(list)@) + side_of(
                    self.entries@,
                    location,
                    *opts,
                    i as nat,
                ),
            decreases n - i,
        {
            let ghost before = list@;
            match change_of(&self.entries[i].status, location, opts) {
                None => {},
                Some(change) => {
                    // the names of the listed paths are known to be valid text
                    assert(listed(self.entries@[i as int].status, *opts));
                    assert(valid_utf8(self.entries@[i as int].path@));
                    let path = match self.entries[i].path() {
                        Some(name) => name.to_string(),
                        None => String::new(),
                    };
                    let entry = StatusEntry { path, location, change };
                    list.push(entry);
                    assert(models(list@) =~= models(before).push(entry@));
                    assert(models(list@) =~= models(old(list)@) + side_of(
                        self.entries@,
                        location,
                        *opts,
                        (i + 1) as nat,
                    ));
                },
            }
            i += 1;
        }
    }
}

} // verus!
