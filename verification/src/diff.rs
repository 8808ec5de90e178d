//! Statistics and text of a diff.
//!
//! The store compares two snapshots and hands over the changed paths and the
//! lines of the patch, each line tagged with its origin and with the path it
//! belongs to. From these lines come the counts of inserted and deleted
//! lines, in total and per path, and the text of the patch, which can be had
//! whole or line by line.

use vstd::prelude::*;
use vstd::utf8::valid_utf8;
use crate::oid::Oid;
use crate::text::utf8_str;

verus! {

/// Where a line of a patch comes from.
#[derive(Clone, Copy, Debug, PartialEq, Eq, Structural)]
pub enum Origin {
    /// A line that both sides have.
    Context,
    Addition,
    Deletion,
    FileHeader,
    HunkHeader,
    /// Any other mark of the store, such as a note on a missing line end.
    Other,
}

/// One line of a patch.
#[derive(Debug)]
pub struct PatchLine {
    /// Position of the path that the line belongs to.
    pub file: usize,
    pub origin: Origin,
    pub content: Vec<u8>,
}

/// What the store found between two snapshots.
#[derive(Debug)]
pub struct Diff {
    /// The changed paths, in the order of the store.
    pub paths: Vec<String>,
    pub lines: Vec<PatchLine>,
}

/// Inserted and deleted lines of one path.
#[derive(Debug)]
pub struct FileStats {
    pub path: String,
    pub insertions: usize,
    pub deletions: usize,
}

/// Inserted and deleted lines of a diff, in total and per path.
#[derive(Debug)]
pub struct DiffStats {
    pub insertions: usize,
    pub deletions: usize,
    pub files: Vec<FileStats>,
}

/// Which snapshots are compared.
#[derive(Clone, Copy, Debug)]
pub enum DiffType {
    /// The tree of this id with the working tree, the index included.
    All(Oid),
    /// The tree of this id with the index.
    Staged(Oid),
    /// The index with the working tree.
    Unstaged,
}

/// How the store is asked to compare.
#[derive(Debug)]
pub struct DiffOpts {
    pub ty: DiffType,
    pub force_text: bool,
    pub ignore_whitespace: bool,
    pub ignore_whitespace_change: bool,
    pub include_ignored: bool,
    pub include_untracked: bool,
    pub recurse_untracked_dirs: bool,
    pub show_untracked_content: bool,
    /// Only paths that match are compared.
    pub pathspec: Option<String>,
}

/// Reads one line after another out of a diff, from the first to the last.
#[derive(Debug)]
pub struct PatchLines<'a> {
    diff: &'a Diff,
    next: usize,
}

/// The mark that the text of a patch shows in front of a line.
pub open spec fn prefix_of(origin: Origin) -> Seq<u8> {
    match origin {
        Origin::Addition => seq![43u8],
        Origin::Deletion => seq![45u8],
        Origin::Context => seq![32u8],
        _ => Seq::empty(),
    }
}

/// The text of one line: its mark and its content. Content that is not valid
/// text is left out.
pub open spec fn line_text(line: PatchLine) -> Seq<u8> {
    if valid_utf8(line.content@) {
        prefix_of(line.origin) + line.content@
    } else {
        prefix_of(line.origin)
    }
}

/// The text of the first `n` lines.
pub open spec fn patch_text(lines: Seq<PatchLine>, n: nat) -> Seq<u8>
    decreases n,
{
    if n == 0 {
        Seq::empty()
    } else {
        patch_text(lines, (n - 1) as nat) + line_text(lines[n - 1])
    }
}

/// How many of the first `n` lines have the given origin.
pub open spec fn tally(lines: Seq<PatchLine>, origin: Origin, n: nat) -> nat
    decreases n,
{
    if n == 0 {
        0
    } else if lines[n - 1].origin == origin {
        tally(lines, origin, (n - 1) as nat) + 1
    } else {
        tally(lines, origin, (n - 1) as nat)
    }
}

/// How many of the first `n` lines have the given origin and belong to the
/// path at position `file`.
pub open spec fn tally_of(lines: Seq<PatchLine>, origin: Origin, file: int, n: nat) -> nat
    decreases n,
{
    if n == 0 {
        0
    } else if lines[n - 1].origin == origin && lines[n - 1].file == file {
        tally_of(lines, origin, file, (n - 1) as nat) + 1
    } else {
        tally_of(lines, origin, file, (n - 1) as nat)
    }
}

pub proof fn lemma_tally_bound(lines: Seq<PatchLine>, origin: Origin, n: nat)
    ensures
        tally(lines, origin, n) <= n,
    decreases n,
{
    if n > 0 {
        lemma_tally_bound(lines, origin, (n - 1) as nat);
    }
}

pub proof fn lemma_tally_of_bound(lines: Seq<PatchLine>, origin: Origin, file: int, n: nat)
    ensures
        tally_of(lines, origin, file, n) <= n,
    decreases n,
{
    if n > 0 {
        lemma_tally_of_bound(lines, origin, file, (n - 1) as nat);
    }
}

/// Two sequences of lines hold the same plain values.
pub open spec fn same_lines(a: Seq<PatchLine>, b: Seq<PatchLine>) -> bool {
    &&& a.len() == b.len()
    &&& forall|i: int|
        0 <= i < a.len() ==> (#[trigger] a[i]).file == b[i].file && a[i].origin == b[i].origin
            && a[i].content@ == b[i].content@
}

/// Counts and text depend on nothing but the lines: the same lines give the
/// same counts, in total and for every path, and the same text.
pub proof fn lemma_same_lines_same_result(
    a: Seq<PatchLine>,
    b: Seq<PatchLine>,
    origin: Origin,
    file: int,
    n: nat,
)
    requires
        same_lines(a, b),
        n <= a.len(),
    ensures
        tally(a, origin, n) == tally(b, origin, n),
        tally_of(a, origin, file, n) == tally_of(b, origin, file, n),
        patch_text(a, n) == patch_text(b, n),
    decreases n,
{
    if n > 0 {
        lemma_same_lines_same_result(a, b, origin, file, (n - 1) as nat);
        assert(a[n - 1].origin == b[n - 1].origin);
    }
}

impl Origin {
    /// The origin that a mark of the store stands for.
    pub fn from_char(c: char) -> (o: Origin)
        ensures
            o == match c {
                ' ' => Origin::Context,
                '+' => Origin::Addition,
                '-' => Origin::Deletion,
                'F' => Origin::FileHeader,
                'H' => Origin::HunkHeader,
                _ => Origin::Other,
            },
    {
        match c {
            ' ' => Origin::Context,
            '+' => Origin::Addition,
            '-' => Origin::Deletion,
            'F' => Origin::FileHeader,
            'H' => Origin::HunkHeader,
            _ => Origin::Other,
        }
    }
}

/// Appends the text of one line to `out`.
fn emit_line(out: &mut Vec<u8>, line: &PatchLine)
    ensures
        final(out)@ == old(out)@ + line_text(*line),
{
    match line.origin {
        Origin::Addition => out.push(43u8),
        Origin::Deletion => out.push(45u8),
        Origin::Context => out.push(32u8),
        _ => {},
    }
    assert(out@ =~= old(out)@ + prefix_of(line.origin));
    if utf8_str(line.content.as_slice()).is_some() {
        out.extend_from_slice(line.content.as_slice());
        assert(out@ =~= old(out)@ + (prefix_of(line.origin) + line.content@));
    }
}

/// The text of a patch: every line with its mark, one after the other.
pub fn render_diff(diff: &Diff) -> (out: Vec<u8>)
    ensures
        out@ == patch_text(diff.lines@, diff.lines@.len()),
{
    let mut out: Vec<u8> = Vec::new();
    let mut i: usize = 0;
    assert(out@ =~= patch_text(diff.lines@, 0));
    while i < diff.lines.len()
        invariant
            i <= diff.lines@.len(),
            out@ == patch_text(diff.lines@, i as nat),
        decreases diff.lines@.len() - i,
    {
        emit_line(&mut out, &diff.lines[i]);
        i += 1;
    }
    out
}

impl Diff {
    /// The counts of inserted and deleted lines: in total over all lines, and
    /// for each path over the lines that belong to it. No text is built.
    pub fn stats(&self) -> (s: DiffStats)
        ensures
            s.insertions == tally(self.lines@, Origin::Addition, self.lines@.len()),
            s.deletions == tally(self.lines@, Origin::Deletion, self.lines@.len()),
            s.files@.len() == self.paths@.len(),
            forall|k: int|
                0 <= k < s.files@.len() ==> {
                    &&& (#[trigger] s.files@[k]).path@ == self.paths@[k]@
                    &&& s.files@[k].insertions == tally_of(
                        self.lines@,
                        Origin::Addition,
                        k,
                        self.lines@.len(),
                    )
                    &&& s.files@[k].deletions == tally_of(
                        self.lines@,
                        Origin::Deletion,
                        k,
                        self.lines@.len(),
                    )
                },
    {
        let n = self.lines.len();
        let files = self.paths.len();
        let mut added: Vec<usize> = Vec::new();
        let mut removed: Vec<usize> = Vec::new();
        let mut k: usize = 0;
        while k < files
            invariant
                k <= files,
                added@.len() == k,
                removed@.len() == k,
                forall|j: int| 0 <= j < k ==> added@[j] == 0 && removed@[j] == 0,
            decreases files - k,
        {
            added.push(0);
            removed.push(0);
            k += 1;
        }
        let mut insertions: usize = 0;
        let mut deletions: usize = 0;
        let mut i: usize = 0;
        while i < n
            invariant
                n == self.lines@.len(),
                files == self.paths@.len(),
                i <= n,
                added@.len() == files,
                removed@.len() == files,
                insertions == tally(self.lines@, Origin::Addition, i as nat),
                deletions == tally(self.lines@, Origin::Deletion, i as nat),
                forall|j: int|
                    0 <= j < files ==> added@[j] == tally_of(
                        self.lines@,
                        Origin::Addition,
                        j,
                        i as nat,
                    ),
                forall|j: int|
                    0 <= j < files ==> removed@[j] == tally_of(
                        self.lines@,
                        Origin::Deletion,
                        j,
                        i as nat,
                    ),
            decreases n - i,
        {
            let line = &self.lines[i];
            proof {
                lemma_tally_bound(self.lines@, Origin::Addition, i as nat);
                lemma_tally_bound(self.lines@, Origin::Deletion, i as nat);
                lemma_tally_of_bound(self.lines@, Origin::Addition, line.file as int, i as nat);
                lemma_tally_of_bound(self.lines@, Origin::Deletion, line.file as int, i as nat);
            }
            match line.origin {
                Origin::Addition => {
                    insertions += 1;
                    if line.file < files {
                        let count = added[line.file];
                        added.set(line.file, count + 1);
                    }
                },
                Origin::Deletion => {
                    deletions += 1;
                    if line.file < files {
                        let count = removed[line.file];
                        removed.set(line.file, count + 1);
                    }
                },
                _ => {},
            }
            i += 1;
        }
        let mut out: Vec<FileStats> = Vec::new();
        let mut k: usize = 0;
        while k < files
            invariant
                n == self.lines@.len(),
                files == self.paths@.len(),
                k <= files,
                added@.len() == files,
                removed@.len() == files,
                out@.len() == k,
                forall|j: int|
                    0 <= j < files ==> added@[j] == tally_of(
                        self.lines@,
                        Origin::Addition,
                        j,
                        n as nat,
                    ),
                forall|j: int|
                    0 <= j < files ==> removed@[j] == tally_of(
                        self.lines@,
                        Origin::Deletion,
                        j,
                        n as nat,
                    ),
                forall|j: int|
                    0 <= j < k ==> {
                        &&& (#[trigger] out@[j]).path@ == self.paths@[j]@
                        &&& out@[j].insertions == tally_of(
                            self.lines@,
                            Origin::Addition,
                            j,
                            n as nat,
                        )
                        &&& out@[j].deletions == tally_of(
                            self.lines@,
                            Origin::Deletion,
                            j,
                            n as nat,
                        )
                    },
            decreases files - k,
        {
            out.push(
                FileStats {
                    path: self.paths[k].clone(),
                    insertions: added[k],
                    deletions: removed[k],
                },
            );
            k += 1;
        }
        DiffStats { insertions, deletions, files: out }
    }

    /// A reader that stands before the first line of the patch.
    pub fn patch_lines(&self) -> (r: PatchLines<'_>)
        ensures
            r.source() == self,
            r.position() == 0,
    {
        PatchLines { diff: self, next: 0 }
    }
}

impl<'a> PatchLines<'a> {
    /// The diff that is read.
    pub closed spec fn source(&self) -> &Diff {
        self.diff
    }

    /// How many lines have been handed out.
    pub closed spec fn position(&self) -> nat {
        self.next as nat
    }

    /// The text of the next line, or nothing once every line was handed out.
    /// The reader only moves forward.
    pub fn next_line(&mut self) -> (r: Option<Vec<u8>>)
        ensures
            final(self).source() == old(self).source(),
            r is Some <==> old(self).position() < old(self).source().lines@.len(),
            r is None ==> final(self).position() == old(self).position(),
            r matches Some(text) ==> {
                &&& final(self).position() == old(self).position() + 1
                &&& text@ == line_text(old(self).source().lines@[old(self).position() as int])
            },
    {
        if self.next < self.diff.lines.len() {
            let mut text: Vec<u8> = Vec::new();
            emit_line(&mut text, &self.diff.lines[self.next]);
            self.next += 1;
            assert(text@ =~= line_text(old(self).diff.lines@[old(self).next as int]));
            Some(text)
        } else {
            None
        }
    }
}

impl Default for DiffOpts {
    /// The index against the working tree, every file as text, white space
    /// ignored, untracked files shown with their content, ignored files not.
    fn default() -> (o: DiffOpts)
        ensures
            o.ty is Unstaged,
            o.force_text,
            o.ignore_whitespace,
            !o.ignore_whitespace_change,
            !o.include_ignored,
            o.include_untracked,
            o.recurse_untracked_dirs,
            o.show_untracked_content,
            o.pathspec is None,
    {
        DiffOpts {
            ty: DiffType::Unstaged,
            force_text: true,
            ignore_whitespace: true,
            ignore_whitespace_change: false,
            include_ignored: false,
            include_untracked: true,
            recurse_untracked_dirs: true,
            show_untracked_content: true,
            pathspec: None,
        }
    }
}

impl DiffOpts {
    /// Everything but the kind of comparison and the pathspec is the same.
    pub open spec fn same_flags(&self, other: &DiffOpts) -> bool {
        &&& self.force_text == other.force_text
        &&& self.ignore_whitespace == other.ignore_whitespace
        &&& self.ignore_whitespace_change == other.ignore_whitespace_change
        &&& self.include_ignored == other.include_ignored
        &&& self.include_untracked == other.include_untracked
        &&& self.recurse_untracked_dirs == other.recurse_untracked_dirs
        &&& self.show_untracked_content == other.show_untracked_content
    }

    /// Compares the tree of this id with the working tree.
    pub fn with_all(self, tree: Oid) -> (o: DiffOpts)
        ensures
            o.ty == DiffType::All(tree),
            o.pathspec == self.pathspec,
            o.same_flags(&self),
    {
        let mut o = self;
        o.ty = DiffType::All(tree);
        o
    }

    /// Compares the tree of this id with the index.
    pub fn with_staged(self, tree: Oid) -> (o: DiffOpts)
        ensures
            o.ty == DiffType::Staged(tree),
            o.pathspec == self.pathspec,
            o.same_flags(&self),
    {
        let mut o = self;
        o.ty = DiffType::Staged(tree);
        o
    }

    /// Compares only the paths that match `pathspec`.
    pub fn with_pathspec(self, pathspec: &str) -> (o: DiffOpts)
        ensures
            o.ty == self.ty,
            o.pathspec matches Some(p) && p@ == pathspec@,
            o.same_flags(&self),
    {
        let mut o = self;
        o.pathspec = Some(pathspec.to_string());
        o
    }
}

} // verus!
