//! What the diff command decides.

use vstd::prelude::*;
use crate::diff::{DiffOpts, DiffType};
use crate::oid::Oid;

verus! {

/// What is compared. A filter that names a commit compares the tree of
/// that commit with the working tree. Else the whole working tree is
/// compared with the tree of the head where all changes are asked for, the
/// index with that tree where the staged ones are, and the working tree
/// with the index otherwise; a filter then narrows the paths.
pub open spec fn spec_diff_type(
    staged: bool,
    all: bool,
    head_tree: Oid,
    named_tree: Option<Oid>,
) -> DiffType {
    match named_tree {
        Some(tree) => DiffType::All(tree),
        None => if all {
            DiffType::All(head_tree)
        } else if staged {
            DiffType::Staged(head_tree)
        } else {
            DiffType::Unstaged
        },
    }
}

/// The options of the comparison that the command line asks for.
/// `named_tree` is the tree of the commit that the filter names, where it
/// names one.
pub fn diff_opts(
    staged: bool,
    all: bool,
    head_tree: Oid,
    filter: Option<&str>,
    named_tree: Option<Oid>,
) -> (o: DiffOpts)
    ensures
        o.ty == spec_diff_type(
            staged,
            all,
            head_tree,
            if filter is Some {
                named_tree
            } else {
                None
            },
        ),
        match o.pathspec {
            Some(p) => filter matches Some(f) && named_tree is None && p@ == f@,
            None => filter is None || named_tree is Some,
        },
        o.force_text,
        o.ignore_whitespace,
        !o.ignore_whitespace_change,
        !o.include_ignored,
        o.include_untracked,
        o.recurse_untracked_dirs,
        o.show_untracked_content,
{
    let mut opts = DiffOpts::default();
    if staged {
        opts = opts.with_staged(head_tree);
    }
    if all {
        opts = opts.with_all(head_tree);
    }
    match filter {
        Some(f) => match named_tree {
            Some(tree) => opts.with_all(tree),
            None => opts.with_pathspec(f),
        },
        None => opts,
    }
}

/// The prompt of the pager: what is compared, the head where nothing is
/// named.
pub fn prompt(filter: Option<&str>) -> (s: String)
    ensures
        s@ == "diff "@ + (match filter {
            Some(f) => f@,
            None => "HEAD"@,
        }) + ", q to quit"@,
{
    let what = match filter {
        Some(f) => f,
        None => "HEAD",
    };
    "diff ".to_string().concat(what).concat(", q to quit")
}

} // verus!
