//! What is decided while talking to a remote: whether a push may go ahead,
//! which ref updates were reported, and what a line of the remote's side
//! channel means.

use vstd::prelude::*;
use vstd::utf8::{decode_utf8, valid_utf8};
use crate::oid::Oid;
use crate::text::{parse_usize, spec_parse_usize, utf8_str};

verus! {

/// One ref update that the remote reports or is asked for.
#[derive(Debug)]
pub struct Update {
    pub src: Oid,
    pub dst: Oid,
    pub refname: String,
}

#[derive(Clone, Copy, Debug, PartialEq, Eq, Structural)]
pub enum SidebandOp {
    Counting,
    Compressing,
    Resolving,
}

#[derive(Clone, Copy, Debug, PartialEq, Eq, Structural)]
pub enum ProgressEvent {
    Packing(usize, usize),
    Transfer(usize, usize),
    PushTransfer(usize, usize, usize),
    Sideband(SidebandOp, usize, usize),
}

/// The push would overwrite a remote tip other than the expected one.
#[derive(Clone, Copy, Debug, PartialEq, Eq, Structural)]
pub struct Rejected;

/// What a transfer is set up with and what it collects.
#[derive(Debug)]
pub struct RemoteOpts {
    /// Lines of the side channel that report no progress.
    pub stdout: Vec<u8>,
    /// The tip that the remote ref is believed to have.
    pub compare: Option<Oid>,
    pub updates: Vec<Update>,
    /// Whether progress is reported.
    pub progress: bool,
}

/// What a transfer collected.
#[derive(Debug)]
pub struct Reply {
    pub stdout: Vec<u8>,
    pub updates: Vec<Update>,
}

/// The old tips of the updates, each as its bytes.
pub open spec fn sources(updates: Seq<Update>) -> Seq<Seq<u8>> {
    updates.map_values(|u: Update| u.src.bytes@)
}

pub open spec fn zero_bytes(id: Seq<u8>) -> bool {
    forall|i: int| 0 <= i < 20 ==> id[i] == 0
}

/// A push is let through when no tip is expected, when some update starts
/// from the expected tip, or when every update starts from the zero id, that
/// is, creates its ref.
pub open spec fn accepted(expected: Option<Seq<u8>>, srcs: Seq<Seq<u8>>) -> bool {
    match expected {
        None => true,
        Some(tip) => (exists|i: int| 0 <= i < srcs.len() && #[trigger] srcs[i] == tip) || (
        forall|i: int| 0 <= i < srcs.len() ==> zero_bytes(#[trigger] srcs[i])),
    }
}

/// The pattern of a progress line on the side channel: the activity, the
/// count so far and the total.
pub const SIDEBAND_PATTERN: &'static str =
    "(Counting|Compressing|Resolving) [A-Za-z]+:[ ]+[0-9]+% \\(([0-9]+)\\/([0-9]+)\\)";

/// What the leftmost match of a pattern in a text captures: for each group of
/// the pattern, the whole match first, the text it matched, if it took part.
/// Nothing when the text holds no match or the pattern is not a regular
/// expression.
pub uninterp spec fn regex_captures(pattern: Seq<char>, haystack: Seq<char>) -> Option<
    Seq<Option<Seq<char>>>,
>;

/// The captured texts as plain values.
pub open spec fn group_views(groups: Seq<Option<String>>) -> Seq<Option<Seq<char>>> {
    groups.map_values(
        |g: Option<String>|
            match g {
                Some(s) => Some(s@),
                None => None,
            },
    )
}

/// Compiles the pattern with `regex::Regex::new` and searches the text with
/// `Regex::captures`; the groups of the leftmost match come back in the order
/// of the pattern.
#[verifier::external_body]
fn captures(pattern: &str, haystack: &str) -> (r: Option<Vec<Option<String>>>)
    ensures
        match r {
            Some(groups) => regex_captures(pattern@, haystack@) == Some(group_views(groups@)),
            None => regex_captures(pattern@, haystack@) is None,
        },
{
    match regex::Regex::new(pattern) {
        Ok(re) => re.captures(haystack).map(
            |found| found.iter().map(|group| group.map(|m| m.as_str().to_string())).collect(),
        ),
        Err(_) => None,
    }
}

/// The number that a captured count spells, or zero where it spells none.
pub open spec fn count_or_zero(s: Seq<char>) -> usize {
    match spec_parse_usize(s) {
        Some(n) => n,
        None => 0,
    }
}

/// Activity, count and total of a progress line, from the groups that the
/// pattern captured: all three must have taken part in the match.
pub open spec fn spec_progress_of(groups: Seq<Option<Seq<char>>>) -> Option<
    (Seq<char>, usize, usize),
> {
    if groups.len() >= 4 && groups[1] is Some && groups[2] is Some && groups[3] is Some {
        Some((groups[1]->0, count_or_zero(groups[2]->0), count_or_zero(groups[3]->0)))
    } else {
        None
    }
}

/// What a line of the side channel reports, if it is a progress line.
pub open spec fn spec_parse_sideband(line: Seq<u8>) -> Option<(Seq<char>, usize, usize)> {
    if !valid_utf8(line) {
        None
    } else {
        match regex_captures(SIDEBAND_PATTERN@, decode_utf8(line)) {
            None => None,
            Some(groups) => spec_progress_of(groups),
        }
    }
}

/// The activity that a progress line names.
pub open spec fn spec_sideband_op(kind: Seq<char>) -> Option<SidebandOp> {
    if kind == "Counting"@ {
        Some(SidebandOp::Counting)
    } else if kind == "Compressing"@ {
        Some(SidebandOp::Compressing)
    } else if kind == "Resolving"@ {
        Some(SidebandOp::Resolving)
    } else {
        None
    }
}

/// Activity, count and total from the groups of a matched progress line.
pub fn progress_of(groups: &Vec<Option<String>>) -> (r: Option<(String, usize, usize)>)
    ensures
        match r {
            Some((kind, current, total)) => spec_progress_of(group_views(groups@)) == Some(
                (kind@, current, total),
            ),
            None => spec_progress_of(group_views(groups@)) is None,
        },
{
    if groups.len() < 4 {
        return None;
    }
    match (&groups[1], &groups[2], &groups[3]) {
        (Some(kind), Some(current), Some(total)) => {
            let current = match parse_usize(current.as_str()) {
                Some(n) => n,
                None => 0,
            };
            let total = match parse_usize(total.as_str()) {
                Some(n) => n,
                None => 0,
            };
            Some((kind.clone(), current, total))
        },
        _ => None,
    }
}

/// Reads a line of the side channel as a progress report.
pub fn parse_sideband_progress(line: &[u8]) -> (r: Option<(String, usize, usize)>)
    ensures
        match r {
            Some((kind, current, total)) => spec_parse_sideband(line@) == Some(
                (kind@, current, total),
            ),
            None => spec_parse_sideband(line@) is None,
        },
{
    match utf8_str(line) {
        None => None,
        Some(text) => match captures(SIDEBAND_PATTERN, text) {
            None => None,
            Some(groups) => progress_of(&groups),
        },
    }
}

/// The activity that the first word of a progress line names.
pub fn sideband_op(kind: &str) -> (r: Option<SidebandOp>)
    ensures
        r == spec_sideband_op(kind@),
{
    let word = crate::text::chars_of(kind);
    let n = word.len();
    assert(word@.subrange(0, n as int) =~= kind@);
    if crate::text::range_is(&word, 0, n, "Counting") {
        Some(SidebandOp::Counting)
    } else if crate::text::range_is(&word, 0, n, "Compressing") {
        Some(SidebandOp::Compressing)
    } else if crate::text::range_is(&word, 0, n, "Resolving") {
        Some(SidebandOp::Resolving)
    } else {
        None
    }
}

/// The push guard: with an expected tip, a push goes ahead only if one of the
/// updates starts from that tip, or all of them create their ref.
pub fn check(expected: Option<Oid>, updates: &Vec<Update>) -> (r: Result<(), Rejected>)
    ensures
        r is Ok <==> accepted(
            match expected {
                Some(tip) => Some(tip.bytes@),
                None => None,
            },
            sources(updates@),
        ),
{
    let tip = match expected {
        None => {
            return Ok(());
        },
        Some(tip) => tip,
    };
    let ghost srcs = sources(updates@);
    let mut all_zero = true;
    let mut i: usize = 0;
    while i < updates.len()
        invariant
            i <= updates@.len(),
            expected == Some(tip),
            srcs == sources(updates@),
            forall|j: int| 0 <= j < i ==> #[trigger] srcs[j] != tip.bytes@,
            all_zero <==> forall|j: int| 0 <= j < i ==> zero_bytes(#[trigger] srcs[j]),
        decreases updates@.len() - i,
    {
        if updates[i].src.same(&tip) {
            assert(0 <= i < srcs.len() && srcs[i as int] == tip.bytes@);
            assert(accepted(Some(tip.bytes@), srcs));
            return Ok(());
        }
        if !updates[i].src.is_zero() {
            assert(!zero_bytes(srcs[i as int]));
            all_zero = false;
        }
        i += 1;
    }
    if all_zero {
        Ok(())
    } else {
        Err(Rejected)
    }
}

/// A single update is let through exactly when it starts from the expected
/// tip or creates its ref.
pub proof fn lemma_single_update(tip: Seq<u8>, src: Seq<u8>)
    ensures
        accepted(Some(tip), seq![src]) <==> (src == tip || zero_bytes(src)),
{
    let srcs = seq![src];
    assert(srcs[0] == src);
    if src == tip {
        assert(srcs[0] == tip);
    }
}

impl Rejected {
    /// What the remote is told.
    pub fn message(&self) -> (s: String)
        ensures
            s@ == "update rejected (outdated)"@,
    {
        "update rejected (outdated)".to_string()
    }
}

impl Default for RemoteOpts {
    fn default() -> (r: RemoteOpts)
        ensures
            r.stdout@.len() == 0,
            r.compare is None,
            r.updates@.len() == 0,
            !r.progress,
    {
        RemoteOpts { stdout: Vec::new(), compare: None, updates: Vec::new(), progress: false }
    }
}

impl RemoteOpts {
    /// Asks for progress reports.
    pub fn with_progress(self) -> (r: RemoteOpts)
        ensures
            r.progress,
            r.stdout == self.stdout,
            r.compare == self.compare,
            r.updates == self.updates,
    {
        RemoteOpts {
            stdout: self.stdout,
            compare: self.compare,
            updates: self.updates,
            progress: true,
        }
    }

    /// Sets the tip that the remote ref is believed to have.
    pub fn with_compare(self, compare: Oid) -> (r: RemoteOpts)
        ensures
            r.compare == Some(compare),
            r.stdout == self.stdout,
            r.updates == self.updates,
            r.progress == self.progress,
    {
        RemoteOpts {
            stdout: self.stdout,
            compare: Some(compare),
            updates: self.updates,
            progress: self.progress,
        }
    }

    /// Whether the push that the remote describes by `updates` may go ahead.
    pub fn push_negotiation(&self, updates: &Vec<Update>) -> (r: Result<(), Rejected>)
        ensures
            r is Ok <==> accepted(
                match self.compare {
                    Some(tip) => Some(tip.bytes@),
                    None => None,
                },
                sources(updates@),
            ),
    {
        check(self.compare, updates)
    }

    /// Records that a ref moved from `src` to `dst`. The transfer goes on.
    pub fn update_tips(&mut self, name: &str, src: Oid, dst: Oid) -> (go_on: bool)
        ensures
            go_on,
            final(self).updates@.len() == old(self).updates@.len() + 1,
            final(self).updates@.drop_last() == old(self).updates@,
            final(self).updates@.last().src == src,
            final(self).updates@.last().dst == dst,
            final(self).updates@.last().refname@ == name@,
            final(self).stdout == old(self).stdout,
            final(self).compare == old(self).compare,
            final(self).progress == old(self).progress,
    {
        let refname = name.to_string();
        self.updates.push(Update { src, dst, refname });
        assert(self.updates@.drop_last() =~= old(self).updates@);
        true
    }

    /// Takes a line of the side channel. A progress line of a known activity
    /// gives the event to report. A progress line of another activity gives
    /// nothing. Any other line is kept with the output of the remote.
    /// Without progress reports nothing is read and nothing kept.
    pub fn sideband_progress(&mut self, line: &[u8]) -> (r: Option<ProgressEvent>)
        ensures
            final(self).compare == old(self).compare,
            final(self).updates == old(self).updates,
            final(self).progress == old(self).progress,
            !old(self).progress ==> r is None && final(self).stdout@ == old(self).stdout@,
            old(self).progress ==> match spec_parse_sideband(line@) {
                Some((kind, current, total)) => final(self).stdout@ == old(self).stdout@ && r
                    == match spec_sideband_op(kind) {
                    Some(op) => Some(ProgressEvent::Sideband(op, current, total)),
                    None => None,
                },
                None => r is None && final(self).stdout@ == old(self).stdout@ + line@,
            },
    {
        if !self.progress {
            return None;
        }
        match parse_sideband_progress(line) {
            Some((kind, current, total)) => match sideband_op(kind.as_str()) {
                Some(op) => Some(ProgressEvent::Sideband(op, current, total)),
                None => None,
            },
            None => {
                self.stdout.extend_from_slice(line);
                None
            },
        }
    }

    /// What the transfer collected.
    pub fn into_reply(self) -> (r: Reply)
        ensures
            r.stdout == self.stdout,
            r.updates == self.updates,
    {
        Reply { stdout: self.stdout, updates: self.updates }
    }
}

} // verus!
