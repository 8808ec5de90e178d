//! The steps that an interrupted rebase still has to apply.
//!
//! The steps are kept in a text file, one per line. A line that is empty or
//! starts with `#` or a space holds no step. Every other line is split at
//! white space into a word that names the operation, an object id, and the
//! message, which runs to the end of the line and keeps the white space
//! inside it. The operation `exec` has no object id: what follows the word
//! and the white space after it is the command, and the step names the zero
//! id. One malformed line fails the whole file.

use vstd::prelude::*;
use crate::oid::{hex_bytes, is_hex_id, Oid};
use crate::text::{
    chars_of, find_char, find_space, lemma_index_of, line_at, next_line, range_is, skip_spaces,
    string_of, trim_start, word_end,
};

verus! {

#[derive(Clone, Copy, Debug, PartialEq, Eq, Structural)]
pub enum RebaseOperationType {
    Pick,
    Reword,
    Edit,
    Squash,
    Fixup,
    Exec,
}

#[derive(Clone, Copy, Debug, PartialEq, Eq, Structural)]
pub enum RebaseError {
    /// A line has fewer components than its operation takes.
    Components,
    /// The first word of a line names no operation.
    Operation,
    /// The second component of a line is no object id.
    ObjectId,
}

/// One step of a rebase.
#[derive(Debug)]
pub struct RebaseOp {
    pub oid: Oid,
    pub ty: RebaseOperationType,
    pub message: String,
}

/// What a step holds, as plain values.
pub struct OpModel {
    pub oid: Seq<u8>,
    pub ty: RebaseOperationType,
    pub message: Seq<char>,
}

impl View for RebaseOp {
    type V = OpModel;

    open spec fn view(&self) -> OpModel {
        OpModel { oid: self.oid.bytes@, ty: self.ty, message: self.message@ }
    }
}

/// The steps left to apply, in the order of the file.
#[derive(Debug)]
pub struct Rebase {
    pub operations: Vec<RebaseOp>,
}

/// The operation that a word names, by its full name or its first letter.
pub open spec fn verb_kind(word: Seq<char>) -> Option<RebaseOperationType> {
    if word == "p"@ || word == "pick"@ {
        Some(RebaseOperationType::Pick)
    } else if word == "r"@ || word == "reword"@ {
        Some(RebaseOperationType::Reword)
    } else if word == "e"@ || word == "edit"@ {
        Some(RebaseOperationType::Edit)
    } else if word == "s"@ || word == "squash"@ {
        Some(RebaseOperationType::Squash)
    } else if word == "f"@ || word == "fixup"@ {
        Some(RebaseOperationType::Fixup)
    } else if word == "x"@ || word == "exec"@ {
        Some(RebaseOperationType::Exec)
    } else {
        None
    }
}

/// The step that one line spells, or what is wrong with the line. The
/// word runs to the first white space. The id is the next run of characters
/// that are no white space. The message is all that follows the white space
/// after the id. For `exec` the command is all that follows the white space
/// after the word. A line that lacks its second or third part has too few
/// components.
pub open spec fn spec_parse_line(line: Seq<char>) -> Result<OpModel, RebaseError> {
    let n = line.len() as int;
    let word = word_end(line, 0);
    let kind = verb_kind(line.subrange(0, word));
    let id = trim_start(line, word, n);
    let id_end = word_end(line, id);
    let message = trim_start(line, id_end, n);
    if id >= n {
        Err(RebaseError::Components)
    } else if kind == Some(RebaseOperationType::Exec) {
        Ok(
            OpModel {
                oid: Seq::new(20, |i: int| 0u8),
                ty: RebaseOperationType::Exec,
                message: line.subrange(id, n),
            },
        )
    } else if message >= n {
        Err(RebaseError::Components)
    } else {
        match kind {
            None => Err(RebaseError::Operation),
            Some(ty) => if is_hex_id(line.subrange(id, id_end)) {
                Ok(OpModel { oid: hex_bytes(line.subrange(id, id_end)), ty, message: line.subrange(
                    message,
                    n,
                ) })
            } else {
                Err(RebaseError::ObjectId)
            },
        }
    }
}

/// A line that holds no step.
pub open spec fn skipped(line: Seq<char>) -> bool {
    line.len() == 0 || line[0] == '#' || line[0] == ' '
}

/// The steps that the text holds from `start` on, or the fault of the first
/// malformed line.
pub open spec fn spec_read_from(s: Seq<char>, start: int) -> Result<Seq<OpModel>, RebaseError>
    decreases s.len() - start,
{
    if start < 0 || start >= s.len() {
        Ok(Seq::empty())
    } else {
        proof {
            lemma_index_of(s, '\n', start);
        }
        let line = line_at(s, start);
        let rest = spec_read_from(s, next_line(s, start));
        if skipped(line) {
            rest
        } else {
            match spec_parse_line(line) {
                Err(e) => Err(e),
                Ok(op) => match rest {
                    Err(e) => Err(e),
                    Ok(ops) => Ok(seq![op] + ops),
                },
            }
        }
    }
}

/// The steps that a whole text holds.
pub open spec fn spec_read(s: Seq<char>) -> Result<Seq<OpModel>, RebaseError> {
    spec_read_from(s, 0)
}

/// The steps of `ops`, each as plain values.
pub open spec fn models(ops: Seq<RebaseOp>) -> Seq<OpModel> {
    ops.map_values(|op: RebaseOp| op@)
}

/// `done` followed by what `rest` gives.
pub open spec fn prepend(done: Seq<OpModel>, rest: Result<Seq<OpModel>, RebaseError>) -> Result<
    Seq<OpModel>,
    RebaseError,
> {
    match rest {
        Err(e) => Err(e),
        Ok(ops) => Ok(done + ops),
    }
}

fn kind_of(line: &Vec<char>, to: usize) -> (r: Option<RebaseOperationType>)
    requires
        to <= line@.len(),
    ensures
        r == verb_kind(line@.subrange(0, to as int)),
{
    if range_is(line, 0, to, "p") || range_is(line, 0, to, "pick") {
        Some(RebaseOperationType::Pick)
    } else if range_is(line, 0, to, "r") || range_is(line, 0, to, "reword") {
        Some(RebaseOperationType::Reword)
    } else if range_is(line, 0, to, "e") || range_is(line, 0, to, "edit") {
        Some(RebaseOperationType::Edit)
    } else if range_is(line, 0, to, "s") || range_is(line, 0, to, "squash") {
        Some(RebaseOperationType::Squash)
    } else if range_is(line, 0, to, "f") || range_is(line, 0, to, "fixup") {
        Some(RebaseOperationType::Fixup)
    } else if range_is(line, 0, to, "x") || range_is(line, 0, to, "exec") {
        Some(RebaseOperationType::Exec)
    } else {
        None
    }
}

/// Reads the step that `line[from..to]` spells.
fn parse_range(text: &Vec<char>, from: usize, to: usize) -> (r: Result<RebaseOp, RebaseError>)
    requires
        from <= to <= text@.len(),
    ensures
        match r {
            Ok(op) => spec_parse_line(text@.subrange(from as int, to as int)) == Ok::<
                OpModel,
                RebaseError,
            >(op@),
            Err(e) => spec_parse_line(text@.subrange(from as int, to as int)) == Err::<
                OpModel,
                RebaseError,
            >(e),
        },
{
    let line = crate::text::slice_of(text, from, to);
    let n = line.len();
    let word = find_space(&line, 0);
    let kind = kind_of(&line, word);
    let id = skip_spaces(&line, word);
    if id >= n {
        return Err(RebaseError::Components);
    }
    let is_exec = match kind {
        Some(RebaseOperationType::Exec) => true,
        _ => false,
    };
    if is_exec {
        let zero = Oid::zero();
        let message = string_of(&line, id, n);
        return Ok(RebaseOp { oid: zero, ty: RebaseOperationType::Exec, message });
    }
    let id_end = find_space(&line, id);
    let message = skip_spaces(&line, id_end);
    if message >= n {
        return Err(RebaseError::Components);
    }
    let ty = match kind {
        Some(ty) => ty,
        None => {
            return Err(RebaseError::Operation);
        },
    };
    let token = string_of(&line, id, id_end);
    match Oid::from_hex(token.as_str()) {
        Some(oid) => {
            let message = string_of(&line, message, n);
            Ok(RebaseOp { oid, ty, message })
        },
        None => Err(RebaseError::ObjectId),
    }
}

impl RebaseError {
    /// What went wrong, in words.
    pub fn message(&self) -> (s: String)
        ensures
            s@ == match *self {
                RebaseError::Components => "invalid rebase todo: expected 3 components"@,
                RebaseError::Operation => "invalid rebase operation type"@,
                RebaseError::ObjectId => "invalid object id"@,
            },
    {
        match self {
            RebaseError::Components => "invalid rebase todo: expected 3 components".to_string(),
            RebaseError::Operation => "invalid rebase operation type".to_string(),
            RebaseError::ObjectId => "invalid object id".to_string(),
        }
    }
}

/// The full name of an operation.
pub open spec fn kind_name(ty: RebaseOperationType) -> Seq<char> {
    match ty {
        RebaseOperationType::Pick => "pick"@,
        RebaseOperationType::Reword => "reword"@,
        RebaseOperationType::Edit => "edit"@,
        RebaseOperationType::Squash => "squash"@,
        RebaseOperationType::Fixup => "fixup"@,
        RebaseOperationType::Exec => "exec"@,
    }
}

impl RebaseOperationType {
    /// The full name of the operation.
    pub fn name(&self) -> (s: &'static str)
        ensures
            s@ == kind_name(*self),
    {
        match self {
            RebaseOperationType::Pick => "pick",
            RebaseOperationType::Reword => "reword",
            RebaseOperationType::Edit => "edit",
            RebaseOperationType::Squash => "squash",
            RebaseOperationType::Fixup => "fixup",
            RebaseOperationType::Exec => "exec",
        }
    }
}

impl RebaseOp {
    /// Reads one step from its line.
    pub fn from_str(s: &str) -> (r: Result<RebaseOp, RebaseError>)
        ensures
            match r {
                Ok(op) => spec_parse_line(s@) == Ok::<OpModel, RebaseError>(op@),
                Err(e) => spec_parse_line(s@) == Err::<OpModel, RebaseError>(e),
            },
    {
        let line = chars_of(s);
        assert(line@.subrange(0, line@.len() as int) =~= s@);
        parse_range(&line, 0, line.len())
    }
}

impl Rebase {
    /// Reads the steps from the text of the file that holds them. The result
    /// is every step, in the order of the lines, or the fault of the first
    /// line that is malformed.
    pub fn read(content: &str) -> (r: Result<Rebase, RebaseError>)
        ensures
            match r {
                Ok(rebase) => spec_read(content@) == Ok::<Seq<OpModel>, RebaseError>(
                    models(rebase.operations@),
                ),
                Err(e) => spec_read(content@) == Err::<Seq<OpModel>, RebaseError>(e),
            },
    {
        let text = chars_of(content);
        let n = text.len();
        let mut operations: Vec<RebaseOp> = Vec::new();
        let mut start: usize = 0;
        assert(models(operations@) =~= Seq::<OpModel>::empty());
        assert(spec_read_from(text@, 0) == prepend(
            models(operations@),
            spec_read_from(text@, 0),
        )) by {
            match spec_read_from(text@, 0) {
                Ok(ops) => {
                    assert(Seq::<OpModel>::empty() + ops =~= ops);
                },
                Err(_) => {},
            }
        }
        while start < n
            invariant
                text@ == content@,
                n == text@.len(),
                start <= n,
                spec_read_from(text@, 0) == prepend(
                    models(operations@),
                    spec_read_from(text@, start as int),
                ),
            decreases n - start,
        {
            let end = find_char(&text, '\n', start);
            let next = if end < n {
                end + 1
            } else {
                end
            };
            let stop = if end < n && start < end && text[end - 1] == '\r' {
                end - 1
            } else {
                end
            };
            assert(text@.subrange(start as int, stop as int) == line_at(text@, start as int));
            assert(next == next_line(text@, start as int));
            let blank = stop == start || text[start] == '#' || text[start] == ' ';
            assert(blank == skipped(line_at(text@, start as int)));
            if !blank {
                let ghost done = models(operations@);
                match parse_range(&text, start, stop) {
                    Err(e) => {
                        return Err(e);
                    },
                    Ok(op) => {
                        operations.push(op);
                        proof {
                            assert(models(operations@) =~= done.push(op@));
                            match spec_read_from(text@, next as int) {
                                Ok(ops) => {
                                    assert(done + (seq![op@] + ops) =~= done.push(op@) + ops);
                                },
                                Err(_) => {},
                            }
                        }
                    },
                }
            }
            start = next;
        }
        proof {
            assert(models(operations@) + Seq::<OpModel>::empty() =~= models(operations@));
        }
        Ok(Rebase { operations })
    }
}

} // verus!
