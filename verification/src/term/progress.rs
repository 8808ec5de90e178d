//! A stack of progress bars and the cursor moves that redraw it.
//!
//! The bars hold what is known of each activity. How a bar looks as a
//! line of text is left to the caller; from the lines of one drawing and
//! the next this module works out what has to be written to the terminal.

use vstd::prelude::*;
use crate::remote::{ProgressEvent, SidebandOp};
use crate::text::{decimal, decimal_string};

verus! {

/// One bar: an activity with how far it has come.
#[derive(Debug)]
pub struct Bar {
    pub name: String,
    pub current: usize,
    pub total: usize,
    pub message: Option<String>,
}

/// The bars, and the lines that were drawn last.
#[derive(Debug)]
pub struct ProgressBar {
    pub width: usize,
    pub bars: Vec<Bar>,
    pub previous_state: Option<Vec<String>>,
}

/// One step of writing to the terminal.
#[derive(Debug)]
pub enum TermOp {
    /// To the start of the line.
    MoveBegin,
    MoveUp(usize),
    MoveDown(usize),
    MoveRight(usize),
    /// Deletes the character before the cursor.
    DeleteChar,
    /// Erases from the cursor to the end of the line.
    EraseToEnd,
    /// Erases the whole line.
    ClearLine,
    Print(String),
    /// Writes the text and ends the line.
    PrintLine(String),
    PrintChar(char),
    Flush,
}

/// A step as plain values.
pub enum OpModel {
    MoveBegin,
    MoveUp(usize),
    MoveDown(usize),
    MoveRight(usize),
    DeleteChar,
    EraseToEnd,
    ClearLine,
    Print(Seq<char>),
    PrintLine(Seq<char>),
    PrintChar(char),
    Flush,
}

impl View for TermOp {
    type V = OpModel;

    open spec fn view(&self) -> OpModel {
        match *self {
            TermOp::MoveBegin => OpModel::MoveBegin,
            TermOp::MoveUp(n) => OpModel::MoveUp(n),
            TermOp::MoveDown(n) => OpModel::MoveDown(n),
            TermOp::MoveRight(n) => OpModel::MoveRight(n),
            TermOp::DeleteChar => OpModel::DeleteChar,
            TermOp::EraseToEnd => OpModel::EraseToEnd,
            TermOp::ClearLine => OpModel::ClearLine,
            TermOp::Print(text) => OpModel::Print(text@),
            TermOp::PrintLine(text) => OpModel::PrintLine(text@),
            TermOp::PrintChar(c) => OpModel::PrintChar(c),
            TermOp::Flush => OpModel::Flush,
        }
    }
}

/// The steps of `ops`, each as plain values.
pub open spec fn op_models(ops: Seq<TermOp>) -> Seq<OpModel> {
    ops.map_values(|op: TermOp| op@)
}

/// The texts of `lines`.
pub open spec fn texts(lines: Seq<String>) -> Seq<Seq<char>> {
    lines.map_values(|line: String| line@)
}

/// The characters of a text that take a place on the screen: the text
/// without its escape sequences.
pub uninterp spec fn visible(s: Seq<char>) -> Seq<char>;

/// Calls `strip_ansi_escapes::strip` on the bytes of the text and reads
/// what is left as characters.
#[verifier::external_body]
fn decode_chars(s: &str) -> (r: Vec<char>)
    ensures
        r@ == visible(s@),
{
    String::from_utf8_lossy(&strip_ansi_escapes::strip(s.as_bytes())).chars().collect()
}

/// The steps that turn the first `n` places of a line that shows
/// `current` into those of `new`: each place that differs is gone to and
/// written again. A place past the end of `current` counts as a blank.
pub open spec fn char_ops(current: Seq<char>, new: Seq<char>, n: nat) -> Seq<OpModel>
    decreases n,
{
    if n == 0 {
        Seq::empty()
    } else {
        let i = n - 1;
        let shown = if i < current.len() {
            current[i]
        } else {
            ' '
        };
        let before = char_ops(current, new, i as nat);
        if shown == new[i] {
            before
        } else {
            before + seq![OpModel::MoveBegin, OpModel::MoveRight((i + 1) as usize)] + (if i
                <= current.len() {
                seq![OpModel::DeleteChar]
            } else {
                Seq::empty()
            }) + seq![OpModel::PrintChar(new[i])]
        }
    }
}

/// The steps that redraw one line: up to it, and then nothing where the
/// line has not changed, the whole line where it got shorter, and else
/// the places that differ.
pub open spec fn line_ops(current_line: Seq<char>, new_line: Seq<char>) -> Seq<OpModel> {
    seq![OpModel::MoveUp(1)] + (if current_line == new_line {
        Seq::empty()
    } else if visible(new_line).len() < visible(current_line).len() {
        seq![OpModel::MoveBegin, OpModel::Print(new_line), OpModel::EraseToEnd]
    } else {
        char_ops(visible(current_line), visible(new_line), visible(new_line).len())
    })
}

/// The steps that redraw the first `n` lines from the bottom: the `i`th
/// of them is drawn over the `i`th line that is remembered.
pub open spec fn redraw_ops(state: Seq<Seq<char>>, lines: Seq<Seq<char>>, n: nat) -> Seq<OpModel>
    decreases n,
{
    if n == 0 {
        Seq::empty()
    } else {
        redraw_ops(state, lines, (n - 1) as nat) + line_ops(state[n - 1], lines[lines.len() - n])
    }
}

/// The steps that draw the first `n` lines for the first time.
pub open spec fn first_ops(lines: Seq<Seq<char>>, n: nat) -> Seq<OpModel>
    decreases n,
{
    if n == 0 {
        Seq::empty()
    } else {
        first_ops(lines, (n - 1) as nat).push(OpModel::PrintLine(lines[n - 1]))
    }
}

/// The steps that take `n` drawn lines off the screen.
pub open spec fn clear_ops(n: nat) -> Seq<OpModel>
    decreases n,
{
    if n == 0 {
        Seq::empty()
    } else {
        clear_ops((n - 1) as nat) + seq![OpModel::MoveBegin, OpModel::MoveUp(1), OpModel::ClearLine]
    }
}

/// The greatest length in bytes among the names of the first `n` bars.
pub open spec fn name_width(bars: Seq<Bar>, n: nat) -> nat
    decreases n,
{
    if n == 0 {
        0
    } else {
        let rest = name_width(bars, (n - 1) as nat);
        if vstd::utf8::encode_utf8(bars[n - 1].name@).len() > rest {
            vstd::utf8::encode_utf8(bars[n - 1].name@).len()
        } else {
            rest
        }
    }
}

/// What an event says in words, where it says something.
pub open spec fn event_text(event: ProgressEvent) -> Option<Seq<char>> {
    match event {
        ProgressEvent::Transfer(current, total) => Some(
            decimal(current as nat) + "/"@ + decimal(total as nat) + " objects"@,
        ),
        ProgressEvent::PushTransfer(bytes, _, _) => Some(decimal(bytes as nat) + " bytes"@),
        ProgressEvent::Packing(_, _) => None,
        ProgressEvent::Sideband(op, current, total) => Some(
            (match op {
                SidebandOp::Counting => "counting ("@,
                SidebandOp::Compressing => "compressing ("@,
                SidebandOp::Resolving => "resolving ("@,
            }) + decimal(current as nat) + "/"@ + decimal(total as nat) + " objects)"@,
        ),
    }
}

/// The bar that an event belongs to: the remote for what its side channel
/// reports, the transfer, or the packing.
pub open spec fn event_bar(event: ProgressEvent) -> int {
    match event {
        ProgressEvent::Sideband(_, _, _) => 0,
        ProgressEvent::Transfer(_, _) => 1,
        ProgressEvent::PushTransfer(_, _, _) => 1,
        ProgressEvent::Packing(_, _) => 2,
    }
}

/// How far the activity of an event has come: what is done and what is
/// to do.
pub open spec fn event_progress(event: ProgressEvent) -> (usize, usize) {
    match event {
        ProgressEvent::Sideband(_, current, total) => (current, total),
        ProgressEvent::Transfer(current, total) => (current, total),
        ProgressEvent::PushTransfer(_, current, total) => (current, total),
        ProgressEvent::Packing(current, total) => (current, total),
    }
}

/// The lines in the opposite order.
pub open spec fn reversed(lines: Seq<Seq<char>>) -> Seq<Seq<char>> {
    Seq::new(lines.len(), |i: int| lines[lines.len() - 1 - i])
}

/// The steps of a drawing. The first drawing writes every line. A later
/// one goes up line by line from the bottom, redraws what has changed,
/// and comes back down to the start of the line below the bars. Either
/// way the output is flushed at the end.
pub open spec fn draw_ops(previous: Option<Seq<Seq<char>>>, lines: Seq<Seq<char>>) -> Seq<OpModel> {
    match previous {
        Some(state) => redraw_ops(state, lines, lines.len()) + seq![
            OpModel::MoveDown(lines.len() as usize),
            OpModel::MoveBegin,
            OpModel::Flush,
        ],
        None => first_ops(lines, lines.len()).push(OpModel::Flush),
    }
}

fn push_op(ops: &mut Vec<TermOp>, op: TermOp)
    ensures
        op_models(final(ops)@) == op_models(old(ops)@).push(op@),
{
    ops.push(op);
    assert(op_models(ops@) =~= op_models(old(ops)@).push(op@));
}

fn char_at(v: &Vec<char>, i: usize) -> (c: char)
    requires
        i < v@.len(),
    ensures
        c == v@[i as int],
{
    v[i]
}

/// Appends the steps that redraw one line.
fn line_steps(current_line: &String, new_line: &String, ops: &mut Vec<TermOp>)
    ensures
        op_models(final(ops)@) == op_models(old(ops)@) + line_ops(current_line@, new_line@),
{
    let ghost start = op_models(ops@);
    push_op(ops, TermOp::MoveUp(1));
    let ghost up = op_models(ops@);
    assert(up =~= start + seq![OpModel::MoveUp(1)]);
    if *current_line == *new_line {
        assert(up =~= start + line_ops(current_line@, new_line@));
        return ;
    }
    let new = decode_chars(new_line.as_str());
    let current = decode_chars(current_line.as_str());
    if new.len() < current.len() {
        push_op(ops, TermOp::MoveBegin);
        push_op(ops, TermOp::Print(new_line.clone()));
        push_op(ops, TermOp::EraseToEnd);
        assert(op_models(ops@) =~= start + line_ops(current_line@, new_line@));
        return ;
    }
    let mut i: usize = 0;
    assert(op_models(ops@) =~= up + char_ops(current@, new@, 0));
    while i < new.len()
        invariant
            i <= new@.len(),
            op_models(ops@) == up + char_ops(current@, new@, i as nat),
        decreases new@.len() - i,
    {
        let ghost before = op_models(ops@);
        let shown = if i < current.len() {
            char_at(&current, i)
        } else {
            ' '
        };
        let c = char_at(&new, i);
        if shown != c {
            push_op(ops, TermOp::MoveBegin);
            push_op(ops, TermOp::MoveRight(i + 1));
            let ghost moved = op_models(ops@);
            assert(moved =~= before + seq![
                OpModel::MoveBegin,
                OpModel::MoveRight((i + 1) as usize),
            ]);
            if i <= current.len() {
                push_op(ops, TermOp::DeleteChar);
                push_op(ops, TermOp::PrintChar(c));
                assert(op_models(ops@) =~= moved + seq![OpModel::DeleteChar] + seq![
                    OpModel::PrintChar(c),
                ]);
            } else {
                push_op(ops, TermOp::PrintChar(c));
                assert(op_models(ops@) =~= moved + Seq::<OpModel>::empty() + seq![
                    OpModel::PrintChar(c),
                ]);
            }
            assert(op_models(ops@) =~= up + char_ops(current@, new@, (i + 1) as nat));
        }
        i += 1;
    }
    assert(op_models(ops@) =~= start + line_ops(current_line@, new_line@));
}

impl Bar {
    /// A bar that has not started, out of a hundred.
    pub fn new(name: &str) -> (b: Bar)
        ensures
            b.name@ == name@,
            b.current == 0,
            b.total == 100,
            b.message is None,
    {
        Bar { name: name.to_string(), message: None, current: 0, total: 100 }
    }
}

impl ProgressBar {
    /// The remembered lines are as many as the bars.
    pub open spec fn wf(&self) -> bool {
        self.previous_state matches Some(state) ==> state@.len() == self.bars@.len()
    }

    /// One bar for each name, none of them drawn yet.
    pub fn with_multiple(names: Vec<String>) -> (p: ProgressBar)
        ensures
            p.wf(),
            p.width == 24,
            p.previous_state is None,
            p.bars@.len() == names@.len(),
            forall|i: int|
                0 <= i < names@.len() ==> (#[trigger] p.bars@[i]).name@ == names@[i]@
                    && p.bars@[i].current == 0 && p.bars@[i].total == 100 && p.bars@[i].message
                    is None,
    {
        let mut bars: Vec<Bar> = Vec::new();
        let mut i: usize = 0;
        while i < names.len()
            invariant
                i <= names@.len(),
                bars@.len() == i,
                forall|j: int|
                    0 <= j < i ==> (#[trigger] bars@[j]).name@ == names@[j]@ && bars@[j].current
                        == 0 && bars@[j].total == 100 && bars@[j].message is None,
            decreases names@.len() - i,
        {
            bars.push(Bar::new(names[i].as_str()));
            i += 1;
        }
        ProgressBar { previous_state: None, width: 24, bars }
    }

    /// Sets the message of the bar at `idx`; nothing where there is no
    /// such bar.
    pub fn set_message(&mut self, idx: usize, message: &str)
        ensures
            final(self).width == old(self).width,
            final(self).previous_state == old(self).previous_state,
            final(self).bars@.len() == old(self).bars@.len(),
            forall|i: int|
                0 <= i < old(self).bars@.len() && i != idx ==> final(self).bars@[i] == old(
                    self,
                ).bars@[i],
            idx < old(self).bars@.len() ==> {
                &&& final(self).bars@[idx as int].name@ == old(self).bars@[idx as int].name@
                &&& final(self).bars@[idx as int].current == old(self).bars@[idx as int].current
                &&& final(self).bars@[idx as int].total == old(self).bars@[idx as int].total
                &&& final(self).bars@[idx as int].message matches Some(m) && m@ == message@
            },
    {
        if idx < self.bars.len() {
            let bar = Bar {
                name: self.bars[idx].name.clone(),
                current: self.bars[idx].current,
                total: self.bars[idx].total,
                message: Some(message.to_string()),
            };
            self.bars.set(idx, bar);
        }
    }

    /// Sets how far the bar at `idx` has come; nothing where there is no
    /// such bar.
    pub fn set_progress(&mut self, idx: usize, current: usize, total: usize)
        ensures
            final(self).width == old(self).width,
            final(self).previous_state == old(self).previous_state,
            final(self).bars@.len() == old(self).bars@.len(),
            forall|i: int|
                0 <= i < old(self).bars@.len() && i != idx ==> final(self).bars@[i] == old(
                    self,
                ).bars@[i],
            idx < old(self).bars@.len() ==> {
                &&& final(self).bars@[idx as int].name@ == old(self).bars@[idx as int].name@
                &&& final(self).bars@[idx as int].current == current
                &&& final(self).bars@[idx as int].total == total
                &&& final(self).bars@[idx as int].message == old(self).bars@[idx as int].message
            },
    {
        if idx < self.bars.len() {
            let message = match &self.bars[idx].message {
                Some(m) => Some(m.clone()),
                None => None,
            };
            let bar = Bar { name: self.bars[idx].name.clone(), current, total, message };
            self.bars.set(idx, bar);
        }
    }

    /// Takes an event of a transfer: the bar it belongs to is set to how
    /// far the event says the activity has come, and to what the event
    /// says in words, where it says something.
    pub fn apply(&mut self, event: &ProgressEvent)
        ensures
            final(self).width == old(self).width,
            final(self).previous_state == old(self).previous_state,
            final(self).bars@.len() == old(self).bars@.len(),
            forall|i: int|
                0 <= i < old(self).bars@.len() && i != event_bar(*event) ==> final(self).bars@[i]
                    == old(self).bars@[i],
            event_bar(*event) < old(self).bars@.len() ==> {
                let at = event_bar(*event);
                &&& final(self).bars@[at].name@ == old(self).bars@[at].name@
                &&& final(self).bars@[at].current == event_progress(*event).0
                &&& final(self).bars@[at].total == event_progress(*event).1
                &&& match event_text(*event) {
                    Some(text) => final(self).bars@[at].message matches Some(m) && m@ == text,
                    None => final(self).bars@[at].message == old(self).bars@[at].message,
                }
            },
    {
        match *event {
            ProgressEvent::Transfer(current, total) => {
                let text = decimal_string(current).concat("/").concat(
                    decimal_string(total).as_str(),
                ).concat(" objects");
                self.set_message(1, text.as_str());
                self.set_progress(1, current, total);
            },
            ProgressEvent::PushTransfer(bytes, current, total) => {
                let text = decimal_string(bytes).concat(" bytes");
                self.set_message(1, text.as_str());
                self.set_progress(1, current, total);
            },
            ProgressEvent::Packing(current, total) => {
                self.set_progress(2, current, total);
            },
            ProgressEvent::Sideband(op, current, total) => {
                self.set_progress(0, current, total);
                let word = match op {
                    SidebandOp::Counting => "counting (",
                    SidebandOp::Compressing => "compressing (",
                    SidebandOp::Resolving => "resolving (",
                };
                let text = word.to_string().concat(decimal_string(current).as_str()).concat(
                    "/",
                ).concat(decimal_string(total).as_str()).concat(" objects)");
                self.set_message(0, text.as_str());
            },
        }
    }

    /// The greatest length in bytes among the names of the bars: the width
    /// that the names are padded to.
    pub fn prefix(&self) -> (w: usize)
        ensures
            w == name_width(self.bars@, self.bars@.len()),
    {
        let mut w: usize = 0;
        let mut i: usize = 0;
        while i < self.bars.len()
            invariant
                i <= self.bars@.len(),
                w == name_width(self.bars@, i as nat),
            decreases self.bars@.len() - i,
        {
            let own = self.bars[i].name.as_str().as_bytes().len();
            if own > w {
                w = own;
            }
            i += 1;
        }
        w
    }

    /// Draws the bars, given the line of each bar from the top, and
    /// remembers the lines. A later drawing remembers them from the
    /// bottom.
    pub fn draw(&mut self, lines: Vec<String>) -> (ops: Vec<TermOp>)
        requires
            old(self).wf(),
            lines@.len() == old(self).bars@.len(),
        ensures
            final(self).wf(),
            final(self).width == old(self).width,
            final(self).bars == old(self).bars,
            final(self).previous_state matches Some(state) && texts(state@) == if old(
                self,
            ).previous_state is Some {
                reversed(texts(lines@))
            } else {
                texts(lines@)
            },
            op_models(ops@) == draw_ops(
                match old(self).previous_state {
                    Some(state) => Some(texts(state@)),
                    None => None,
                },
                texts(lines@),
            ),
    {
        let n = lines.len();
        let mut ops: Vec<TermOp> = Vec::new();
        let previous = self.previous_state.take();
        match previous {
            Some(state) => {
                let mut new_state: Vec<String> = Vec::new();
                let mut i: usize = 0;
                assert(op_models(ops@) =~= redraw_ops(texts(state@), texts(lines@), 0));
                while i < n
                    invariant
                        n == lines@.len(),
                        state@.len() == n,
                        i <= n,
                        new_state@.len() == i,
                        forall|j: int|
                            0 <= j < i ==> (#[trigger] new_state@[j])@ == lines@[n - 1 - j]@,
                        op_models(ops@) == redraw_ops(
                            texts(state@),
                            texts(lines@),
                            i as nat,
                        ),
                    decreases n - i,
                {
                    let new_line = &lines[n - 1 - i];
                    line_steps(&state[i], new_line, &mut ops);
                    new_state.push(new_line.clone());
                    i += 1;
                }
                let ghost drawn = op_models(ops@);
                push_op(&mut ops, TermOp::MoveDown(n));
                push_op(&mut ops, TermOp::MoveBegin);
                push_op(&mut ops, TermOp::Flush);
                assert(op_models(ops@) =~= drawn + seq![
                    OpModel::MoveDown(n),
                    OpModel::MoveBegin,
                    OpModel::Flush,
                ]);
                assert(texts(new_state@) =~= reversed(texts(lines@)));
                self.previous_state = Some(new_state);
            },
            None => {
                let mut i: usize = 0;
                assert(op_models(ops@) =~= first_ops(texts(lines@), 0));
                while i < n
                    invariant
                        n == lines@.len(),
                        i <= n,
                        op_models(ops@) == first_ops(texts(lines@), i as nat),
                    decreases n - i,
                {
                    let ghost before = op_models(ops@);
                    push_op(&mut ops, TermOp::PrintLine(lines[i].clone()));
                    i += 1;
                    assert(op_models(ops@) =~= before.push(OpModel::PrintLine(lines@[i - 1]@)));
                }
                let ghost drawn = op_models(ops@);
                push_op(&mut ops, TermOp::Flush);
                assert(op_models(ops@) =~= drawn.push(OpModel::Flush));
                self.previous_state = Some(lines);
            },
        }
        ops
    }

    /// Takes the bars off the screen and forgets the lines that were
    /// drawn. Nothing is done where nothing was drawn.
    pub fn clear(&mut self) -> (ops: Vec<TermOp>)
        ensures
            final(self).previous_state is None,
            final(self).width == old(self).width,
            final(self).bars == old(self).bars,
            op_models(ops@) == if old(self).previous_state is Some {
                clear_ops(old(self).bars@.len())
            } else {
                Seq::empty()
            },
    {
        let mut ops: Vec<TermOp> = Vec::new();
        assert(op_models(ops@) =~= Seq::empty());
        if self.previous_state.is_none() {
            return ops;
        }
        self.previous_state = None;
        let mut i: usize = 0;
        assert(op_models(ops@) =~= clear_ops(0));
        while i < self.bars.len()
            invariant
                i <= self.bars@.len(),
                op_models(ops@) == clear_ops(i as nat),
            decreases self.bars@.len() - i,
        {
            let ghost before = op_models(ops@);
            push_op(&mut ops, TermOp::MoveBegin);
            push_op(&mut ops, TermOp::MoveUp(1));
            push_op(&mut ops, TermOp::ClearLine);
            i += 1;
            assert(op_models(ops@) =~= before + seq![
                OpModel::MoveBegin,
                OpModel::MoveUp(1),
                OpModel::ClearLine,
            ]);
        }
        ops
    }
}

} // verus!
