//! What the commit command decides and shows.

use vstd::prelude::*;
use crate::diff::DiffStats;
use crate::term::node::{model, models, no_nodes, push_node, Indicator, Node, NodeModel, Status};
use crate::text::{chars_of, decimal, decimal_string, find_char, index_of, trim_range, trimmed};

verus! {

/// A text in which every blank, and every `/` where `slashes` is set, is
/// replaced by a dash.
pub open spec fn dashed(s: Seq<char>, slashes: bool) -> Seq<char> {
    Seq::new(
        s.len(),
        |i: int|
            if s[i] == ' ' || (slashes && s[i] == '/') {
                '-'
            } else {
                s[i]
            },
    )
}

/// The name of the branch for a commit message. A message with a colon
/// gives the part before it and the part after it, each without the white
/// space around it and with dashes for blanks and slashes, joined by a
/// slash. Any other message gives itself, without the white space around
/// it and with dashes for blanks.
pub open spec fn spec_branch_name(message: Seq<char>) -> Seq<char> {
    let colon = index_of(message, ':', 0);
    if colon < message.len() {
        dashed(trimmed(message, 0, colon), true) + seq!['/'] + dashed(
            trimmed(message, colon + 1, message.len() as int),
            true,
        )
    } else {
        dashed(trimmed(message, 0, message.len() as int), false)
    }
}

fn push_dashed(out: &mut String, text: &Vec<char>, from: usize, to: usize, slashes: bool)
    requires
        from <= to <= text@.len(),
    ensures
        final(out)@ == old(out)@ + dashed(text@.subrange(from as int, to as int), slashes),
{
    let mut i: usize = from;
    assert(out@ =~= old(out)@ + dashed(text@.subrange(from as int, from as int), slashes));
    while i < to
        invariant
            from <= i <= to <= text@.len(),
            out@ == old(out)@ + dashed(text@.subrange(from as int, i as int), slashes),
        decreases to - i,
    {
        let c = text[i];
        if c == ' ' || (slashes && c == '/') {
            out.push('-');
        } else {
            out.push(c);
        }
        i += 1;
        assert(out@ =~= old(out)@ + dashed(text@.subrange(from as int, i as int), slashes));
    }
}

/// The name of the branch that is made for a commit with this message.
pub fn branch_name(message: &str) -> (r: String)
    ensures
        r@ == spec_branch_name(message@),
{
    let text = chars_of(message);
    let n = text.len();
    let colon = find_char(&text, ':', 0);
    let mut out = String::new();
    if colon < n {
        let (a, b) = trim_range(&text, 0, colon);
        push_dashed(&mut out, &text, a, b, true);
        out.push('/');
        let (c, d) = trim_range(&text, colon + 1, n);
        push_dashed(&mut out, &text, c, d, true);
        assert(out@ =~= spec_branch_name(message@));
    } else {
        let (a, b) = trim_range(&text, 0, n);
        push_dashed(&mut out, &text, a, b, false);
        assert(out@ =~= spec_branch_name(message@));
    }
    out
}

/// The message of a commit of a given kind: the kind, a colon, a blank and
/// the message as typed.
pub fn with_prefix(prefix: &str, message: &str) -> (r: String)
    ensures
        r@ == prefix@ + ": "@ + message@,
{
    prefix.to_string().concat(": ").concat(message)
}

/// The entry of the ref log for a commit.
pub fn reflog_message(message: &str) -> (r: String)
    ensures
        r@ == "commit: "@ + message@,
{
    "commit: ".to_string().concat(message)
}

/// A count with its mark, in the colour of a status.
pub open spec fn counted(mark: Indicator, count: nat, status: Status) -> NodeModel {
    NodeModel::Status(
        status,
        Box::new(
            NodeModel::Block(seq![NodeModel::Indicator(mark), NodeModel::Text(decimal(count))]),
        ),
    )
}

/// The counts of a commit in brackets: the inserted lines and the deleted
/// ones, each only where there are some; nothing where there are none.
pub open spec fn counts(insertions: nat, deletions: nat) -> Seq<NodeModel> {
    let added = counted(Indicator::New, insertions, Status::Success);
    let removed = counted(Indicator::Deleted, deletions, Status::Error);
    let blank = NodeModel::Text(" "@);
    if insertions == 0 && deletions == 0 {
        Seq::empty()
    } else {
        seq![
            NodeModel::Label(
                Box::new(
                    NodeModel::Block(
                        if deletions == 0 {
                            seq![added]
                        } else if insertions == 0 {
                            seq![removed]
                        } else {
                            seq![added, blank, removed]
                        },
                    ),
                ),
            ),
            blank,
        ]
    }
}

/// What is shown once a commit is made: that it was created, and the
/// counts of the lines it changed.
pub open spec fn created(insertions: nat, deletions: nat) -> NodeModel {
    NodeModel::Continued(
        Box::new(
            NodeModel::Block(
                seq![
                    NodeModel::Text("Created"@),
                    NodeModel::Text(" "@),
                    NodeModel::Block(counts(insertions, deletions)),
                ],
            ),
        ),
    )
}

fn counted_node(mark: Indicator, count: usize, status: Status) -> (n: Node)
    ensures
        model(n) == counted(mark, count as nat, status),
{
    let mut parts = no_nodes();
    push_node(&mut parts, Node::Indicator(mark));
    push_node(&mut parts, Node::Text(decimal_string(count)));
    assert(models(parts@) =~= seq![
        NodeModel::Indicator(mark),
        NodeModel::Text(decimal(count as nat)),
    ]);
    proof {
        reveal_with_fuel(model, 2);
    }
    Node::Block(parts).with_status(status)
}

/// The line that reports a new commit.
pub fn render_created(stats: &DiffStats) -> (n: Node)
    ensures
        model(n) == created(stats.insertions as nat, stats.deletions as nat),
{
    let mut children = no_nodes();
    if stats.insertions > 0 {
        push_node(&mut children, counted_node(Indicator::New, stats.insertions, Status::Success));
    }
    if stats.deletions > 0 {
        if children.len() > 0 {
            push_node(&mut children, Node::spacer());
        }
        push_node(
            &mut children,
            counted_node(Indicator::Deleted, stats.deletions, Status::Error),
        );
    }
    let ghost added = counted(Indicator::New, stats.insertions as nat, Status::Success);
    let ghost removed = counted(Indicator::Deleted, stats.deletions as nat, Status::Error);
    let ghost inner = models(children@);
    proof {
        if stats.insertions > 0 && stats.deletions > 0 {
            assert(inner =~= seq![added, NodeModel::Text(" "@), removed]);
        } else if stats.insertions > 0 {
            assert(inner =~= seq![added]);
        } else if stats.deletions > 0 {
            assert(inner =~= seq![removed]);
        }
    }
    let mut outer = no_nodes();
    if children.len() > 0 {
        let label = Node::Label(Box::new(Node::Block(children)));
        proof {
            reveal_with_fuel(model, 3);
            assert(model(label) == NodeModel::Label(Box::new(NodeModel::Block(inner))));
        }
        push_node(&mut outer, label);
        push_node(&mut outer, Node::spacer());
        assert(models(outer@) =~= seq![
            NodeModel::Label(Box::new(NodeModel::Block(inner))),
            NodeModel::Text(" "@),
        ]);
    }
    assert(models(outer@) =~= counts(stats.insertions as nat, stats.deletions as nat));
    let mut line = no_nodes();
    push_node(&mut line, Node::Text("Created".to_string()));
    push_node(&mut line, Node::spacer());
    push_node(&mut line, Node::Block(outer));
    assert(models(line@) =~= seq![
        NodeModel::Text("Created"@),
        NodeModel::Text(" "@),
        NodeModel::Block(counts(stats.insertions as nat, stats.deletions as nat)),
    ]);
    proof {
        reveal_with_fuel(model, 2);
    }
    Node::Continued(Box::new(Node::Block(line)))
}

} // verus!
