//! What the list command shows.

use vstd::prelude::*;
use crate::oid::Oid;
use crate::term::node::{
    first_line, model, models, no_nodes, push_node, Attribute, AttributeModel, Icon, Node,
    NodeModel, Status,
};
use crate::text::{chars_of, indent, indented, string_of, trim_range, trimmed};

verus! {

#[derive(Debug)]
pub enum Cmd {
    Stash,
    Commit { target: Option<String> },
    Remote,
    Branch,
}

/// The word for what a list command lists.
pub open spec fn cmd_name(cmd: Cmd) -> Seq<char> {
    match cmd {
        Cmd::Stash => "stash"@,
        Cmd::Commit { .. } => "commit"@,
        Cmd::Remote => "remote"@,
        Cmd::Branch => "branch"@,
    }
}

impl Cmd {
    pub fn name(&self) -> (s: &str)
        ensures
            s@ == cmd_name(*self),
    {
        match self {
            Cmd::Stash => "stash",
            Cmd::Commit { .. } => "commit",
            Cmd::Remote => "remote",
            Cmd::Branch => "branch",
        }
    }
}

/// The prompt of the pager: what is listed, commits where nothing is named.
pub fn prompt(cmd: Option<&Cmd>) -> (s: String)
    ensures
        s@ == "list "@ + (match cmd {
            Some(c) => cmd_name(*c),
            None => "commit"@,
        }) + "s, q to quit"@,
{
    let name = match cmd {
        Some(c) => c.name(),
        None => "commit",
    };
    "list ".to_string().concat(name).concat("s, q to quit")
}

/// The two lines above the message of a listed commit.
pub fn headers(date: &str, author: &str) -> (r: String)
    ensures
        r@ == "Date: "@ + date@ + "\nAuthor: "@ + author@,
{
    "Date: ".to_string().concat(date).concat("\nAuthor: ").concat(author)
}

/// What stands before the id of a listed commit: a lock where the commit
/// is signed, a blank where it is not and the list is short.
pub open spec fn entry_lead(signed: bool, short: bool) -> Seq<NodeModel> {
    if signed {
        seq![
            NodeModel::Block(
                seq![
                    NodeModel::Status(Status::Success, Box::new(NodeModel::Icon(Icon::Lock))),
                    NodeModel::Text(" "@),
                ],
            ),
        ]
    } else if short {
        seq![NodeModel::Text(" "@)]
    } else {
        Seq::empty()
    }
}

/// What stands after the id of a listed commit: in a short list the first
/// line of the message; else the headers, dimmed, and the whole message,
/// indented, with an empty line before and after.
pub open spec fn entry_body(message: Seq<char>, headers: Seq<char>, short: bool) -> NodeModel {
    if short {
        NodeModel::Text(first_line(trimmed(message, 0, message.len() as int)))
    } else {
        NodeModel::MultiLine(
            seq![
                NodeModel::Empty,
                NodeModel::Dimmed(Box::new(NodeModel::Text(headers))),
                NodeModel::Text(" "@),
                NodeModel::Text(indented(message, 0)),
                NodeModel::Empty,
            ],
        )
    }
}

/// One commit of a list.
pub open spec fn entry(
    id: Seq<u8>,
    signed: bool,
    message: Seq<char>,
    headers: Seq<char>,
    short: bool,
) -> NodeModel {
    NodeModel::Block(
        entry_lead(signed, short) + seq![
            NodeModel::Attribute(AttributeModel::Commit(id)),
            entry_body(message, headers, short),
        ],
    )
}

/// The lines that show one commit of a list.
pub fn commit_entry(id: &Oid, signed: bool, message: &str, headers: &str, short: bool) -> (n: Node)
    ensures
        model(n) == entry(id.bytes@, signed, message@, headers@, short),
{
    let mut parts = no_nodes();
    if signed {
        let mut lock = no_nodes();
        push_node(&mut lock, Node::Icon(Icon::Lock).with_status(Status::Success));
        push_node(&mut lock, Node::spacer());
        assert(models(lock@) =~= seq![
            NodeModel::Status(Status::Success, Box::new(NodeModel::Icon(Icon::Lock))),
            NodeModel::Text(" "@),
        ]);
        push_node(&mut parts, Node::Block(lock));
    } else if short {
        push_node(&mut parts, Node::spacer());
    }
    assert(models(parts@) =~= entry_lead(signed, short));
    push_node(&mut parts, Node::Attribute(Attribute::Commit(*id)));
    let body = if short {
        let text = chars_of(message);
        let (a, b) = trim_range(&text, 0, text.len());
        let trimmed_text = string_of(&text, a, b);
        Node::text_head_1(trimmed_text.as_str())
    } else {
        let mut lines = no_nodes();
        push_node(&mut lines, Node::Empty);
        proof {
            reveal_with_fuel(model, 2);
        }
        push_node(&mut lines, Node::Dimmed(Box::new(Node::Text(headers.to_string()))));
        push_node(&mut lines, Node::spacer());
        push_node(&mut lines, Node::Text(indent(message)));
        push_node(&mut lines, Node::Empty);
        assert(models(lines@) =~= seq![
            NodeModel::Empty,
            NodeModel::Dimmed(Box::new(NodeModel::Text(headers@))),
            NodeModel::Text(" "@),
            NodeModel::Text(indented(message@, 0)),
            NodeModel::Empty,
        ]);
        Node::MultiLine(lines)
    };
    push_node(&mut parts, body);
    assert(models(parts@) =~= entry_lead(signed, short) + seq![
        NodeModel::Attribute(AttributeModel::Commit(id.bytes@)),
        entry_body(message@, headers@, short),
    ]);
    Node::Block(parts)
}

} // verus!
