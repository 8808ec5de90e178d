//! A small document model: text, marks and groups of them, put together by
//! the commands and laid out by the renderer.

use vstd::prelude::*;
use crate::oid::Oid;
use vstd::utf8::{decode_utf8, encode_utf8, is_char_boundary};
use crate::text::{chars_of, find_char, index_of, string_of};

verus! {

/// A name of a thing in the repository, shown in its own style.
#[derive(Debug)]
pub enum Attribute {
    Commit(Oid),
    CommitShort(Oid),
    Tag(String),
    Branch(String),
    Remote(String),
    Operation(String),
}

#[derive(Clone, Copy, Debug, PartialEq, Eq, Structural)]
pub enum Status {
    Error,
    Warning,
    Success,
}

#[derive(Clone, Copy, Debug, PartialEq, Eq, Structural)]
pub enum Icon {
    ArrowUp,
    ArrowDown,
    Lock,
    Check,
}

#[derive(Clone, Copy, Debug, PartialEq, Eq, Structural)]
pub enum Indicator {
    Unknown,
    New,
    Conflict,
    Modified,
    Renamed,
    Deleted,
}

#[derive(Debug)]
pub enum Node {
    Empty,
    Icon(Icon),
    Label(Box<Node>),
    Block(Vec<Node>),
    Dimmed(Box<Node>),
    MultiLine(Vec<Node>),
    Indicator(Indicator),
    Continued(Box<Node>),
    Breadcrumb(Vec<Node>),
    Text(String),
    Attribute(Attribute),
    Status(Status, Box<Node>),
    Column(Box<Node>, Box<Node>),
    Group(String, Option<usize>, Box<Node>),
}

/// An attribute as plain values.
pub enum AttributeModel {
    Commit(Seq<u8>),
    CommitShort(Seq<u8>),
    Tag(Seq<char>),
    Branch(Seq<char>),
    Remote(Seq<char>),
    Operation(Seq<char>),
}

/// A document as plain values.
pub enum NodeModel {
    Empty,
    Icon(Icon),
    Label(Box<NodeModel>),
    Block(Seq<NodeModel>),
    Dimmed(Box<NodeModel>),
    MultiLine(Seq<NodeModel>),
    Indicator(Indicator),
    Continued(Box<NodeModel>),
    Breadcrumb(Seq<NodeModel>),
    Text(Seq<char>),
    Attribute(AttributeModel),
    Status(Status, Box<NodeModel>),
    Column(Box<NodeModel>, Box<NodeModel>),
    Group(Seq<char>, Option<usize>, Box<NodeModel>),
}

impl View for Attribute {
    type V = AttributeModel;

    open spec fn view(&self) -> AttributeModel {
        match *self {
            Attribute::Commit(oid) => AttributeModel::Commit(oid.bytes@),
            Attribute::CommitShort(oid) => AttributeModel::CommitShort(oid.bytes@),
            Attribute::Tag(name) => AttributeModel::Tag(name@),
            Attribute::Branch(name) => AttributeModel::Branch(name@),
            Attribute::Remote(name) => AttributeModel::Remote(name@),
            Attribute::Operation(name) => AttributeModel::Operation(name@),
        }
    }
}

/// What the documents of a list hold, as plain values.
pub open spec fn models(nodes: Seq<Node>) -> Seq<NodeModel>
    decreases nodes,
{
    Seq::new(
        nodes.len(),
        |i: int|
            if 0 <= i < nodes.len() {
                model(nodes[i])
            } else {
                NodeModel::Empty
            },
    )
}

/// What a document holds, as plain values.
pub open spec fn model(node: Node) -> NodeModel
    decreases node,
{
    match node {
        Node::Empty => NodeModel::Empty,
        Node::Icon(icon) => NodeModel::Icon(icon),
        Node::Label(inner) => NodeModel::Label(Box::new(model(*inner))),
        Node::Block(children) => NodeModel::Block(
            models(children@),
        ),
        Node::Dimmed(inner) => NodeModel::Dimmed(Box::new(model(*inner))),
        Node::MultiLine(children) => NodeModel::MultiLine(
            models(children@),
        ),
        Node::Indicator(indicator) => NodeModel::Indicator(indicator),
        Node::Continued(inner) => NodeModel::Continued(Box::new(model(*inner))),
        Node::Breadcrumb(children) => NodeModel::Breadcrumb(
            models(children@),
        ),
        Node::Text(text) => NodeModel::Text(text@),
        Node::Attribute(attr) => NodeModel::Attribute(attr@),
        Node::Status(status, inner) => NodeModel::Status(status, Box::new(model(*inner))),
        Node::Column(left, right) => NodeModel::Column(
            Box::new(model(*left)),
            Box::new(model(*right)),
        ),
        Node::Group(heading, count, inner) => NodeModel::Group(
            heading@,
            count,
            Box::new(model(*inner)),
        ),
    }
}

/// The first line of a text: what stands before the first line feed.
pub open spec fn first_line(s: Seq<char>) -> Seq<char> {
    s.subrange(0, index_of(s, '\n', 0))
}

/// A text of more than `cap` bytes is cut to its first `cap - 3` bytes,
/// followed by three dots.
pub open spec fn capped(s: Seq<char>, cap: int) -> Seq<char> {
    if encode_utf8(s).len() > cap {
        decode_utf8(encode_utf8(s).subrange(0, cap - 3)) + "..."@
    } else {
        s
    }
}

/// Appends a document to a list that is being put together.
pub fn push_node(parts: &mut Vec<Node>, node: Node)
    ensures
        final(parts)@ == old(parts)@.push(node),
        models(final(parts)@) == models(old(parts)@).push(model(node)),
{
    parts.push(node);
    assert(models(parts@) =~= models(old(parts)@).push(model(node)));
}

/// A list of documents that holds nothing yet.
pub fn no_nodes() -> (parts: Vec<Node>)
    ensures
        parts@.len() == 0,
        models(parts@) == Seq::<NodeModel>::empty(),
{
    let parts: Vec<Node> = Vec::new();
    assert(models(parts@) =~= Seq::<NodeModel>::empty());
    parts
}

/// An icon, a blank and a message.
pub fn message_with_icon(icon: Icon, message: &str) -> (n: Node)
    ensures
        model(n) == NodeModel::Block(
            seq![NodeModel::Icon(icon), NodeModel::Text(" "@), NodeModel::Text(message@)],
        ),
{
    let mut parts = no_nodes();
    push_node(&mut parts, Node::Icon(icon));
    push_node(&mut parts, Node::spacer());
    push_node(&mut parts, Node::Text(message.to_string()));
    assert(models(parts@) =~= seq![
        NodeModel::Icon(icon),
        NodeModel::Text(" "@),
        NodeModel::Text(message@),
    ]);
    Node::Block(parts)
}

impl Node {
    /// A single blank.
    pub fn spacer() -> (n: Node)
        ensures
            model(n) == NodeModel::Text(" "@),
    {
        Node::Text(" ".to_string())
    }

    /// The first line of `text`.
    pub fn text_head_1(text: &str) -> (n: Node)
        ensures
            model(n) == NodeModel::Text(first_line(text@)),
    {
        let v = chars_of(text);
        let end = find_char(&v, '\n', 0);
        Node::Text(string_of(&v, 0, end))
    }

    /// `text`, cut to `cap` bytes where it is longer. The cut must not fall
    /// inside a character.
    pub fn text_capped(text: &str, cap: usize) -> (n: Node)
        requires
            encode_utf8(text@).len() <= cap || (cap >= 3 && is_char_boundary(
                encode_utf8(text@),
                cap - 3,
            )),
        ensures
            model(n) == NodeModel::Text(capped(text@, cap as int)),
    {
        if text.as_bytes().len() > cap {
            let (head, _) = text.split_at(cap - 3);
            proof {
                vstd::utf8::encode_utf8_decode_utf8(head@);
            }
            Node::Text(head.to_string().concat("..."))
        } else {
            Node::Text(text.to_string())
        }
    }

    /// The node, shown in the colour of `status`.
    pub fn with_status(self, status: Status) -> (n: Node)
        ensures
            n == Node::Status(status, Box::new(self)),
            model(n) == NodeModel::Status(status, Box::new(model(self))),
    {
        Node::Status(status, Box::new(self))
    }
}

} // verus!
