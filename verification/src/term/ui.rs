//! Putting documents together and handing them out one after the other.

use vstd::prelude::*;
use crate::oid::Oid;
use crate::term::node::{model, models, Attribute, AttributeModel, Node, NodeModel};
use crate::term::render::{piece, plain, render_into, spec_render, views, Span, Style};

verus! {

/// A list or a block that holds nothing.
pub open spec fn is_hollow(node: NodeModel) -> bool {
    match node {
        NodeModel::MultiLine(children) => children.len() == 0,
        NodeModel::Block(children) => children.len() == 0,
        _ => false,
    }
}

/// Whether a document is a list or a block that holds nothing.
pub fn hollow(node: &Node) -> (r: bool)
    ensures
        r == is_hollow(model(*node)),
{
    match node {
        Node::MultiLine(children) => {
            assert(models(children@).len() == children@.len());
            children.len() == 0
        },
        Node::Block(children) => {
            assert(models(children@).len() == children@.len());
            children.len() == 0
        },
        _ => false,
    }
}

/// Hands documents out as styled text, with an empty line between two of
/// them.
#[derive(Debug)]
pub struct Stream(pub usize);

impl Default for Stream {
    fn default() -> (s: Stream)
        ensures
            s.0 == 0,
    {
        Stream(0)
    }
}

impl Stream {
    /// The styled text for the next document. Nothing is written for no
    /// document and for a hollow one. Any other is written on a line of
    /// its own, after two line ends where a document was written before,
    /// and is counted.
    pub fn send(&mut self, node: Option<&Node>) -> (out: Vec<Span>)
        ensures
            match node {
                Some(n) if !is_hollow(model(*n)) => {
                    &&& views(out@) == (if old(self).0 > 0 {
                        piece("\n\n"@, plain(), None)
                    } else {
                        Seq::empty()
                    }) + spec_render(model(*n), None) + piece("\n"@, plain(), None)
                    &&& final(self).0 == if old(self).0 < usize::MAX {
                        (old(self).0 + 1) as usize
                    } else {
                        old(self).0
                    }
                },
                _ => out@.len() == 0 && final(self).0 == old(self).0,
            },
    {
        let mut out: Vec<Span> = Vec::new();
        let style = Style { color: None, bold: false, dimmed: false };
        match node {
            None => {},
            Some(n) => {
                if !hollow(n) {
                    if self.0 > 0 {
                        out.push(Span { text: "\n\n".to_string(), style, outer: None });
                    }
                    let ghost lead = views(out@);
                    assert(lead =~= if self.0 > 0 {
                        piece("\n\n"@, plain(), None)
                    } else {
                        Seq::empty()
                    });
                    if self.0 < usize::MAX {
                        self.0 += 1;
                    }
                    render_into(n, None, &mut out);
                    let ghost body = views(out@);
                    out.push(Span { text: "\n".to_string(), style, outer: None });
                    assert(views(out@) =~= body + piece("\n"@, plain(), None));
                }
            },
        }
        out
    }
}

/// Collects the documents of a list.
#[derive(Debug)]
pub struct Builder {
    pub nodes: Vec<Node>,
}

impl Default for Builder {
    fn default() -> (b: Builder)
        ensures
            b.nodes@.len() == 0,
    {
        Builder { nodes: Vec::new() }
    }
}

impl Builder {
    /// Adds a document, unless there is none or it is hollow.
    pub fn and(self, node: Option<Node>) -> (b: Builder)
        ensures
            models(b.nodes@) == match node {
                Some(n) if !is_hollow(model(n)) => models(self.nodes@).push(model(n)),
                _ => models(self.nodes@),
            },
    {
        let mut nodes = self.nodes;
        match node {
            Some(n) => {
                if !hollow(&n) {
                    crate::term::node::push_node(&mut nodes, n);
                }
            },
            None => {},
        }
        Builder { nodes }
    }

    /// The documents as one list, each on a line of its own.
    pub fn build(self) -> (n: Node)
        ensures
            model(n) == NodeModel::MultiLine(models(self.nodes@)),
    {
        Node::MultiLine(self.nodes)
    }
}

/// What is known of a ref.
#[derive(Debug)]
pub struct RefInfo {
    pub is_branch: bool,
    pub is_tag: bool,
    pub shorthand: String,
    /// The commit that the ref points at, where it points at one.
    pub target: Option<Oid>,
}

/// The ref points at nothing.
#[derive(Clone, Copy, Debug, PartialEq, Eq, Structural)]
pub struct MissingTarget;

impl Attribute {
    /// The attribute that shows a ref: its short name for a branch or a
    /// tag, else the start of the id of its commit.
    pub fn from_ref(reference: &RefInfo) -> (r: Result<Attribute, MissingTarget>)
        ensures
            r is Err <==> !reference.is_branch && !reference.is_tag && reference.target is None,
            r matches Ok(attr) ==> attr@ == (if reference.is_branch || reference.is_tag {
                AttributeModel::Branch(reference.shorthand@)
            } else {
                AttributeModel::CommitShort(reference.target->0.bytes@)
            }),
    {
        if reference.is_branch || reference.is_tag {
            Ok(Attribute::Branch(reference.shorthand.clone()))
        } else {
            match reference.target {
                Some(oid) => Ok(Attribute::CommitShort(oid)),
                None => Err(MissingTarget),
            }
        }
    }
}

} // verus!
