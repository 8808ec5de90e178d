//! What the add command shows.

use vstd::prelude::*;
use crate::term::node::{model, models, no_nodes, push_node, Indicator, Node, NodeModel, Status};

verus! {

/// The line for a file that was added to the index: the mark of a new
/// file and the path, in the colour of success.
pub open spec fn added(path: Seq<char>) -> NodeModel {
    NodeModel::Status(
        Status::Success,
        Box::new(
            NodeModel::Block(
                seq![
                    NodeModel::Indicator(Indicator::New),
                    NodeModel::Text(" "@),
                    NodeModel::Text(path),
                ],
            ),
        ),
    )
}

/// The line that reports an added file.
pub fn file_added(path: &str) -> (n: Node)
    ensures
        model(n) == added(path@),
{
    let mut parts = no_nodes();
    push_node(&mut parts, Node::Indicator(Indicator::New));
    push_node(&mut parts, Node::spacer());
    push_node(&mut parts, Node::Text(path.to_string()));
    assert(models(parts@) =~= seq![
        NodeModel::Indicator(Indicator::New),
        NodeModel::Text(" "@),
        NodeModel::Text(path@),
    ]);
    proof {
        reveal_with_fuel(model, 2);
    }
    Node::Block(parts).with_status(Status::Success)
}

/// What is said once files were added; nothing where none was.
pub fn added_summary(count: usize) -> (r: Option<String>)
    ensures
        match r {
            Some(s) => count > 0 && s@ == crate::text::decimal(count as nat) + " file(s) added"@,
            None => count == 0,
        },
{
    if count > 0 {
        Some(crate::text::decimal_string(count).concat(" file(s) added"))
    } else {
        None
    }
}

} // verus!
