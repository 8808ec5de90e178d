//! The parts of the status report.

use vstd::prelude::*;
use crate::graph::{Commit, CommitGraph, Graph};
use crate::oid::{hex_string, Oid};
use crate::rebase::{kind_name, OpModel, Rebase, RebaseOp};
use crate::status::{Change, Location, StatusEntry, StatusEntryModel};
use crate::term::node::{
    first_line, model, models, no_nodes, push_node, Attribute, AttributeModel, Icon, Indicator,
    Node, NodeModel, Status,
};
use crate::term::node::capped;
use crate::text::{chars_of, decimal, decimal_string, line_at, line_range, string_of};
use vstd::utf8::{encode_utf8, is_char_boundary};

verus! {

/// A text as a document.
pub open spec fn text(s: Seq<char>) -> NodeModel {
    NodeModel::Text(s)
}

/// A single blank as a document.
pub open spec fn blank() -> NodeModel {
    NodeModel::Text(" "@)
}

/// An icon in the colour of a status.
pub open spec fn marked(icon: Icon, status: Status) -> NodeModel {
    NodeModel::Status(status, Box::new(NodeModel::Icon(icon)))
}

/// How far the branch is ahead of its upstream and behind it: an arrow up
/// with the count of commits ahead, an arrow down with the count of commits
/// behind, each only where the count is not zero.
pub open spec fn indicators(ahead: nat, behind: nat) -> NodeModel {
    if ahead == 0 {
        NodeModel::Block(seq![marked(Icon::ArrowDown, Status::Error), blank(), text(decimal(behind))])
    } else if behind == 0 {
        NodeModel::Block(seq![marked(Icon::ArrowUp, Status::Success), blank(), text(decimal(ahead))])
    } else {
        NodeModel::Block(
            seq![
                marked(Icon::ArrowUp, Status::Success),
                blank(),
                text(decimal(ahead)),
                blank(),
                marked(Icon::ArrowDown, Status::Error),
                text(decimal(behind)),
            ],
        )
    }
}

/// The mark that shows how far the branch and its upstream have moved
/// apart; nothing where they have not.
pub fn remote_state_indicators(graph: &Graph) -> (r: Option<Node>)
    ensures
        r is None <==> graph.ahead@.len() == 0 && graph.behind@.len() == 0,
        r matches Some(node) ==> model(node) == indicators(
            graph.ahead@.len(),
            graph.behind@.len(),
        ),
{
    let ahead = graph.ahead.len();
    let behind = graph.behind.len();
    if ahead == 0 && behind == 0 {
        return None;
    }
    let mut parts = no_nodes();
    if ahead != 0 {
        push_node(&mut parts, Node::Icon(Icon::ArrowUp).with_status(Status::Success));
        push_node(&mut parts, Node::spacer());
        push_node(&mut parts, Node::Text(decimal_string(ahead)));
    }
    if ahead != 0 && behind != 0 {
        push_node(&mut parts, Node::spacer());
    }
    if behind != 0 {
        push_node(&mut parts, Node::Icon(Icon::ArrowDown).with_status(Status::Error));
        if ahead == 0 {
            push_node(&mut parts, Node::spacer());
        }
        push_node(&mut parts, Node::Text(decimal_string(behind)));
    }
    proof {
        if ahead == 0 {
            assert(models(parts@) =~= seq![
                marked(Icon::ArrowDown, Status::Error),
                blank(),
                text(decimal(behind as nat)),
            ]);
        } else if behind == 0 {
            assert(models(parts@) =~= seq![
                marked(Icon::ArrowUp, Status::Success),
                blank(),
                text(decimal(ahead as nat)),
            ]);
        } else {
            assert(models(parts@) =~= seq![
                marked(Icon::ArrowUp, Status::Success),
                blank(),
                text(decimal(ahead as nat)),
                blank(),
                marked(Icon::ArrowDown, Status::Error),
                text(decimal(behind as nat)),
            ]);
        }
    }
    Some(Node::Block(parts))
}

/// The first six digits of an id, dimmed.
pub open spec fn short_id(id: Seq<u8>) -> NodeModel {
    NodeModel::Dimmed(Box::new(NodeModel::Text(hex_string(id).subrange(0, 6))))
}

fn short_id_node(id: &Oid) -> (n: Node)
    ensures
        model(n) == short_id(id.bytes@),
{
    let hex = id.to_hex();
    let short = hex.as_str().substring_char(0, 6).to_string();
    proof {
        reveal_with_fuel(model, 2);
    }
    Node::Dimmed(Box::new(Node::Text(short)))
}

/// The line of one step of a rebase: the operation, the start of the id
/// and the first line of the message.
pub open spec fn step_row(op: OpModel) -> NodeModel {
    NodeModel::Block(
        seq![
            blank(),
            blank(),
            NodeModel::Attribute(AttributeModel::Operation(kind_name(op.ty))),
            blank(),
            short_id(op.oid),
            blank(),
            text(first_line(op.message)),
        ],
    )
}

/// The line that says how a stopped rebase goes on.
pub open spec fn continue_row() -> NodeModel {
    NodeModel::Block(
        seq![
            blank(),
            blank(),
            NodeModel::Continued(
                Box::new(text("Fix conflicts and run 'git rebase --continue'"@)),
            ),
        ],
    )
}

/// The steps that a rebase has left, one line each, under a heading that
/// counts them, and after them the line that says how to go on.
pub open spec fn rebase_report(ops: Seq<RebaseOp>) -> NodeModel {
    NodeModel::Group(
        "Rebase"@,
        Some(ops.len() as usize),
        Box::new(
            NodeModel::MultiLine(
                Seq::new(ops.len(), |i: int| step_row(ops[i]@)).push(continue_row()),
            ),
        ),
    )
}

fn step_node(op: &RebaseOp) -> (n: Node)
    ensures
        model(n) == step_row(op@),
{
    let mut parts = no_nodes();
    push_node(&mut parts, Node::spacer());
    push_node(&mut parts, Node::spacer());
    push_node(&mut parts, Node::Attribute(Attribute::Operation(op.ty.name().to_string())));
    push_node(&mut parts, Node::spacer());
    push_node(&mut parts, short_id_node(&op.oid));
    push_node(&mut parts, Node::spacer());
    push_node(&mut parts, Node::text_head_1(op.message.as_str()));
    assert(models(parts@) =~= step_row(op@)->Block_0);
    Node::Block(parts)
}

/// The part of the report that shows a rebase in progress.
pub fn render_rebase(rebase: &Rebase) -> (n: Node)
    ensures
        model(n) == rebase_report(rebase.operations@),
{
    let ops = &rebase.operations;
    let mut rows = no_nodes();
    let mut i: usize = 0;
    assert(models(rows@) =~= Seq::new(0, |j: int| step_row(ops@[j]@)));
    while i < ops.len()
        invariant
            i <= ops@.len(),
            models(rows@) == Seq::new(i as nat, |j: int| step_row(ops@[j]@)),
        decreases ops@.len() - i,
    {
        push_node(&mut rows, step_node(&ops[i]));
        i += 1;
        assert(models(rows@) =~= Seq::new(i as nat, |j: int| step_row(ops@[j]@)));
    }
    let mut last = no_nodes();
    push_node(&mut last, Node::spacer());
    push_node(&mut last, Node::spacer());
    push_node(
        &mut last,
        Node::Continued(
            Box::new(Node::Text("Fix conflicts and run 'git rebase --continue'".to_string())),
        ),
    );
    proof {
        reveal_with_fuel(model, 2);
    }
    assert(models(last@) =~= continue_row()->Block_0);
    push_node(&mut rows, Node::Block(last));
    Node::Group("Rebase".to_string(), Some(ops.len()), Box::new(Node::MultiLine(rows)))
}

/// The line of one commit: a lock where it is signed, the start of its id
/// and the first line of its message.
pub open spec fn commit_row(commit: Commit) -> NodeModel {
    NodeModel::Block(
        seq![
            if commit.signed {
                marked(Icon::Lock, Status::Success)
            } else {
                blank()
            },
            blank(),
            short_id(commit.id.bytes@),
            blank(),
            text(first_line(commit.message@)),
        ],
    )
}

/// The lines of the commits at the given positions under a heading that
/// counts them.
pub open spec fn commit_group(heading: Seq<char>, repo: CommitGraph, side: Seq<usize>) -> NodeModel {
    NodeModel::Group(
        heading,
        Some(side.len() as usize),
        Box::new(
            NodeModel::MultiLine(
                Seq::new(side.len(), |i: int| commit_row(repo.commits@[side[i] as int])),
            ),
        ),
    )
}

/// The commits that have not reached the remote and those that have not
/// been pulled from it, each group only where it holds a commit.
pub open spec fn commits_report(repo: CommitGraph, graph: Graph) -> Option<NodeModel> {
    let ahead = commit_group("Unmerged into remote"@, repo, graph.ahead@);
    let behind = commit_group("Unpulled from remote"@, repo, graph.behind@);
    if graph.ahead@.len() == 0 && graph.behind@.len() == 0 {
        None
    } else if graph.behind@.len() == 0 {
        Some(NodeModel::MultiLine(seq![ahead]))
    } else if graph.ahead@.len() == 0 {
        Some(NodeModel::MultiLine(seq![behind]))
    } else {
        Some(NodeModel::MultiLine(seq![ahead, behind]))
    }
}

fn commit_node(commit: &Commit) -> (n: Node)
    ensures
        model(n) == commit_row(*commit),
{
    let mut parts = no_nodes();
    if commit.signed {
        push_node(&mut parts, Node::Icon(Icon::Lock).with_status(Status::Success));
    } else {
        push_node(&mut parts, Node::spacer());
    }
    push_node(&mut parts, Node::spacer());
    push_node(&mut parts, short_id_node(&commit.id));
    push_node(&mut parts, Node::spacer());
    push_node(&mut parts, Node::text_head_1(commit.message.as_str()));
    assert(models(parts@) =~= commit_row(*commit)->Block_0);
    Node::Block(parts)
}

fn commit_group_node(heading: &str, repo: &CommitGraph, side: &Vec<usize>) -> (n: Node)
    requires
        forall|i: int| 0 <= i < side@.len() ==> side@[i] < repo.commits@.len(),
    ensures
        model(n) == commit_group(heading@, *repo, side@),
{
    let mut rows = no_nodes();
    let mut i: usize = 0;
    assert(models(rows@) =~= Seq::new(0, |j: int| commit_row(repo.commits@[side@[j] as int])));
    while i < side.len()
        invariant
            i <= side@.len(),
            forall|i: int| 0 <= i < side@.len() ==> side@[i] < repo.commits@.len(),
            models(rows@) == Seq::new(
                i as nat,
                |j: int| commit_row(repo.commits@[side@[j] as int]),
            ),
        decreases side@.len() - i,
    {
        push_node(&mut rows, commit_node(&repo.commits[side[i]]));
        i += 1;
        assert(models(rows@) =~= Seq::new(
            i as nat,
            |j: int| commit_row(repo.commits@[side@[j] as int]),
        ));
    }
    proof {
        reveal_with_fuel(model, 2);
    }
    Node::Group(heading.to_string(), Some(side.len()), Box::new(Node::MultiLine(rows)))
}

/// The part of the report that lists the commits on either side of a
/// divergence.
pub fn render_commits(repo: &CommitGraph, graph: &Graph) -> (r: Option<Node>)
    requires
        graph.wf(repo),
    ensures
        match r {
            Some(n) => commits_report(*repo, *graph) == Some(model(n)),
            None => commits_report(*repo, *graph) is None,
        },
{
    let mut groups = no_nodes();
    if graph.ahead.len() > 0 {
        push_node(&mut groups, commit_group_node("Unmerged into remote", repo, &graph.ahead));
    }
    if graph.behind.len() > 0 {
        push_node(&mut groups, commit_group_node("Unpulled from remote", repo, &graph.behind));
    }
    if groups.len() == 0 {
        return None;
    }
    proof {
        let ahead = commit_group("Unmerged into remote"@, *repo, graph.ahead@);
        let behind = commit_group("Unpulled from remote"@, *repo, graph.behind@);
        if graph.behind@.len() == 0 {
            assert(models(groups@) =~= seq![ahead]);
        } else if graph.ahead@.len() == 0 {
            assert(models(groups@) =~= seq![behind]);
        } else {
            assert(models(groups@) =~= seq![ahead, behind]);
        }
    }
    Some(Node::MultiLine(groups))
}

/// The mark of a kind of change.
pub open spec fn change_mark(change: Change) -> Indicator {
    match change {
        Change::New => Indicator::New,
        Change::Modified => Indicator::Modified,
        Change::Renamed => Indicator::Renamed,
        Change::Deleted => Indicator::Deleted,
        Change::TypeChanged => Indicator::Modified,
        Change::Unknown => Indicator::Unknown,
    }
}

/// The line of one change: its mark and its path.
pub open spec fn change_row(entry: StatusEntryModel) -> NodeModel {
    NodeModel::Block(
        seq![
            blank(),
            blank(),
            NodeModel::Indicator(change_mark(entry.change)),
            blank(),
            text(entry.path),
        ],
    )
}

/// The positions, among the first `n` changes, of those at `location`.
pub open spec fn at_location(list: Seq<StatusEntry>, location: Location, n: nat) -> Seq<int>
    decreases n,
{
    if n == 0 {
        Seq::empty()
    } else if list[n - 1].location == location {
        at_location(list, location, (n - 1) as nat).push(n - 1)
    } else {
        at_location(list, location, (n - 1) as nat)
    }
}

/// The lines of the changes at one location under a heading that counts
/// them.
pub open spec fn change_group(heading: Seq<char>, list: Seq<StatusEntry>, location: Location) -> NodeModel {
    let picked = at_location(list, location, list.len());
    NodeModel::Group(
        heading,
        Some(picked.len() as usize),
        Box::new(NodeModel::MultiLine(Seq::new(picked.len(), |i: int| change_row(list[picked[i]]@)))),
    )
}

/// The staged changes and the unstaged ones, each group only where it holds
/// a change.
pub open spec fn changes_report(list: Seq<StatusEntry>) -> Option<NodeModel> {
    let staged = change_group("Staged Changes"@, list, Location::Index);
    let unstaged = change_group("Unstaged Changes"@, list, Location::WorkingTree);
    let n_staged = at_location(list, Location::Index, list.len()).len();
    let n_unstaged = at_location(list, Location::WorkingTree, list.len()).len();
    if n_staged == 0 && n_unstaged == 0 {
        None
    } else if n_unstaged == 0 {
        Some(NodeModel::MultiLine(seq![staged]))
    } else if n_staged == 0 {
        Some(NodeModel::MultiLine(seq![unstaged]))
    } else {
        Some(NodeModel::MultiLine(seq![staged, unstaged]))
    }
}

fn change_node(entry: &StatusEntry) -> (n: Node)
    ensures
        model(n) == change_row(entry@),
{
    let mark = match entry.change {
        Change::New => Indicator::New,
        Change::Modified => Indicator::Modified,
        Change::Renamed => Indicator::Renamed,
        Change::Deleted => Indicator::Deleted,
        Change::TypeChanged => Indicator::Modified,
        Change::Unknown => Indicator::Unknown,
    };
    let mut parts = no_nodes();
    push_node(&mut parts, Node::spacer());
    push_node(&mut parts, Node::spacer());
    push_node(&mut parts, Node::Indicator(mark));
    push_node(&mut parts, Node::spacer());
    push_node(&mut parts, Node::Text(entry.path.clone()));
    assert(models(parts@) =~= change_row(entry@)->Block_0);
    Node::Block(parts)
}

fn change_group_node(heading: &str, list: &Vec<StatusEntry>, location: Location) -> (r: (
    Node,
    usize,
))
    ensures
        model(r.0) == change_group(heading@, list@, location),
        r.1 == at_location(list@, location, list@.len()).len(),
{
    let mut rows = no_nodes();
    let mut i: usize = 0;
    let ghost mut picked: Seq<int> = Seq::empty();
    assert(models(rows@) =~= Seq::new(0, |j: int| change_row(list@[picked[j]]@)));
    while i < list.len()
        invariant
            i <= list@.len(),
            picked == at_location(list@, location, i as nat),
            rows@.len() == picked.len(),
            picked.len() <= i,
            forall|j: int| 0 <= j < picked.len() ==> 0 <= #[trigger] picked[j] < i,
            models(rows@) == Seq::new(picked.len(), |j: int| change_row(list@[picked[j]]@)),
        decreases list@.len() - i,
    {
        let same = match (list[i].location, location) {
            (Location::Index, Location::Index) => true,
            (Location::WorkingTree, Location::WorkingTree) => true,
            _ => false,
        };
        if same {
            let ghost before = picked;
            push_node(&mut rows, change_node(&list[i]));
            proof {
                picked = picked.push(i as int);
                assert(models(rows@) =~= Seq::new(
                    picked.len(),
                    |j: int| change_row(list@[picked[j]]@),
                ));
            }
        }
        i += 1;
    }
    let count = rows.len();
    proof {
        reveal_with_fuel(model, 2);
    }
    (Node::Group(heading.to_string(), Some(count), Box::new(Node::MultiLine(rows))), count)
}

/// The part of the report that lists the uncommitted changes.
pub fn render_changes(list: &Vec<StatusEntry>) -> (r: Option<Node>)
    ensures
        match r {
            Some(n) => changes_report(list@) == Some(model(n)),
            None => changes_report(list@) is None,
        },
{
    let (staged, n_staged) = change_group_node("Staged Changes", list, Location::Index);
    let (unstaged, n_unstaged) = change_group_node(
        "Unstaged Changes",
        list,
        Location::WorkingTree,
    );
    let mut groups = no_nodes();
    if n_staged > 0 {
        push_node(&mut groups, staged);
    }
    if n_unstaged > 0 {
        push_node(&mut groups, unstaged);
    }
    if groups.len() == 0 {
        return None;
    }
    proof {
        let a = change_group("Staged Changes"@, list@, Location::Index);
        let b = change_group("Unstaged Changes"@, list@, Location::WorkingTree);
        if n_unstaged == 0 {
            assert(models(groups@) =~= seq![a]);
        } else if n_staged == 0 {
            assert(models(groups@) =~= seq![b]);
        } else {
            assert(models(groups@) =~= seq![a, b]);
        }
    }
    Some(Node::MultiLine(groups))
}

/// What the head points at.
#[derive(Debug)]
pub enum Target {
    Commit(Oid),
    Tag(String),
}

/// Where the head stands.
#[derive(Debug)]
pub enum Head {
    /// On a ref: the short name of the branch, where the ref is a local
    /// branch, what the ref points at, and the message of its commit.
    Symbolic { branch: Option<String>, target: Target, summary: String },
    /// On a branch without a commit.
    Unborn,
    /// On a commit, without a ref.
    Detached,
}

/// The attribute that shows what the head points at.
pub open spec fn target_attribute(target: Target) -> AttributeModel {
    match target {
        Target::Commit(id) => AttributeModel::CommitShort(id.bytes@),
        Target::Tag(name) => AttributeModel::Tag(name@),
    }
}

/// The longest title that is shown in full, in bytes.
pub const TITLE_CAP: usize = 75;

/// The first line of the report: the branch, or what the head points at;
/// how far the branch and its upstream are apart, where they are; and the
/// first line of the message of the commit, cut where it is long.
pub open spec fn branch_report(head: Head, ahead: nat, behind: nat) -> NodeModel {
    match head {
        Head::Symbolic { branch, target, summary } => {
            let name = NodeModel::Attribute(
                match branch {
                    Some(b) => AttributeModel::Branch(b@),
                    None => target_attribute(target),
                },
            );
            let title = text(capped(line_at(summary@, 0), TITLE_CAP as int));
            if ahead == 0 && behind == 0 {
                NodeModel::Block(seq![name, blank(), title])
            } else {
                NodeModel::Block(
                    seq![
                        name,
                        blank(),
                        NodeModel::Label(Box::new(indicators(ahead, behind))),
                        blank(),
                        title,
                    ],
                )
            }
        },
        Head::Unborn => NodeModel::Attribute(AttributeModel::Branch("[no branch]"@)),
        Head::Detached => NodeModel::Attribute(AttributeModel::Branch("[detached]"@)),
    }
}

/// The title of the head can be cut: it is short, or the cut does not fall
/// inside a character.
pub open spec fn title_fits(head: Head) -> bool {
    match head {
        Head::Symbolic { branch, target, summary } => {
            let bytes = encode_utf8(line_at(summary@, 0));
            bytes.len() <= TITLE_CAP || is_char_boundary(bytes, TITLE_CAP - 3)
        },
        _ => true,
    }
}

/// The first line of the report. Without a divergence nothing is said of
/// the upstream.
pub fn render_branch(head: &Head, graph: Option<&Graph>) -> (n: Node)
    requires
        title_fits(*head),
    ensures
        model(n) == branch_report(
            *head,
            match graph {
                Some(g) => g.ahead@.len(),
                None => 0,
            },
            match graph {
                Some(g) => g.behind@.len(),
                None => 0,
            },
        ),
{
    match head {
        Head::Symbolic { branch, target, summary } => {
            let mut group = no_nodes();
            let name = match branch {
                Some(b) => Attribute::Branch(b.clone()),
                None => match target {
                    Target::Commit(id) => Attribute::CommitShort(*id),
                    Target::Tag(name) => Attribute::Tag(name.clone()),
                },
            };
            push_node(&mut group, Node::Attribute(name));
            push_node(&mut group, Node::spacer());
            let marks = match graph {
                Some(g) => remote_state_indicators(g),
                None => None,
            };
            let ghost shown = marks is Some;
            let ghost inner = if marks is Some {
                model(marks->0)
            } else {
                NodeModel::Empty
            };
            match marks {
                Some(m) => {
                    let label = Node::Label(Box::new(m));
                    proof {
                        reveal_with_fuel(model, 2);
                    }
                    push_node(&mut group, label);
                    push_node(&mut group, Node::spacer());
                },
                None => {},
            }
            let text = chars_of(summary.as_str());
            let (stop, _) = line_range(&text, 0);
            let first = string_of(&text, 0, stop);
            let title = Node::text_capped(first.as_str(), TITLE_CAP);
            push_node(&mut group, title);
            proof {
                let name_model = NodeModel::Attribute(
                    match branch {
                        Some(b) => AttributeModel::Branch(b@),
                        None => target_attribute(*target),
                    },
                );
                let title_model = NodeModel::Text(capped(line_at(summary@, 0), TITLE_CAP as int));
                if shown {
                    assert(models(group@) =~= seq![
                        name_model,
                        blank(),
                        NodeModel::Label(Box::new(inner)),
                        blank(),
                        title_model,
                    ]);
                } else {
                    assert(models(group@) =~= seq![name_model, blank(), title_model]);
                }
            }
            Node::Block(group)
        },
        Head::Unborn => Node::Attribute(Attribute::Branch("[no branch]".to_string())),
        Head::Detached => Node::Attribute(Attribute::Branch("[detached]".to_string())),
    }
}

/// An operation that stopped half way.
#[derive(Clone, Copy, Debug, PartialEq, Eq, Structural)]
pub enum InProgress {
    ApplyMailbox,
    ApplyMailboxRebase,
    Bisect,
    CherryPick,
    CherryPickSequence,
    Merge,
    Rebase,
    RebaseInteractive,
    Revert,
    RevertSequence,
}

impl InProgress {
    /// Whether the steps of a rebase are shown for this state.
    pub open spec fn spec_is_rebase(&self) -> bool {
        *self == InProgress::Rebase || *self == InProgress::RebaseInteractive
    }

    /// Whether the report has a part for this state.
    pub open spec fn reported(&self) -> bool {
        *self != InProgress::ApplyMailbox && *self != InProgress::ApplyMailboxRebase
    }

    pub fn is_rebase(&self) -> (r: bool)
        ensures
            r == self.spec_is_rebase(),
    {
        match self {
            InProgress::Rebase | InProgress::RebaseInteractive => true,
            _ => false,
        }
    }
}

/// What the report says of an operation in progress, other than a rebase.
pub open spec fn state_text(state: InProgress) -> Seq<char> {
    match state {
        InProgress::Bisect => "Bisect in progress"@,
        InProgress::CherryPick | InProgress::CherryPickSequence => "Cherry-pick in progress"@,
        InProgress::Merge => "Merge in progress"@,
        _ => "Revert in progress"@,
    }
}

/// The part of the report on an operation in progress: the steps that are
/// left for a rebase, a line that names the operation for any other, and
/// nothing where no operation is in progress.
pub fn render_state(state: Option<InProgress>, rebase: &Rebase) -> (r: Option<Node>)
    requires
        state matches Some(s) ==> s.reported(),
    ensures
        match state {
            None => r is None,
            Some(s) => r matches Some(n) && model(n) == if s.spec_is_rebase() {
                rebase_report(rebase.operations@)
            } else {
                text(state_text(s))
            },
        },
{
    match state {
        None => None,
        Some(s) => match s {
            InProgress::Rebase | InProgress::RebaseInteractive => Some(render_rebase(rebase)),
            InProgress::Bisect => Some(Node::Text("Bisect in progress".to_string())),
            InProgress::CherryPick | InProgress::CherryPickSequence => Some(
                Node::Text("Cherry-pick in progress".to_string()),
            ),
            InProgress::Merge => Some(Node::Text("Merge in progress".to_string())),
            _ => Some(Node::Text("Revert in progress".to_string())),
        },
    }
}

} // verus!
