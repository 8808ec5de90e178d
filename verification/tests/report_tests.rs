use porcelain::cmd::status::{
    remote_state_indicators, render_branch, render_changes, render_commits, render_rebase,
    render_state, Head, InProgress, Target,
};
use porcelain::graph::{CommitGraph, Graph};
use porcelain::oid::Oid;
use porcelain::rebase::Rebase;
use porcelain::status::{Change, Location, StatusEntry};
use porcelain::term::node::Node;
use porcelain::term::render::{plain_text, render, Color};

fn shown(node: &Node) -> String {
    plain_text(&render(node))
}

fn divergence(ahead: usize, behind: usize) -> Graph {
    Graph { ahead: (0..ahead).collect(), behind: (0..behind).collect() }
}

#[test]
fn indicators_for_each_case() {
    assert!(remote_state_indicators(&divergence(0, 0)).is_none());
    assert_eq!(shown(&remote_state_indicators(&divergence(3, 0)).unwrap()), "\u{2191} 3");
    assert_eq!(shown(&remote_state_indicators(&divergence(0, 12)).unwrap()), "\u{2193} 12");
    assert_eq!(
        shown(&remote_state_indicators(&divergence(2, 5)).unwrap()),
        "\u{2191} 2 \u{2193}5"
    );
    let spans = render(&remote_state_indicators(&divergence(0, 1)).unwrap());
    assert_eq!(spans[0].outer, Some(Color::Red));
}

#[test]
fn rebase_report() {
    let rebase = Rebase::read("pick abcdef12 first line\nexec make test\n").unwrap();
    let text = shown(&render_rebase(&rebase));
    assert_eq!(
        text,
        "\nRebase (2)\n  \u{21bb} pick abcdef first line\n  \u{21bb} exec 000000 make test\n  \
         \u{21aa} Fix conflicts and run 'git rebase --continue'"
    );
    let none = Rebase { operations: vec![] };
    assert_eq!(
        shown(&render_rebase(&none)),
        "\nRebase (0)\n  \u{21aa} Fix conflicts and run 'git rebase --continue'"
    );
}

#[test]
fn commits_report() {
    let mut repo = CommitGraph::new();
    let a = Oid::from_hex("aaaaaaaa").unwrap();
    let b = Oid::from_hex("bbbbbbbb").unwrap();
    let c = Oid::from_hex("cccccccc").unwrap();
    repo.add(a, vec![], "root\n\nbody".to_string(), false);
    repo.add(b, vec![0], "local work".to_string(), true);
    repo.add(c, vec![0], "remote work".to_string(), false);
    let graph = Graph::ahead_behind(&repo, &b, &c).ok().unwrap();
    let text = shown(&render_commits(&repo, &graph).unwrap());
    assert_eq!(
        text,
        "\nUnmerged into remote (1)\n\u{26bf} bbbbbb local work\n\
         \nUnpulled from remote (1)\n  cccccc remote work"
    );
    let same = Graph::ahead_behind(&repo, &b, &b).ok().unwrap();
    assert!(render_commits(&repo, &same).is_none());
    let ahead = Graph::ahead_behind(&repo, &b, &a).ok().unwrap();
    assert_eq!(
        shown(&render_commits(&repo, &ahead).unwrap()),
        "\nUnmerged into remote (1)\n\u{26bf} bbbbbb local work"
    );
}

fn change(path: &str, location: Location, change: Change) -> StatusEntry {
    StatusEntry { path: path.to_string(), location, change }
}

#[test]
fn changes_report() {
    let list = vec![
        change("a.rs", Location::Index, Change::New),
        change("b.rs", Location::Index, Change::Renamed),
        change("a.rs", Location::WorkingTree, Change::Modified),
        change("c.rs", Location::WorkingTree, Change::Deleted),
        change("d", Location::WorkingTree, Change::Unknown),
    ];
    assert_eq!(
        shown(&render_changes(&list).unwrap()),
        "\nStaged Changes (2)\n  \u{271a} a.rs\n  \u{279c} b.rs\n\
         \nUnstaged Changes (3)\n  ~ a.rs\n  \u{2716} c.rs\n  ? d"
    );
    assert!(render_changes(&vec![]).is_none());
    let only = vec![change("x", Location::WorkingTree, Change::TypeChanged)];
    assert_eq!(shown(&render_changes(&only).unwrap()), "\nUnstaged Changes (1)\n  ~ x");
}

#[test]
fn branch_line() {
    let head = Head::Symbolic {
        branch: Some("main".to_string()),
        target: Target::Commit(Oid::from_hex("abcdef0123").unwrap()),
        summary: "fix: a bug\r\n\r\nmore".to_string(),
    };
    assert_eq!(shown(&render_branch(&head, None)), "\u{e0a0} main fix: a bug");
    assert_eq!(
        shown(&render_branch(&head, Some(&divergence(1, 2)))),
        "\u{e0a0} main (\u{2191} 1 \u{2193}2) fix: a bug"
    );
    assert_eq!(shown(&render_branch(&head, Some(&divergence(0, 0)))), "\u{e0a0} main fix: a bug");
    let detached = Head::Symbolic {
        branch: None,
        target: Target::Commit(Oid::from_hex("abcdef0123").unwrap()),
        summary: "x".repeat(80),
    };
    assert_eq!(
        shown(&render_branch(&detached, None)),
        format!("abcdef0 {}...", "x".repeat(72))
    );
    let tag = Head::Symbolic {
        branch: None,
        target: Target::Tag("v2".to_string()),
        summary: String::new(),
    };
    assert_eq!(shown(&render_branch(&tag, None)), "#v2 ");
    assert_eq!(shown(&render_branch(&Head::Unborn, None)), "\u{e0a0} [no branch]");
    assert_eq!(shown(&render_branch(&Head::Detached, None)), "\u{e0a0} [detached]");
}

#[test]
fn state_line() {
    let rebase = Rebase::read("pick 12 one\n").unwrap();
    assert!(render_state(None, &rebase).is_none());
    assert_eq!(shown(&render_state(Some(InProgress::Merge), &rebase).unwrap()), "Merge in progress");
    assert_eq!(
        shown(&render_state(Some(InProgress::Bisect), &rebase).unwrap()),
        "Bisect in progress"
    );
    assert_eq!(
        shown(&render_state(Some(InProgress::CherryPickSequence), &rebase).unwrap()),
        "Cherry-pick in progress"
    );
    assert_eq!(
        shown(&render_state(Some(InProgress::Revert), &rebase).unwrap()),
        "Revert in progress"
    );
    assert!(shown(&render_state(Some(InProgress::RebaseInteractive), &rebase).unwrap())
        .starts_with("\nRebase (1)\n"));
    assert!(InProgress::Rebase.is_rebase());
    assert!(!InProgress::Merge.is_rebase());
}
