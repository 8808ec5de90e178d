use porcelain::oid::Oid;
use porcelain::rebase::{Rebase, RebaseError, RebaseOp, RebaseOperationType};

#[test]
fn read_pick_and_exec() {
    let rebase = Rebase::read("pick abc123 fix: bug\nexec make test\n").unwrap();
    assert_eq!(rebase.operations.len(), 2);
    let first = &rebase.operations[0];
    assert_eq!(first.ty, RebaseOperationType::Pick);
    assert_eq!(first.oid.to_hex(), "abc1230000000000000000000000000000000000");
    assert_eq!(first.message, "fix: bug");
    let second = &rebase.operations[1];
    assert_eq!(second.ty, RebaseOperationType::Exec);
    assert!(second.oid.is_zero());
    assert_eq!(second.message, "make test");
}

#[test]
fn read_fails_on_unknown_verb() {
    let r = Rebase::read("pick abc123 fix: bug\nbogus abc123 msg\n");
    assert_eq!(r.err(), Some(RebaseError::Operation));
}

#[test]
fn from_str_full_id() {
    let op = RebaseOp::from_str(
        "pick 6b6829f3547a8c3c30b120e5c7cc26ea51ee745e feat: send careplan notifications",
    )
    .unwrap();
    assert_eq!(op.ty, RebaseOperationType::Pick);
    assert_eq!(op.oid.to_hex(), "6b6829f3547a8c3c30b120e5c7cc26ea51ee745e");
    assert_eq!(op.message, "feat: send careplan notifications");
    assert!(Oid::from_hex("6b6829f3547a8c3c30b120e5c7cc26ea51ee745e").unwrap().same(&op.oid));
}

#[test]
fn read_skips_comments_blank_and_indented_lines() {
    let text = "# a comment\n\n  indented\nr 0a1b second\r\ne 0a1b third";
    let rebase = Rebase::read(text).unwrap();
    assert_eq!(rebase.operations.len(), 2);
    assert_eq!(rebase.operations[0].ty, RebaseOperationType::Reword);
    assert_eq!(rebase.operations[0].message, "second");
    assert_eq!(rebase.operations[1].ty, RebaseOperationType::Edit);
    assert_eq!(rebase.operations[1].message, "third");
}

#[test]
fn read_empty_text() {
    assert!(Rebase::read("").unwrap().operations.is_empty());
    assert!(Rebase::read("\n\n").unwrap().operations.is_empty());
}

#[test]
fn every_verb_and_alias() {
    let cases = [
        ("p", RebaseOperationType::Pick),
        ("pick", RebaseOperationType::Pick),
        ("r", RebaseOperationType::Reword),
        ("reword", RebaseOperationType::Reword),
        ("e", RebaseOperationType::Edit),
        ("edit", RebaseOperationType::Edit),
        ("s", RebaseOperationType::Squash),
        ("squash", RebaseOperationType::Squash),
        ("f", RebaseOperationType::Fixup),
        ("fixup", RebaseOperationType::Fixup),
    ];
    for (verb, ty) in cases {
        let op = RebaseOp::from_str(&format!("{verb} 1234 a message with spaces")).unwrap();
        assert_eq!(op.ty, ty);
        assert_eq!(op.message, "a message with spaces");
        assert_eq!(op.ty.name().chars().next(), verb.chars().next());
    }
    let op = RebaseOp::from_str("x cargo test").unwrap();
    assert_eq!(op.ty, RebaseOperationType::Exec);
    assert_eq!(op.message, "cargo test");
}

#[test]
fn each_fault() {
    assert_eq!(RebaseOp::from_str("pick").err(), Some(RebaseError::Components));
    assert_eq!(RebaseOp::from_str("pick abc123").err(), Some(RebaseError::Components));
    assert_eq!(RebaseOp::from_str("exec").err(), Some(RebaseError::Components));
    assert_eq!(RebaseOp::from_str("bogus abc123 msg").err(), Some(RebaseError::Operation));
    assert_eq!(RebaseOp::from_str("pick abc123 ").err(), Some(RebaseError::Components));
    assert_eq!(RebaseOp::from_str("pick \t ").err(), Some(RebaseError::Components));
    assert_eq!(RebaseOp::from_str("exec  ").err(), Some(RebaseError::Components));
    assert_eq!(RebaseOp::from_str("bogus abc123").err(), Some(RebaseError::Components));
    assert_eq!(RebaseOp::from_str("\tpick abc123 msg").err(), Some(RebaseError::Operation));
    assert_eq!(RebaseOp::from_str("pick zzz msg").err(), Some(RebaseError::ObjectId));
    assert_eq!(RebaseOp::from_str("pick abc,1 msg").err(), Some(RebaseError::ObjectId));
    assert_eq!(
        RebaseError::Components.message(),
        "invalid rebase todo: expected 3 components"
    );
    assert_eq!(RebaseError::Operation.message(), "invalid rebase operation type");
}

#[test]
fn first_fault_fails_the_read() {
    let r = Rebase::read("pick 12 ok\npick zz bad id\nbogus 12 bad verb\n");
    assert_eq!(r.err(), Some(RebaseError::ObjectId));
}

#[test]
fn parts_are_split_at_white_space() {
    let op = RebaseOp::from_str("pick\t6b6829f3547a8c3c30b120e5c7cc26ea51ee745e\tfix: a  b")
        .unwrap();
    assert_eq!(op.ty, RebaseOperationType::Pick);
    assert_eq!(op.oid.to_hex(), "6b6829f3547a8c3c30b120e5c7cc26ea51ee745e");
    assert_eq!(op.message, "fix: a  b");

    let op = RebaseOp::from_str("pick  abc \t msg with\ttab  ").unwrap();
    assert_eq!(op.ty, RebaseOperationType::Pick);
    assert_eq!(op.oid.to_hex(), "abc0000000000000000000000000000000000000");
    assert_eq!(op.message, "msg with\ttab  ");

    let op = RebaseOp::from_str("exec\t  make   test").unwrap();
    assert_eq!(op.ty, RebaseOperationType::Exec);
    assert!(op.oid.is_zero());
    assert_eq!(op.message, "make   test");

    let op = RebaseOp::from_str("s\u{a0}12\u{3000}wide blanks").unwrap();
    assert_eq!(op.ty, RebaseOperationType::Squash);
    assert_eq!(op.message, "wide blanks");
}

#[test]
fn read_splits_each_line_at_white_space() {
    let rebase = Rebase::read("pick\tabc123\tone\nfixup  0f   two  words\r\nx\tls -l\n").unwrap();
    assert_eq!(rebase.operations.len(), 3);
    assert_eq!(rebase.operations[0].message, "one");
    assert_eq!(rebase.operations[1].ty, RebaseOperationType::Fixup);
    assert_eq!(rebase.operations[1].message, "two  words");
    assert_eq!(rebase.operations[2].ty, RebaseOperationType::Exec);
    assert_eq!(rebase.operations[2].message, "ls -l");
}
