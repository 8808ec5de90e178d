use porcelain::remote::{ProgressEvent, SidebandOp};
use porcelain::term::progress::{Bar, ProgressBar, TermOp};

fn bars() -> ProgressBar {
    ProgressBar::with_multiple(vec![
        "Remote".to_string(),
        "Transfer".to_string(),
        "Packing".to_string(),
    ])
}

fn words(ops: &[TermOp]) -> Vec<String> {
    ops.iter().map(|op| format!("{op:?}")).collect()
}

#[test]
fn new_bars() {
    let p = bars();
    assert_eq!(p.width, 24);
    assert_eq!(p.bars.len(), 3);
    assert_eq!(p.bars[1].name, "Transfer");
    assert_eq!((p.bars[1].current, p.bars[1].total), (0, 100));
    assert!(p.bars[1].message.is_none());
    assert!(p.previous_state.is_none());
    assert_eq!(p.prefix(), 8);
    assert_eq!(ProgressBar::with_multiple(vec![]).prefix(), 0);
    assert_eq!(Bar::new("\u{e9}").name, "\u{e9}");
    assert_eq!(ProgressBar::with_multiple(vec!["\u{e9}".to_string()]).prefix(), 2);
}

#[test]
fn setters_ignore_missing_bars() {
    let mut p = bars();
    p.set_message(1, "hello");
    p.set_progress(1, 5, 10);
    p.set_message(7, "nobody");
    p.set_progress(7, 1, 2);
    assert_eq!(p.bars[1].message.as_deref(), Some("hello"));
    assert_eq!((p.bars[1].current, p.bars[1].total), (5, 10));
    assert_eq!(p.bars[1].name, "Transfer");
    assert!(p.bars[0].message.is_none());
    assert_eq!(p.bars.len(), 3);
}

#[test]
fn events_reach_their_bar() {
    let mut p = bars();
    p.apply(&ProgressEvent::Transfer(3, 9));
    assert_eq!(p.bars[1].message.as_deref(), Some("3/9 objects"));
    assert_eq!((p.bars[1].current, p.bars[1].total), (3, 9));
    p.apply(&ProgressEvent::PushTransfer(2048, 4, 9));
    assert_eq!(p.bars[1].message.as_deref(), Some("2048 bytes"));
    assert_eq!((p.bars[1].current, p.bars[1].total), (4, 9));
    p.apply(&ProgressEvent::Packing(1, 2));
    assert_eq!((p.bars[2].current, p.bars[2].total), (1, 2));
    assert!(p.bars[2].message.is_none());
    p.apply(&ProgressEvent::Sideband(SidebandOp::Counting, 10, 20));
    assert_eq!(p.bars[0].message.as_deref(), Some("counting (10/20 objects)"));
    p.apply(&ProgressEvent::Sideband(SidebandOp::Compressing, 11, 20));
    assert_eq!(p.bars[0].message.as_deref(), Some("compressing (11/20 objects)"));
    p.apply(&ProgressEvent::Sideband(SidebandOp::Resolving, 12, 20));
    assert_eq!(p.bars[0].message.as_deref(), Some("resolving (12/20 objects)"));
    assert_eq!((p.bars[0].current, p.bars[0].total), (12, 20));
}

#[test]
fn first_drawing_writes_every_line() {
    let mut p = bars();
    let ops = p.draw(vec!["a".to_string(), "b".to_string(), "c".to_string()]);
    assert_eq!(
        words(&ops),
        vec!["PrintLine(\"a\")", "PrintLine(\"b\")", "PrintLine(\"c\")", "Flush"]
    );
    assert_eq!(
        p.previous_state,
        Some(vec!["a".to_string(), "b".to_string(), "c".to_string()])
    );
}

#[test]
fn later_drawing_writes_what_changed() {
    let mut p = ProgressBar::with_multiple(vec!["x".to_string(), "y".to_string()]);
    p.draw(vec!["ab".to_string(), "cd".to_string()]);
    // the bottom line is held against the first remembered line
    let ops = p.draw(vec!["ab".to_string(), "ab".to_string()]);
    assert_eq!(
        words(&ops),
        vec![
            "MoveUp(1)",
            "MoveUp(1)",
            "MoveBegin",
            "MoveRight(1)",
            "DeleteChar",
            "PrintChar('a')",
            "MoveBegin",
            "MoveRight(2)",
            "DeleteChar",
            "PrintChar('b')",
            "MoveDown(2)",
            "MoveBegin",
            "Flush",
        ]
    );
    assert_eq!(p.previous_state, Some(vec!["ab".to_string(), "ab".to_string()]));
}

#[test]
fn shorter_line_is_written_whole_and_escapes_take_no_place() {
    let mut p = ProgressBar::with_multiple(vec!["x".to_string()]);
    p.draw(vec!["\u{1b}[32mlong line\u{1b}[0m".to_string()]);
    let ops = p.draw(vec!["short".to_string()]);
    assert_eq!(
        words(&ops),
        vec![
            "MoveUp(1)",
            "MoveBegin",
            "Print(\"short\")",
            "EraseToEnd",
            "MoveDown(1)",
            "MoveBegin",
            "Flush"
        ]
    );
    let ops = p.draw(vec!["\u{1b}[1mshort\u{1b}[0m!".to_string()]);
    assert_eq!(
        words(&ops),
        vec![
            "MoveUp(1)",
            "MoveBegin",
            "MoveRight(6)",
            "DeleteChar",
            "PrintChar('!')",
            "MoveDown(1)",
            "MoveBegin",
            "Flush"
        ]
    );
}

#[test]
fn clear_takes_the_lines_away() {
    let mut p = bars();
    assert!(p.clear().is_empty());
    p.draw(vec!["a".to_string(), "b".to_string(), "c".to_string()]);
    let ops = p.clear();
    assert_eq!(ops.len(), 9);
    assert_eq!(words(&ops)[..3], ["MoveBegin", "MoveUp(1)", "ClearLine"]);
    assert!(p.previous_state.is_none());
    assert!(p.clear().is_empty());
}
