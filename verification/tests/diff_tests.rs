use porcelain::diff::{render_diff, Diff, DiffOpts, DiffType, Origin, PatchLine};
use porcelain::oid::Oid;

fn line(file: usize, origin: char, content: &str) -> PatchLine {
    PatchLine { file, origin: Origin::from_char(origin), content: content.as_bytes().to_vec() }
}

fn sample() -> Diff {
    Diff {
        paths: vec!["a.rs".to_string(), "b.rs".to_string()],
        lines: vec![
            line(0, 'F', "diff --git a/a.rs b/a.rs\n"),
            line(0, 'H', "@@ -1,2 +1,2 @@\n"),
            line(0, ' ', "same\n"),
            line(0, '-', "old\n"),
            line(0, '+', "new\n"),
            line(1, 'F', "diff --git a/b.rs b/b.rs\n"),
            line(1, '+', "one\n"),
            line(1, '+', "two\n"),
            line(1, '=', "\\ No newline at end of file\n"),
        ],
    }
}

#[test]
fn stats_count_lines() {
    let stats = sample().stats();
    assert_eq!(stats.insertions, 3);
    assert_eq!(stats.deletions, 1);
    assert_eq!(stats.files.len(), 2);
    assert_eq!(stats.files[0].path, "a.rs");
    assert_eq!((stats.files[0].insertions, stats.files[0].deletions), (1, 1));
    assert_eq!(stats.files[1].path, "b.rs");
    assert_eq!((stats.files[1].insertions, stats.files[1].deletions), (2, 0));
}

#[test]
fn stats_of_empty_diff() {
    let stats = Diff { paths: vec![], lines: vec![] }.stats();
    assert_eq!((stats.insertions, stats.deletions), (0, 0));
    assert!(stats.files.is_empty());
}

#[test]
fn stats_count_lines_of_unknown_path_in_total_only() {
    let diff = Diff { paths: vec!["a".to_string()], lines: vec![line(3, '+', "x\n")] };
    let stats = diff.stats();
    assert_eq!(stats.insertions, 1);
    assert_eq!(stats.files[0].insertions, 0);
}

#[test]
fn patch_text_marks_lines() {
    let text = String::from_utf8(render_diff(&sample())).unwrap();
    assert_eq!(
        text,
        "diff --git a/a.rs b/a.rs\n@@ -1,2 +1,2 @@\n same\n-old\n+new\n\
         diff --git a/b.rs b/b.rs\n+one\n+two\n\\ No newline at end of file\n"
    );
}

#[test]
fn patch_text_leaves_out_invalid_content() {
    let diff = Diff {
        paths: vec!["a".to_string()],
        lines: vec![PatchLine { file: 0, origin: Origin::Addition, content: vec![0xff, 0x0a] }],
    };
    assert_eq!(render_diff(&diff), b"+".to_vec());
}

#[test]
fn rerun_gives_the_same() {
    let diff = sample();
    let first = diff.stats();
    let second = diff.stats();
    assert_eq!(first.insertions, second.insertions);
    assert_eq!(first.deletions, second.deletions);
    assert_eq!(render_diff(&diff), render_diff(&diff));
    let again = sample();
    assert_eq!(render_diff(&diff), render_diff(&again));
}

#[test]
fn lines_come_one_by_one() {
    let diff = sample();
    let mut reader = diff.patch_lines();
    let mut all = Vec::new();
    let mut count = 0;
    while let Some(text) = reader.next_line() {
        if count == 3 {
            assert_eq!(text, b"-old\n".to_vec());
        }
        all.extend_from_slice(&text);
        count += 1;
    }
    assert_eq!(count, 9);
    assert_eq!(reader.next_line(), None);
    assert_eq!(all, render_diff(&diff));
}

#[test]
fn origin_of_marks() {
    assert_eq!(Origin::from_char(' '), Origin::Context);
    assert_eq!(Origin::from_char('+'), Origin::Addition);
    assert_eq!(Origin::from_char('-'), Origin::Deletion);
    assert_eq!(Origin::from_char('F'), Origin::FileHeader);
    assert_eq!(Origin::from_char('H'), Origin::HunkHeader);
    assert_eq!(Origin::from_char('>'), Origin::Other);
}

#[test]
fn options_default_and_builders() {
    let opts = DiffOpts::default();
    assert!(matches!(opts.ty, DiffType::Unstaged));
    assert!(opts.force_text && opts.ignore_whitespace && !opts.ignore_whitespace_change);
    assert!(!opts.include_ignored && opts.include_untracked && opts.recurse_untracked_dirs);
    assert!(opts.show_untracked_content);
    assert_eq!(opts.pathspec, None);
    let tree = Oid::from_hex("12").unwrap();
    let opts = opts.with_staged(tree).with_pathspec("src/");
    assert!(matches!(opts.ty, DiffType::Staged(t) if t.same(&tree)));
    assert_eq!(opts.pathspec.as_deref(), Some("src/"));
    let opts = opts.with_all(tree);
    assert!(matches!(opts.ty, DiffType::All(t) if t.same(&tree)));
    assert_eq!(opts.pathspec.as_deref(), Some("src/"));
}
