use porcelain::status::{
    change_of, Change, Entry, Location, Status, StatusEntry, StatusError, StatusFlags,
    StatusOptions,
};

fn entry(path: &str, set: fn(&mut StatusFlags)) -> Entry {
    let mut status = StatusFlags::current();
    set(&mut status);
    Entry { path: path.as_bytes().to_vec(), status }
}

fn summary(list: &[StatusEntry]) -> Vec<(String, Location, Change)> {
    list.iter().map(|e| (e.path.clone(), e.location, e.change)).collect()
}

#[test]
fn clean_checkout_lists_nothing() {
    let status = Status { entries: vec![entry("a", |_| {}), entry("b", |_| {})] };
    let list = status.classify(&StatusOptions::default()).unwrap();
    assert!(list.is_empty());
    assert!(status.entries().is_empty());
    let none = Status { entries: vec![] };
    assert!(none.classify(&StatusOptions::default()).unwrap().is_empty());
}

#[test]
fn rename_is_one_entry() {
    let status = Status { entries: vec![entry("new_name.rs", |f| f.index_renamed = true)] };
    let list = status.classify(&StatusOptions::default()).unwrap();
    assert_eq!(
        summary(&list),
        vec![("new_name.rs".to_string(), Location::Index, Change::Renamed)]
    );
}

#[test]
fn staged_come_first_and_order_is_kept() {
    let status = Status {
        entries: vec![
            entry("a", |f| f.wt_modified = true),
            entry("b", |f| f.index_new = true),
            entry("c", |f| {
                f.index_modified = true;
                f.wt_deleted = true;
            }),
            entry("d", |_| {}),
            entry("e", |f| f.wt_new = true),
        ],
    };
    let list = status.classify(&StatusOptions::default()).unwrap();
    assert_eq!(
        summary(&list),
        vec![
            ("b".to_string(), Location::Index, Change::New),
            ("c".to_string(), Location::Index, Change::Modified),
            ("a".to_string(), Location::WorkingTree, Change::Modified),
            ("c".to_string(), Location::WorkingTree, Change::Deleted),
            ("e".to_string(), Location::WorkingTree, Change::New),
        ]
    );
    assert_eq!(status.entries(), vec![0, 1, 2, 4]);
}

#[test]
fn rename_wins_over_modification() {
    let opts = StatusOptions::default();
    let mut f = StatusFlags::current();
    f.index_renamed = true;
    f.index_modified = true;
    f.index_new = true;
    f.index_deleted = true;
    assert_eq!(change_of(&f, Location::Index, &opts), Some(Change::Renamed));
    f.index_renamed = false;
    assert_eq!(change_of(&f, Location::Index, &opts), Some(Change::Modified));
    f.index_modified = false;
    assert_eq!(change_of(&f, Location::Index, &opts), Some(Change::New));
    f.index_new = false;
    assert_eq!(change_of(&f, Location::Index, &opts), Some(Change::Deleted));
    f.index_deleted = false;
    f.index_typechange = true;
    assert_eq!(change_of(&f, Location::Index, &opts), Some(Change::TypeChanged));
    assert_eq!(change_of(&f, Location::WorkingTree, &opts), None);
}

#[test]
fn options_decide_on_untracked_and_ignored() {
    let status = Status {
        entries: vec![
            entry("new", |f| f.wt_new = true),
            entry("target", |f| f.ignored = true),
            entry("both", |f| f.conflicted = true),
        ],
    };
    let defaults = StatusOptions::default();
    assert!(!defaults.include_ignored);
    assert!(defaults.include_untracked);
    assert!(defaults.recurse_untracked_dirs);
    assert!(defaults.exclude_submodules);
    assert_eq!(defaults.rename_threshold, 50);
    assert!(defaults.renames_head_to_index);
    assert!(defaults.renames_index_to_workdir);
    let list = status.classify(&defaults).unwrap();
    assert_eq!(
        summary(&list),
        vec![
            ("new".to_string(), Location::WorkingTree, Change::New),
            ("both".to_string(), Location::WorkingTree, Change::Unknown),
        ]
    );
    let mut opts = StatusOptions::default();
    opts.include_ignored = true;
    opts.include_untracked = false;
    let list = status.classify(&opts).unwrap();
    assert_eq!(
        summary(&list),
        vec![
            ("target".to_string(), Location::WorkingTree, Change::Unknown),
            ("both".to_string(), Location::WorkingTree, Change::Unknown),
        ]
    );
}

#[test]
fn invalid_name_fails_the_list() {
    let mut bad = entry("x", |f| f.wt_modified = true);
    bad.path = vec![0x66, 0xff, 0x6f];
    let status = Status { entries: vec![entry("a", |f| f.index_new = true), bad] };
    assert_eq!(
        status.classify(&StatusOptions::default()).err(),
        Some(StatusError::InvalidPath(1))
    );
    assert_eq!(status.entries[1].path(), None);
    assert_eq!(status.entries[0].path(), Some("a"));
}

#[test]
fn invalid_name_without_change_is_no_fault() {
    let mut bad = entry("x", |_| {});
    bad.path = vec![0xff];
    let status = Status { entries: vec![bad, entry("caf\u{e9}", |f| f.index_new = true)] };
    let list = status.classify(&StatusOptions::default()).unwrap();
    assert_eq!(summary(&list), vec![("caf\u{e9}".to_string(), Location::Index, Change::New)]);
}

#[test]
fn unstaged_rename_is_one_entry() {
    let status = Status { entries: vec![entry("moved.rs", |f| f.wt_renamed = true)] };
    let list = status.classify(&StatusOptions::default()).unwrap();
    assert_eq!(
        summary(&list),
        vec![("moved.rs".to_string(), Location::WorkingTree, Change::Renamed)]
    );
}
