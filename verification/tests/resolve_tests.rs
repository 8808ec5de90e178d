use porcelain::graph::CommitGraph;
use porcelain::oid::Oid;
use porcelain::resolve::{Pattern, Refs, ResolveError};

#[test]
fn test_head() {
    let pattern = "HEAD";
    let (input, pattern) = Pattern::parse(pattern).unwrap();
    assert_eq!(input, "");
    assert_eq!(pattern, Pattern::Head);
}

#[test]
fn test_parent() {
    let pattern = "main~2";
    let (input, pattern) = Pattern::parse(pattern).unwrap();
    assert_eq!(input, "");
    assert_eq!(
        pattern,
        Pattern::Parent((2, Box::new(Pattern::Branch("main"))))
    );
}

#[test]
fn at_is_head() {
    assert_eq!(Pattern::parse("@").unwrap(), ("", Pattern::Head));
    assert_eq!(
        Pattern::parse("@~1").unwrap(),
        ("", Pattern::Parent((1, Box::new(Pattern::Head))))
    );
    assert_eq!(
        Pattern::parse("HEAD~+3 rest").unwrap(),
        (" rest", Pattern::Parent((3, Box::new(Pattern::Head))))
    );
}

#[test]
fn branch_stops_at_marks() {
    assert_eq!(Pattern::parse("feat/x").unwrap(), ("", Pattern::Branch("feat/x")));
    assert_eq!(Pattern::parse("main^").unwrap(), ("^", Pattern::Branch("main")));
    assert_eq!(Pattern::parse("main~").unwrap(), ("~", Pattern::Branch("main")));
    assert_eq!(Pattern::parse("main~x").unwrap(), ("~x", Pattern::Branch("main")));
    assert_eq!(Pattern::parse("").unwrap(), ("", Pattern::Branch("")));
    assert_eq!(Pattern::parse("HEADER").unwrap(), ("ER", Pattern::Head));
}

#[test]
fn number_must_fit() {
    assert_eq!(
        Pattern::parse("a~2147483647").unwrap(),
        ("", Pattern::Parent((2147483647, Box::new(Pattern::Branch("a")))))
    );
    assert_eq!(Pattern::parse("a~2147483648").unwrap(), ("~2147483648", Pattern::Branch("a")));
    assert_eq!(
        Pattern::parse("a~-1").unwrap(),
        ("", Pattern::Parent((usize::MAX, Box::new(Pattern::Branch("a")))))
    );
    assert_eq!(
        Pattern::parse("a~-0").unwrap(),
        ("", Pattern::Parent((0, Box::new(Pattern::Branch("a")))))
    );
}

fn id_of(n: u8) -> Oid {
    let mut bytes = [0u8; 20];
    bytes[0] = n;
    Oid { bytes }
}

#[test]
fn patterns_name_commits() {
    let mut repo = CommitGraph::new();
    repo.add(id_of(1), vec![], String::new(), false);
    repo.add(id_of(2), vec![0], String::new(), false);
    repo.add(id_of(3), vec![1], String::new(), false);
    let refs = Refs {
        head: Some(2),
        branches: vec![("main".to_string(), 2), ("old".to_string(), 0)],
    };
    let resolve = |text: &str| Pattern::parse(text).unwrap().1.resolve(&repo, &refs);
    assert_eq!(resolve("HEAD"), Ok(Some(2)));
    assert_eq!(resolve("main"), Ok(Some(2)));
    assert_eq!(resolve("old"), Ok(Some(0)));
    assert_eq!(resolve("gone"), Ok(None));
    assert_eq!(resolve("main~1"), Ok(Some(1)));
    assert_eq!(resolve("@~2"), Ok(Some(0)));
    assert_eq!(resolve("main~3"), Ok(None));
    assert_eq!(resolve("main~-1"), Ok(None));
    assert_eq!(resolve("gone~1"), Ok(None));
    assert_eq!(resolve("main~0"), Ok(Some(2)));
    let unborn = Refs { head: None, branches: vec![] };
    assert_eq!(
        Pattern::parse("HEAD~1").unwrap().1.resolve(&repo, &unborn),
        Err(ResolveError::NoHead)
    );
    assert_eq!(refs.branch("old"), Some(0));
}
