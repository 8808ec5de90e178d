use porcelain::oid::Oid;
use porcelain::remote::{
    check, parse_sideband_progress, progress_of, sideband_op, ProgressEvent, Rejected,
    RemoteOpts, SidebandOp, Update,
};

fn oid(hex: &str) -> Oid {
    Oid::from_hex(hex).unwrap()
}

fn update(src: Oid, dst: Oid) -> Update {
    Update { src, dst, refname: "main".to_string() }
}

#[test]
fn check_accepts_expected_source() {
    let x = oid("aa");
    let y = oid("bb");
    assert_eq!(check(Some(x), &vec![update(x, y)]), Ok(()));
}

#[test]
fn check_rejects_other_source() {
    let x = oid("aa");
    let y = oid("bb");
    let z = oid("cc");
    assert_eq!(check(Some(x), &vec![update(z, y)]), Err(Rejected));
    assert_eq!(Rejected.message(), "update rejected (outdated)");
}

#[test]
fn check_accepts_creation() {
    let x = oid("aa");
    let y = oid("bb");
    assert_eq!(check(Some(x), &vec![update(Oid::zero(), y)]), Ok(()));
    assert_eq!(check(Some(x), &vec![]), Ok(()));
    assert_eq!(check(Some(x), &vec![update(Oid::zero(), y), update(oid("cc"), y)]), Err(Rejected));
    assert_eq!(check(Some(x), &vec![update(oid("cc"), y), update(x, y)]), Ok(()));
}

#[test]
fn check_without_expected_accepts() {
    assert_eq!(check(None, &vec![update(oid("cc"), oid("dd"))]), Ok(()));
}

#[test]
fn opts_guard_and_updates() {
    let x = oid("aa");
    let mut opts = RemoteOpts::default().with_compare(x);
    assert_eq!(opts.push_negotiation(&vec![update(oid("cc"), x)]), Err(Rejected));
    assert_eq!(opts.push_negotiation(&vec![update(x, oid("cc"))]), Ok(()));
    assert!(opts.update_tips("refs/heads/main", x, oid("cc")));
    let reply = opts.into_reply();
    assert_eq!(reply.updates.len(), 1);
    assert_eq!(reply.updates[0].refname, "refs/heads/main");
    assert!(reply.updates[0].src.same(&x));
    assert!(reply.updates[0].dst.same(&oid("cc")));
}

#[test]
fn sideband_progress_line() {
    let r = parse_sideband_progress(b"Counting objects:  42% (21/50)");
    assert_eq!(r, Some(("Counting".to_string(), 21, 50)));
    let r = parse_sideband_progress(b"remote: Compressing objects: 100% (7/7), done.");
    assert_eq!(r, Some(("Compressing".to_string(), 7, 7)));
    let r = parse_sideband_progress(b"Resolving deltas:   0% (0/12)");
    assert_eq!(r, Some(("Resolving".to_string(), 0, 12)));
}

#[test]
fn sideband_other_line() {
    assert_eq!(parse_sideband_progress(b"remote: hello"), None);
    assert_eq!(parse_sideband_progress(&[0xff, 0xfe]), None);
    assert_eq!(parse_sideband_progress(b"Counting objects: 1% (x/3)"), None);
}

#[test]
fn sideband_count_that_does_not_fit_is_zero() {
    let r = parse_sideband_progress(b"Counting objects: 1% (99999999999999999999999999/3)");
    assert_eq!(r, Some(("Counting".to_string(), 0, 3)));
}

#[test]
fn progress_from_groups() {
    let groups = vec![
        Some("whole".to_string()),
        Some("Counting".to_string()),
        Some("3".to_string()),
        Some("+9".to_string()),
    ];
    assert_eq!(progress_of(&groups), Some(("Counting".to_string(), 3, 9)));
    let groups = vec![Some("whole".to_string()), None, Some("3".to_string()), Some("9".to_string())];
    assert_eq!(progress_of(&groups), None);
    let groups = vec![Some("a".to_string()), Some("b".to_string()), Some("c".to_string())];
    assert_eq!(progress_of(&groups), None);
    let groups = vec![
        Some("whole".to_string()),
        Some("k".to_string()),
        Some("".to_string()),
        Some("1_0".to_string()),
    ];
    assert_eq!(progress_of(&groups), Some(("k".to_string(), 0, 0)));
}

#[test]
fn sideband_op_names() {
    assert_eq!(sideband_op("Counting"), Some(SidebandOp::Counting));
    assert_eq!(sideband_op("Compressing"), Some(SidebandOp::Compressing));
    assert_eq!(sideband_op("Resolving"), Some(SidebandOp::Resolving));
    assert_eq!(sideband_op("Receiving"), None);
}

#[test]
fn opts_route_sideband() {
    let mut quiet = RemoteOpts::default();
    assert_eq!(quiet.sideband_progress(b"remote: hello"), None);
    assert!(quiet.stdout.is_empty());

    let mut opts = RemoteOpts::default().with_progress();
    assert_eq!(
        opts.sideband_progress(b"Counting objects:  42% (21/50)"),
        Some(ProgressEvent::Sideband(SidebandOp::Counting, 21, 50))
    );
    assert!(opts.stdout.is_empty());
    assert_eq!(opts.sideband_progress(b"remote: hello\n"), None);
    assert_eq!(opts.sideband_progress(b"bye"), None);
    assert_eq!(opts.into_reply().stdout, b"remote: hello\nbye".to_vec());
}
