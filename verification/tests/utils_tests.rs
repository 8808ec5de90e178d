use porcelain::utils::{parse_remote, shorten, ParseRemoteError};

#[test]
fn remote_of_short_name() {
    assert_eq!(parse_remote("origin/main"), Ok("origin"));
    assert_eq!(parse_remote("origin/feat/x"), Ok("origin"));
    assert_eq!(parse_remote("/main"), Ok(""));
}

#[test]
fn remote_of_full_name() {
    assert_eq!(parse_remote("refs/remotes/origin/main"), Ok("origin"));
    assert_eq!(parse_remote("refs/remotes/upstream"), Ok("upstream"));
    assert_eq!(parse_remote("refs/remotes/"), Ok(""));
}

#[test]
fn no_remote() {
    assert_eq!(parse_remote("main"), Err(ParseRemoteError));
    assert_eq!(parse_remote("refs/heads/main"), Err(ParseRemoteError));
    assert_eq!(parse_remote(""), Err(ParseRemoteError));
    assert_eq!(ParseRemoteError.message(), "failed to parse remote");
}

#[test]
fn shorten_keeps_short_text() {
    assert_eq!(shorten("hello", 5), "hello");
    assert_eq!(shorten("", 0), "");
    assert_eq!(shorten("ab", 10), "ab");
}

#[test]
fn shorten_cuts_long_text() {
    assert_eq!(shorten("hello world", 8), "hello...");
    assert_eq!(shorten("abcd", 3), "...");
    assert_eq!(shorten("\u{e9}\u{e9}\u{e9}", 5), "\u{e9}\u{e9}...");
    assert_eq!(shorten("\u{1f600}\u{1f600}\u{1f600}", 11), "\u{1f600}\u{1f600}\u{1f600}...");
}
