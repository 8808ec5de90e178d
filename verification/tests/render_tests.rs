use porcelain::oid::Oid;
use porcelain::term::node::{message_with_icon, Attribute, Icon, Indicator, Node, Status};
use porcelain::term::render::{plain_text, render, Color, Span, TermRenderer};

fn text(s: &str) -> Node {
    Node::Text(s.to_string())
}

fn shown(node: &Node) -> String {
    plain_text(&render(node))
}

fn look(span: &Span) -> (Option<Color>, bool, bool, Option<Color>) {
    (span.style.color, span.style.bold, span.style.dimmed, span.outer)
}

#[test]
fn text_and_empty() {
    assert_eq!(shown(&text("hello")), "hello");
    assert_eq!(shown(&Node::Empty), "");
    assert!(render(&Node::Empty).is_empty());
    assert_eq!(shown(&Node::spacer()), " ");
}

#[test]
fn lists_and_separators() {
    let block = Node::Block(vec![text("a"), text("b"), text("c")]);
    assert_eq!(shown(&block), "abc");
    let lines = Node::MultiLine(vec![text("a"), text("b"), text("c")]);
    assert_eq!(shown(&lines), "a\nb\nc");
    let crumbs = Node::Breadcrumb(vec![text("a"), text("b")]);
    assert_eq!(shown(&crumbs), "a \u{203a} b");
    assert_eq!(shown(&Node::MultiLine(vec![])), "");
    assert_eq!(shown(&Node::MultiLine(vec![text("only")])), "only");
}

#[test]
fn wrappers() {
    assert_eq!(shown(&Node::Continued(Box::new(text("x")))), "\u{21aa} x");
    assert_eq!(shown(&Node::Label(Box::new(text("x")))), "(x)");
    assert_eq!(shown(&Node::Column(Box::new(text("k")), Box::new(text("v")))), "k: v");
    assert_eq!(shown(&message_with_icon(Icon::Check, "done")), "\u{2713} done");
}

#[test]
fn icons_and_indicators() {
    assert_eq!(shown(&Node::Icon(Icon::ArrowUp)), "\u{2191}");
    assert_eq!(shown(&Node::Icon(Icon::ArrowDown)), "\u{2193}");
    assert_eq!(shown(&Node::Icon(Icon::Lock)), "\u{26bf}");
    assert_eq!(shown(&Node::Indicator(Indicator::Unknown)), "?");
    assert_eq!(shown(&Node::Indicator(Indicator::Conflict)), "\u{26a0}");
    assert_eq!(shown(&Node::Indicator(Indicator::New)), "\u{271a}");
    assert_eq!(shown(&Node::Indicator(Indicator::Modified)), "~");
    assert_eq!(shown(&Node::Indicator(Indicator::Renamed)), "\u{279c}");
    assert_eq!(shown(&Node::Indicator(Indicator::Deleted)), "\u{2716}");
    let spans = render(&Node::Indicator(Indicator::Deleted));
    assert_eq!(look(&spans[0]), (Some(Color::Red), false, false, None));
}

#[test]
fn attributes() {
    let id = Oid::from_hex("0123456789abcdef0123456789abcdef01234567").unwrap();
    assert_eq!(shown(&Node::Attribute(Attribute::CommitShort(id))), "0123456");
    assert_eq!(
        shown(&Node::Attribute(Attribute::Commit(id))),
        "0123456789abcdef0123456789abcdef01234567"
    );
    assert_eq!(shown(&Node::Attribute(Attribute::Tag("v1".to_string()))), "#v1");
    assert_eq!(shown(&Node::Attribute(Attribute::Branch("main".to_string()))), "\u{e0a0} main");
    assert_eq!(shown(&Node::Attribute(Attribute::Remote("origin".to_string()))), "\u{2b21} origin");
    assert_eq!(shown(&Node::Attribute(Attribute::Operation("pick".to_string()))), "\u{21bb} pick");
    let spans = render(&Node::Attribute(Attribute::Remote("origin".to_string())));
    assert_eq!(look(&spans[0]), (Some(Color::Cyan), false, false, None));
}

#[test]
fn group_with_and_without_count() {
    let group = Node::Group("Staged".to_string(), Some(12), Box::new(text("body")));
    assert_eq!(shown(&group), "\nStaged (12)\nbody");
    let spans = render(&group);
    assert_eq!(spans.len(), 6);
    assert_eq!(look(&spans[1]), (Some(Color::Header), true, false, None));
    assert_eq!(spans[3].text, "(12)");
    assert_eq!(look(&spans[3]), (None, false, true, None));
    let group = Node::Group("Staged".to_string(), None, Box::new(text("body")));
    assert_eq!(shown(&group), "\nStaged\nbody");
    let group = Node::Group("n".to_string(), Some(0), Box::new(Node::Empty));
    assert_eq!(shown(&group), "\nn (0)\n");
}

#[test]
fn colours_are_laid_over() {
    let node = Node::Block(vec![
        text("a"),
        Node::Indicator(Indicator::New).with_status(Status::Error),
        Node::Dimmed(Box::new(text("b"))),
        Node::Status(Status::Warning, Box::new(Node::Dimmed(Box::new(text("c"))))),
        Node::Icon(Icon::ArrowUp).with_status(Status::Success),
        Node::Icon(Icon::Check).with_status(Status::Success),
    ]);
    let spans = render(&node);
    assert_eq!(look(&spans[0]), (None, false, false, None));
    assert_eq!(look(&spans[1]), (Some(Color::Green), false, false, Some(Color::Red)));
    assert_eq!(look(&spans[2]), (None, false, false, Some(Color::BrightBlack)));
    assert_eq!(look(&spans[3]), (None, false, false, Some(Color::BrightBlack)));
    assert_eq!(look(&spans[4]), (None, false, false, None));
    assert_eq!(look(&spans[5]), (None, false, false, Some(Color::Green)));
}

#[test]
fn full_commit_id_is_not_overlaid() {
    let id = Oid::from_hex("01").unwrap();
    let node = Node::Dimmed(Box::new(Node::Block(vec![
        Node::Attribute(Attribute::Commit(id)),
        Node::Attribute(Attribute::CommitShort(id)),
    ])));
    let spans = render(&node);
    assert_eq!(spans[0].outer, None);
    assert_eq!(spans[1].outer, Some(Color::BrightBlack));
}

#[test]
fn renderer_collects() {
    let mut r = TermRenderer::new();
    r.render(&text("a"));
    r.renderln(&text("b"));
    r.render_with(&text("c"), Color::Red);
    r.render(&text("d"));
    assert_eq!(plain_text(&r.spans), "ab\ncd");
    assert_eq!(r.spans[3].outer, Some(Color::Red));
    assert_eq!(r.spans[4].outer, None);
}

#[test]
fn node_helpers() {
    assert_eq!(shown(&Node::text_head_1("first\nsecond")), "first");
    assert_eq!(shown(&Node::text_head_1("")), "");
    assert_eq!(shown(&Node::text_head_1("\nx")), "");
    assert_eq!(shown(&Node::text_capped("short", 10)), "short");
    assert_eq!(shown(&Node::text_capped("0123456789", 8)), "01234...");
    assert_eq!(shown(&Node::text_capped("0123456789", 10)), "0123456789");
    assert_eq!(shown(&Node::text_capped("\u{e9}\u{e9}\u{e9}\u{e9}", 7)), "\u{e9}\u{e9}...");
}
