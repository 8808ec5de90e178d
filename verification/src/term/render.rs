//! Layout of a document as a sequence of styled pieces of text.
//!
//! The renderer decides what is written and in which style; putting the
//! pieces on a terminal is left to the caller.

use vstd::prelude::*;
use crate::oid::hex_string;
use crate::term::node::{
    model, models, Attribute, AttributeModel, Icon, Indicator, Node, NodeModel, Status,
};
use crate::text::{decimal, decimal_string};

verus! {

#[derive(Clone, Copy, Debug, PartialEq, Eq, Structural)]
pub enum Color {
    Red,
    Green,
    Yellow,
    Blue,
    Cyan,
    BrightBlack,
    /// The colour of a heading.
    Header,
}

/// How a piece of text looks by itself.
#[derive(Clone, Copy, Debug, PartialEq, Eq, Structural)]
pub struct Style {
    pub color: Option<Color>,
    pub bold: bool,
    pub dimmed: bool,
}

/// A piece of text with its own style and the colour of what surrounds it.
#[derive(Debug)]
pub struct Span {
    pub text: String,
    pub style: Style,
    /// The colour laid over the piece by an enclosing node.
    pub outer: Option<Color>,
}

/// A span as plain values.
pub struct SpanModel {
    pub text: Seq<char>,
    pub style: Style,
    pub outer: Option<Color>,
}

impl View for Span {
    type V = SpanModel;

    open spec fn view(&self) -> SpanModel {
        SpanModel { text: self.text@, style: self.style, outer: self.outer }
    }
}

pub open spec fn plain() -> Style {
    Style { color: None, bold: false, dimmed: false }
}

pub open spec fn colored(color: Color) -> Style {
    Style { color: Some(color), bold: false, dimmed: false }
}

pub open spec fn piece(text: Seq<char>, style: Style, outer: Option<Color>) -> Seq<SpanModel> {
    seq![SpanModel { text, style, outer }]
}

pub open spec fn status_color(status: Status) -> Color {
    match status {
        Status::Error => Color::Red,
        Status::Warning => Color::Yellow,
        Status::Success => Color::Green,
    }
}

pub open spec fn icon_text(icon: Icon) -> Seq<char> {
    match icon {
        Icon::ArrowUp => "\u{2191}"@,
        Icon::ArrowDown => "\u{2193}"@,
        Icon::Lock => "\u{26bf}"@,
        Icon::Check => "\u{2713}"@,
    }
}

pub open spec fn indicator_text(indicator: Indicator) -> Seq<char> {
    match indicator {
        Indicator::Unknown => "?"@,
        Indicator::Conflict => "\u{26a0}"@,
        Indicator::New => "\u{271a}"@,
        Indicator::Modified => "~"@,
        Indicator::Renamed => "\u{279c}"@,
        Indicator::Deleted => "\u{2716}"@,
    }
}

pub open spec fn indicator_color(indicator: Indicator) -> Color {
    match indicator {
        Indicator::Unknown => Color::BrightBlack,
        Indicator::Conflict => Color::Yellow,
        Indicator::New => Color::Green,
        Indicator::Modified => Color::Yellow,
        Indicator::Renamed => Color::Yellow,
        Indicator::Deleted => Color::Red,
    }
}

/// The styled text of an attribute. A full commit id is never overlaid.
pub open spec fn attribute_spans(attr: AttributeModel, outer: Option<Color>) -> Seq<SpanModel> {
    match attr {
        AttributeModel::CommitShort(oid) => piece(
            hex_string(oid).subrange(0, 7),
            colored(Color::Yellow),
            outer,
        ),
        AttributeModel::Commit(oid) => piece(hex_string(oid), colored(Color::Yellow), None),
        AttributeModel::Tag(name) => piece("#"@ + name, colored(Color::Blue), outer),
        AttributeModel::Branch(name) => piece("\u{e0a0} "@ + name, colored(Color::Blue), outer),
        AttributeModel::Remote(name) => piece("\u{2b21} "@ + name, colored(Color::Cyan), outer),
        AttributeModel::Operation(name) => piece("\u{21bb} "@ + name, colored(Color::Cyan), outer),
    }
}

/// The styled text of a document under the colour `outer`.
pub open spec fn spec_render(node: NodeModel, outer: Option<Color>) -> Seq<SpanModel>
    decreases node, 0nat,
{
    match node {
        NodeModel::Empty => Seq::empty(),
        NodeModel::Text(text) => piece(text, plain(), outer),
        NodeModel::Dimmed(inner) => spec_render(*inner, Some(Color::BrightBlack)),
        NodeModel::Status(status, inner) => spec_render(*inner, Some(status_color(status))),
        NodeModel::Block(children) => spec_render_list(children, children.len(), None, outer),
        NodeModel::MultiLine(children) => spec_render_list(
            children,
            children.len(),
            Some("\n"@),
            outer,
        ),
        NodeModel::Breadcrumb(children) => spec_render_list(
            children,
            children.len(),
            Some(" \u{203a} "@),
            outer,
        ),
        NodeModel::Continued(inner) => piece("\u{21aa} "@, plain(), outer) + spec_render(
            *inner,
            outer,
        ),
        NodeModel::Label(inner) => piece(
            "("@,
            Style { color: None, bold: false, dimmed: true },
            outer,
        ) + spec_render(*inner, outer) + piece(
            ")"@,
            Style { color: None, bold: false, dimmed: true },
            outer,
        ),
        NodeModel::Column(left, right) => spec_render(*left, outer) + piece(": "@, plain(), outer)
            + spec_render(*right, outer),
        NodeModel::Icon(icon) => piece(
            icon_text(icon),
            plain(),
            if icon == Icon::ArrowUp {
                None
            } else {
                outer
            },
        ),
        NodeModel::Indicator(indicator) => piece(
            indicator_text(indicator),
            colored(indicator_color(indicator)),
            outer,
        ),
        NodeModel::Attribute(attr) => attribute_spans(attr, outer),
        NodeModel::Group(heading, count, inner) => piece("\n"@, plain(), outer) + piece(
            heading,
            Style { color: Some(Color::Header), bold: true, dimmed: false },
            outer,
        ) + (match count {
            Some(n) => piece(" "@, plain(), outer) + piece(
                "("@ + decimal(n as nat) + ")"@,
                Style { color: None, bold: false, dimmed: true },
                outer,
            ),
            None => Seq::empty(),
        }) + piece("\n"@, plain(), outer) + spec_render(*inner, outer),
    }
}

/// The styled text of the first `n` nodes of a list, with `between` written
/// before every node but the first.
pub open spec fn spec_render_list(
    nodes: Seq<NodeModel>,
    n: nat,
    between: Option<Seq<char>>,
    outer: Option<Color>,
) -> Seq<SpanModel>
    decreases nodes, n,
{
    if n == 0 || n > nodes.len() {
        Seq::empty()
    } else {
        spec_render_list(nodes, (n - 1) as nat, between, outer) + (match between {
            Some(text) => if n > 1 {
                piece(text, plain(), outer)
            } else {
                Seq::empty()
            },
            None => Seq::empty(),
        }) + spec_render(nodes[n - 1], outer)
    }
}

/// The spans of `spans`, each as plain values.
pub open spec fn views(spans: Seq<Span>) -> Seq<SpanModel> {
    spans.map_values(|s: Span| s@)
}

fn push_piece(out: &mut Vec<Span>, text: String, style: Style, outer: Option<Color>)
    ensures
        views(final(out)@) == views(old(out)@) + piece(text@, style, outer),
{
    out.push(Span { text, style, outer });
    assert(views(out@) =~= views(old(out)@) + piece(text@, style, outer));
}

fn style_plain() -> (s: Style)
    ensures
        s == plain(),
{
    Style { color: None, bold: false, dimmed: false }
}

fn style_dimmed() -> (s: Style)
    ensures
        s == (Style { color: None, bold: false, dimmed: true }),
{
    Style { color: None, bold: false, dimmed: true }
}

fn style_colored(color: Color) -> (s: Style)
    ensures
        s == colored(color),
{
    Style { color: Some(color), bold: false, dimmed: false }
}

fn render_attribute(attr: &Attribute, outer: Option<Color>, out: &mut Vec<Span>)
    ensures
        views(final(out)@) == views(old(out)@) + attribute_spans(attr@, outer),
{
    match attr {
        Attribute::CommitShort(oid) => {
            let hex = oid.to_hex();
            let short = hex.as_str().substring_char(0, 7).to_string();
            push_piece(out, short, style_colored(Color::Yellow), outer);
        },
        Attribute::Commit(oid) => {
            push_piece(out, oid.to_hex(), style_colored(Color::Yellow), None);
        },
        Attribute::Tag(name) => {
            push_piece(
                out,
                "#".to_string().concat(name.as_str()),
                style_colored(Color::Blue),
                outer,
            );
        },
        Attribute::Branch(name) => {
            push_piece(
                out,
                "\u{e0a0} ".to_string().concat(name.as_str()),
                style_colored(Color::Blue),
                outer,
            );
        },
        Attribute::Remote(name) => {
            push_piece(
                out,
                "\u{2b21} ".to_string().concat(name.as_str()),
                style_colored(Color::Cyan),
                outer,
            );
        },
        Attribute::Operation(name) => {
            push_piece(
                out,
                "\u{21bb} ".to_string().concat(name.as_str()),
                style_colored(Color::Cyan),
                outer,
            );
        },
    }
}

fn render_list(
    children: &Vec<Node>,
    between: Option<&str>,
    outer: Option<Color>,
    out: &mut Vec<Span>,
    Ghost(parent): Ghost<Node>,
)
    requires
        forall|i: int| 0 <= i < children@.len() ==> decreases_to!(parent => children@[i]),
    ensures
        views(final(out)@) == views(old(out)@) + spec_render_list(
            models(children@),
            children@.len(),
            match between {
                Some(text) => Some(text@),
                None => None,
            },
            outer,
        ),
    decreases parent, 0nat,
{
    let ghost sep = match between {
        Some(text) => Some(text@),
        None => None,
    };
    let mut i: usize = 0;
    assert(views(out@) =~= views(old(out)@) + spec_render_list(models(children@), 0, sep, outer));
    while i < children.len()
        invariant
            i <= children@.len(),
            sep == match between {
                Some(text) => Some(text@),
                None => None,
            },
            forall|i: int| 0 <= i < children@.len() ==> decreases_to!(parent => children@[i]),
            views(out@) == views(old(out)@) + spec_render_list(
                models(children@),
                i as nat,
                sep,
                outer,
            ),
        decreases children@.len() - i,
    {
        let ghost before = views(out@);
        let ghost done = spec_render_list(models(children@), i as nat, sep, outer);
        match between {
            Some(text) => {
                if i > 0 {
                    push_piece(out, text.to_string(), style_plain(), outer);
                }
            },
            None => {},
        }
        let ghost mid = views(out@);
        render_into(&children[i], outer, out);
        i += 1;
        proof {
            let gap = match sep {
                Some(text) => if i > 1 {
                    piece(text, plain(), outer)
                } else {
                    Seq::empty()
                },
                None => Seq::empty(),
            };
            assert(mid =~= before + gap);
            assert(models(children@)[i - 1] == model(children@[i - 1]));
            assert(views(out@) =~= views(old(out)@) + (done + gap + spec_render(
                model(children@[i - 1]),
                outer,
            )));
        }
    }
}

/// Appends the styled text of `node` under the colour `outer` to `out`.
pub fn render_into(node: &Node, outer: Option<Color>, out: &mut Vec<Span>)
    ensures
        views(final(out)@) == views(old(out)@) + spec_render(model(*node), outer),
    decreases *node, 1nat,
{
    let ghost start = views(out@);
    match node {
        Node::Empty => {
            assert(start =~= start + Seq::<SpanModel>::empty());
        },
        Node::Text(text) => {
            push_piece(out, text.clone(), style_plain(), outer);
        },
        Node::Dimmed(inner) => {
            render_into(inner, Some(Color::BrightBlack), out);
        },
        Node::Status(status, inner) => {
            let color = match status {
                Status::Error => Color::Red,
                Status::Warning => Color::Yellow,
                Status::Success => Color::Green,
            };
            render_into(inner, Some(color), out);
        },
        Node::Block(children) => {
            render_list(children, None, outer, out, Ghost(*node));
        },
        Node::MultiLine(children) => {
            render_list(children, Some("\n"), outer, out, Ghost(*node));
        },
        Node::Breadcrumb(children) => {
            render_list(children, Some(" \u{203a} "), outer, out, Ghost(*node));
        },
        Node::Continued(inner) => {
            push_piece(out, "\u{21aa} ".to_string(), style_plain(), outer);
            render_into(inner, outer, out);
            assert(views(out@) =~= start + spec_render(model(*node), outer));
        },
        Node::Label(inner) => {
            push_piece(out, "(".to_string(), style_dimmed(), outer);
            render_into(inner, outer, out);
            push_piece(out, ")".to_string(), style_dimmed(), outer);
            assert(views(out@) =~= start + spec_render(model(*node), outer));
        },
        Node::Column(left, right) => {
            render_into(left, outer, out);
            push_piece(out, ": ".to_string(), style_plain(), outer);
            render_into(right, outer, out);
            assert(views(out@) =~= start + spec_render(model(*node), outer));
        },
        Node::Icon(icon) => {
            match icon {
                Icon::ArrowUp => push_piece(out, "\u{2191}".to_string(), style_plain(), None),
                Icon::ArrowDown => push_piece(out, "\u{2193}".to_string(), style_plain(), outer),
                Icon::Lock => push_piece(out, "\u{26bf}".to_string(), style_plain(), outer),
                Icon::Check => push_piece(out, "\u{2713}".to_string(), style_plain(), outer),
            }
        },
        Node::Indicator(indicator) => {
            match indicator {
                Indicator::Unknown => push_piece(
                    out,
                    "?".to_string(),
                    style_colored(Color::BrightBlack),
                    outer,
                ),
                Indicator::Conflict => push_piece(
                    out,
                    "\u{26a0}".to_string(),
                    style_colored(Color::Yellow),
                    outer,
                ),
                Indicator::New => push_piece(
                    out,
                    "\u{271a}".to_string(),
                    style_colored(Color::Green),
                    outer,
                ),
                Indicator::Modified => push_piece(
                    out,
                    "~".to_string(),
                    style_colored(Color::Yellow),
                    outer,
                ),
                Indicator::Renamed => push_piece(
                    out,
                    "\u{279c}".to_string(),
                    style_colored(Color::Yellow),
                    outer,
                ),
                Indicator::Deleted => push_piece(
                    out,
                    "\u{2716}".to_string(),
                    style_colored(Color::Red),
                    outer,
                ),
            }
        },
        Node::Attribute(attr) => {
            render_attribute(attr, outer, out);
        },
        Node::Group(heading, count, inner) => {
            push_piece(out, "\n".to_string(), style_plain(), outer);
            push_piece(
                out,
                heading.clone(),
                Style { color: Some(Color::Header), bold: true, dimmed: false },
                outer,
            );
            match count {
                Some(n) => {
                    push_piece(out, " ".to_string(), style_plain(), outer);
                    let digits = decimal_string(*n);
                    push_piece(
                        out,
                        "(".to_string().concat(digits.as_str()).concat(")"),
                        style_dimmed(),
                        outer,
                    );
                },
                None => {},
            }
            push_piece(out, "\n".to_string(), style_plain(), outer);
            render_into(inner, outer, out);
            assert(views(out@) =~= start + spec_render(model(*node), outer));
        },
    }
}

/// The styled text of `node`.
pub fn render(node: &Node) -> (out: Vec<Span>)
    ensures
        views(out@) == spec_render(model(*node), None),
{
    let mut out: Vec<Span> = Vec::new();
    render_into(node, None, &mut out);
    assert(views(out@) =~= spec_render(model(*node), None));
    out
}

/// Collects the styled text of the documents that are rendered into it.
#[derive(Debug)]
pub struct TermRenderer {
    pub spans: Vec<Span>,
    /// The colour laid over what is rendered next.
    pub color: Option<Color>,
}

impl TermRenderer {
    /// A renderer that holds no text and lays no colour over it.
    pub fn new() -> (r: TermRenderer)
        ensures
            r.spans@.len() == 0,
            r.color is None,
    {
        TermRenderer { spans: Vec::new(), color: None }
    }

    /// Appends the styled text of `node`.
    pub fn render(&mut self, node: &Node)
        ensures
            final(self).color == old(self).color,
            views(final(self).spans@) == views(old(self).spans@) + spec_render(
                model(*node),
                old(self).color,
            ),
    {
        render_into(node, self.color, &mut self.spans);
    }

    /// Appends the styled text of `node` and ends the line.
    pub fn renderln(&mut self, node: &Node)
        ensures
            final(self).color == old(self).color,
            views(final(self).spans@) == views(old(self).spans@) + spec_render(
                model(*node),
                old(self).color,
            ) + piece("\n"@, plain(), old(self).color),
    {
        render_into(node, self.color, &mut self.spans);
        push_piece(&mut self.spans, "\n".to_string(), style_plain(), self.color);
    }

    /// Appends the styled text of `node` under `color`; what is rendered
    /// afterwards is under the colour that was set before.
    pub fn render_with(&mut self, node: &Node, color: Color)
        ensures
            final(self).color == old(self).color,
            views(final(self).spans@) == views(old(self).spans@) + spec_render(
                model(*node),
                Some(color),
            ),
    {
        render_into(node, Some(color), &mut self.spans);
    }
}

/// The text of the spans, one after the other, without their styles.
pub open spec fn spec_plain_text(spans: Seq<SpanModel>, n: nat) -> Seq<char>
    decreases n,
{
    if n == 0 {
        Seq::empty()
    } else {
        spec_plain_text(spans, (n - 1) as nat) + spans[n - 1].text
    }
}

/// The text of the spans, one after the other, without their styles.
pub fn plain_text(spans: &Vec<Span>) -> (s: String)
    ensures
        s@ == spec_plain_text(views(spans@), spans@.len()),
{
    let mut s = String::new();
    let mut i: usize = 0;
    while i < spans.len()
        invariant
            i <= spans@.len(),
            s@ == spec_plain_text(views(spans@), i as nat),
        decreases spans@.len() - i,
    {
        s.append(spans[i].text.as_str());
        i += 1;
    }
    s
}

} // verus!
