//! A text in one colour, laid out line by line.

use vstd::prelude::*;
use crate::term::render::{piece, plain, views, Color, Span, SpanModel, Style};
use crate::text::{
    chars_of, find_char, index_of, lemma_index_of, line_at, line_range, next_line, string_of,
};

verus! {

/// A text with the colour and the weight it is shown in.
#[derive(Debug)]
pub struct FmtString {
    pub bold: bool,
    pub content: String,
    pub color: Option<Color>,
}

/// The lines of a text from `start` on, each in `style`, with a plain line
/// feed between two of them.
pub open spec fn styled_lines(s: Seq<char>, start: int, style: Style) -> Seq<SpanModel>
    decreases s.len() - start,
{
    if start < 0 || start >= s.len() {
        Seq::empty()
    } else {
        proof {
            lemma_index_of(s, '\n', start);
        }
        (if start > 0 {
            piece("\n"@, plain(), None)
        } else {
            Seq::empty()
        }) + piece(line_at(s, start), style, None) + styled_lines(s, next_line(s, start), style)
    }
}

impl FmtString {
    /// The style of the text.
    pub open spec fn style(&self) -> Style {
        Style { color: self.color, bold: self.bold, dimmed: false }
    }

    /// How the text is laid out. A coloured text of several lines is
    /// coloured line by line, so that no line feed is coloured. Any other
    /// text is one piece.
    pub open spec fn spec_spans(&self) -> Seq<SpanModel> {
        if self.color is Some && index_of(self.content@, '\n', 0) < self.content@.len() {
            styled_lines(self.content@, 0, self.style())
        } else {
            piece(self.content@, self.style(), None)
        }
    }

    /// A plain text.
    pub fn new(content: String) -> (f: FmtString)
        ensures
            f.content == content,
            !f.bold,
            f.color is None,
    {
        FmtString { content, bold: false, color: None }
    }

    pub fn with_color(self, color: Color) -> (f: FmtString)
        ensures
            f.content == self.content,
            f.bold == self.bold,
            f.color == Some(color),
    {
        FmtString { content: self.content, bold: self.bold, color: Some(color) }
    }

    pub fn with_bold(self) -> (f: FmtString)
        ensures
            f.content == self.content,
            f.bold,
            f.color == self.color,
    {
        FmtString { content: self.content, bold: true, color: self.color }
    }

    /// The styled text.
    pub fn spans(&self) -> (out: Vec<Span>)
        ensures
            views(out@) == self.spec_spans(),
    {
        let style = Style { color: self.color, bold: self.bold, dimmed: false };
        let mut out: Vec<Span> = Vec::new();
        let text = chars_of(self.content.as_str());
        let n = text.len();
        if self.color.is_none() || find_char(&text, '\n', 0) >= n {
            out.push(Span { text: self.content.clone(), style, outer: None });
            assert(views(out@) =~= piece(self.content@, style, None));
            return out;
        }
        let mut start: usize = 0;
        assert(views(out@) + styled_lines(text@, 0, style) =~= styled_lines(text@, 0, style));
        while start < n
            invariant
                text@ == self.content@,
                n == text@.len(),
                start <= n,
                views(out@) + styled_lines(text@, start as int, style) == styled_lines(
                    text@,
                    0,
                    style,
                ),
            decreases n - start,
        {
            let ghost before = views(out@);
            let ghost mid = if start > 0 {
                before + piece("\n"@, plain(), None)
            } else {
                before
            };
            if start > 0 {
                out.push(
                    Span {
                        text: "\n".to_string(),
                        style: Style { color: None, bold: false, dimmed: false },
                        outer: None,
                    },
                );
            }
            assert(views(out@) =~= mid);
            let (stop, next) = line_range(&text, start);
            out.push(Span { text: string_of(&text, start, stop), style, outer: None });
            assert(views(out@) =~= mid + piece(line_at(text@, start as int), style, None));
            assert(views(out@) + styled_lines(text@, next as int, style) =~= before + styled_lines(
                text@,
                start as int,
                style,
            ));
            start = next;
        }
        assert(views(out@) + styled_lines(text@, n as int, style) =~= views(out@));
        out
    }
}

} // verus!
