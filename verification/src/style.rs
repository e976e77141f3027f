use vstd::prelude::*;

verus! {

/// Terminal colour of a piece of text.
#[derive(Debug, Clone, Copy, PartialEq, Eq, Structural)]
pub enum Color {
    Plain,
    Red,
    Yellow,
    Cyan,
    BrightBlack,
    BrightRed,
    BrightGreen,
    BrightYellow,
    BrightBlue,
    BrightMagenta,
    BrightCyan,
    BrightWhite,
}

/// How a piece of text is rendered on a terminal.
#[derive(Debug, Clone, Copy, PartialEq, Eq, Structural)]
pub struct Style {
    pub color: Color,
    pub bold: bool,
    pub dimmed: bool,
}

/// A piece of text and its rendering; a line of output is a sequence of segments.
#[derive(Debug, Clone)]
pub struct Segment {
    pub text: String,
    pub style: Style,
}

impl View for Segment {
    type V = (Seq<char>, Style);

    open spec fn view(&self) -> (Seq<char>, Style) {
        (self.text@, self.style)
    }
}

/// The text and rendering of each segment of a line.
pub open spec fn line_view(line: Seq<Segment>) -> Seq<(Seq<char>, Style)> {
    line.map_values(|s: Segment| s@)
}

/// The views of a sequence of lines.
pub open spec fn lines_view(lines: Seq<Vec<Segment>>) -> Seq<Seq<(Seq<char>, Style)>> {
    lines.map_values(|l: Vec<Segment>| line_view(l@))
}

/// A style given by colour, boldness and dimming.
pub open spec fn sty(color: Color, bold: bool, dimmed: bool) -> Style {
    Style { color, bold, dimmed }
}

/// Unstyled text.
pub open spec fn plain() -> Style {
    sty(Color::Plain, false, false)
}

/// A segment with a copy of `text`.
pub fn seg(text: &str, color: Color, bold: bool, dimmed: bool) -> (s: Segment)
    ensures
        s@ == (text@, sty(color, bold, dimmed)),
{
    Segment { text: text.to_owned(), style: Style { color, bold, dimmed } }
}

/// A segment that takes `text`.
pub fn seg_owned(text: String, color: Color, bold: bool, dimmed: bool) -> (s: Segment)
    ensures
        s@ == (text@, sty(color, bold, dimmed)),
{
    Segment { text, style: Style { color, bold, dimmed } }
}

/// An unstyled segment with a copy of `text`.
pub fn seg_plain(text: &str) -> (s: Segment)
    ensures
        s@ == (text@, plain()),
{
    seg(text, Color::Plain, false, false)
}

/// Appends a line to a list of lines.
pub fn push_line(out: &mut Vec<Vec<Segment>>, line: Vec<Segment>)
    ensures
        lines_view(final(out)@) == lines_view(old(out)@).push(line_view(line@)),
{
    let ghost before = out@;
    out.push(line);
    assert(lines_view(out@) =~= lines_view(before).push(line_view(line@)));
}

/// Appends lines to a list of lines.
pub fn push_lines(out: &mut Vec<Vec<Segment>>, more: Vec<Vec<Segment>>)
    ensures
        lines_view(final(out)@) == lines_view(old(out)@) + lines_view(more@),
{
    let ghost before = out@;
    let ghost added = more@;
    let mut more = more;
    out.append(&mut more);
    assert(lines_view(out@) =~= lines_view(before) + lines_view(added));
}

} // verus!
