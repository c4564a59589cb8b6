//! Styled text, as it goes on the screen.

use vstd::prelude::*;

verus! {

/// A colour of the terminal.
#[derive(Clone, Copy, PartialEq, Eq, Debug, Structural)]
pub enum Color {
    Black,
    Red,
    Green,
    Yellow,
    Magenta,
    Cyan,
    Gray,
    DarkGray,
    White,
}

/// How a text looks. What is not said is left as it is.
#[derive(Clone, Copy, PartialEq, Eq, Debug, Structural)]
pub struct Style {
    pub fg: Option<Color>,
    pub bg: Option<Color>,
    pub bold: bool,
}

/// Nothing said.
pub open spec fn plain_style() -> Style {
    Style { fg: None, bg: None, bold: false }
}

/// In a colour.
pub open spec fn fg_style(color: Color) -> Style {
    Style { fg: Some(color), bg: None, bold: false }
}

/// Bold, in a colour.
pub open spec fn bold_style(color: Color) -> Style {
    Style { fg: Some(color), bg: None, bold: true }
}

/// Bold, in whatever colour.
pub open spec fn strong_style() -> Style {
    Style { fg: None, bg: None, bold: true }
}

/// Bold and black, on a colour.
pub open spec fn marked_style(color: Color) -> Style {
    Style { fg: Some(Color::Black), bg: Some(color), bold: true }
}

/// Nothing said.
pub fn plain() -> (r: Style)
    ensures
        r == plain_style(),
{
    Style { fg: None, bg: None, bold: false }
}

/// In a colour.
pub fn fg(color: Color) -> (r: Style)
    ensures
        r == fg_style(color),
{
    Style { fg: Some(color), bg: None, bold: false }
}

/// Bold, in a colour.
pub fn bold(color: Color) -> (r: Style)
    ensures
        r == bold_style(color),
{
    Style { fg: Some(color), bg: None, bold: true }
}

/// Bold, in whatever colour.
pub fn strong() -> (r: Style)
    ensures
        r == strong_style(),
{
    Style { fg: None, bg: None, bold: true }
}

/// Bold and black, on a colour.
pub fn marked(color: Color) -> (r: Style)
    ensures
        r == marked_style(color),
{
    Style { fg: Some(Color::Black), bg: Some(color), bold: true }
}

/// A piece of text in one style.
#[derive(Debug, PartialEq, Eq)]
pub struct Span {
    pub text: String,
    pub style: Style,
}

/// A piece of text as a mathematical value.
#[verifier::ext_equal]
pub struct SpanView {
    pub text: Seq<char>,
    pub style: Style,
}

impl View for Span {
    type V = SpanView;

    open spec fn view(&self) -> SpanView {
        SpanView { text: self.text@, style: self.style }
    }
}

/// The values of the pieces of a line.
pub open spec fn span_views(v: Seq<Span>) -> Seq<SpanView> {
    v.map_values(|s: Span| s@)
}

/// The values of some lines.
pub open spec fn line_views(v: Seq<Vec<Span>>) -> Seq<Seq<SpanView>> {
    v.map_values(|line: Vec<Span>| span_views(line@))
}

/// A piece of text in a style.
pub open spec fn styled(text: Seq<char>, style: Style) -> SpanView {
    SpanView { text, style }
}

/// A piece of text in a style.
pub fn span(text: &str, style: Style) -> (r: Span)
    ensures
        r@ == styled(text@, style),
{
    Span { text: text.to_string(), style }
}

/// A piece of text in a style.
pub fn span_of(text: String, style: Style) -> (r: Span)
    ensures
        r@ == styled(text@, style),
{
    Span { text, style }
}

/// Adds a piece to a line.
pub fn add_span(line: &mut Vec<Span>, piece: Span)
    ensures
        span_views(final(line)@) == span_views(old(line)@).push(piece@),
{
    line.push(piece);
    assert(span_views(line@) =~= span_views(old(line)@).push(piece@));
}

/// Adds a line to some lines.
pub fn add_line(lines: &mut Vec<Vec<Span>>, line: Vec<Span>)
    ensures
        line_views(final(lines)@) == line_views(old(lines)@).push(span_views(line@)),
{
    lines.push(line);
    assert(line_views(lines@) =~= line_views(old(lines)@).push(span_views(line@)));
}

/// A line without pieces.
pub fn new_line() -> (line: Vec<Span>)
    ensures
        span_views(line@) == Seq::<SpanView>::empty(),
{
    let line: Vec<Span> = Vec::new();
    assert(span_views(line@) =~= Seq::empty());
    line
}

/// No lines.
pub fn no_lines() -> (lines: Vec<Vec<Span>>)
    ensures
        line_views(lines@) == Seq::<Seq<SpanView>>::empty(),
{
    let lines: Vec<Vec<Span>> = Vec::new();
    assert(line_views(lines@) =~= Seq::empty());
    lines
}

/// A row of a table: the text of its cells, and the style of the row itself.
#[derive(Debug, PartialEq, Eq)]
pub struct TableRow {
    pub cells: Vec<Span>,
    pub style: Style,
}

/// A row as a mathematical value.
#[verifier::ext_equal]
pub struct RowView {
    pub cells: Seq<SpanView>,
    pub style: Style,
}

impl View for TableRow {
    type V = RowView;

    open spec fn view(&self) -> RowView {
        RowView { cells: span_views(self.cells@), style: self.style }
    }
}

/// The values of the rows of a table.
pub open spec fn row_views(v: Seq<TableRow>) -> Seq<RowView> {
    v.map_values(|r: TableRow| r@)
}

// ---------- Places ----------

/// A rectangle of the screen.
#[derive(Clone, Copy, PartialEq, Eq, Debug, Structural)]
pub struct Area {
    pub x: u16,
    pub y: u16,
    pub width: u16,
    pub height: u16,
}

/// The size that fits into another with a margin of one at both ends.
pub open spec fn fitting(size: u16, outer: u16) -> int {
    if size <= outer - 2 {
        size as int
    } else if outer >= 2 {
        outer - 2
    } else {
        0
    }
}

/// A rectangle of the given size in the middle of `area`, smaller where it would not fit with
/// a margin.
pub fn centered_rect(width: u16, height: u16, area: Area) -> (r: Area)
    requires
        area.x + (area.width - fitting(width, area.width)) / 2 <= u16::MAX,
        area.y + (area.height - fitting(height, area.height)) / 2 <= u16::MAX,
    ensures
        r.width == fitting(width, area.width),
        r.height == fitting(height, area.height),
        r.x == area.x + (area.width - r.width) / 2,
        r.y == area.y + (area.height - r.height) / 2,
{
    let inner_width: u16 = area.width.saturating_sub(2);
    let inner_height: u16 = area.height.saturating_sub(2);
    let w: u16 = if width < inner_width {
        width
    } else {
        inner_width
    };
    let h: u16 = if height < inner_height {
        height
    } else {
        inner_height
    };
    let x: u16 = area.x + area.width.saturating_sub(w) / 2;
    let y: u16 = area.y + area.height.saturating_sub(h) / 2;
    Area { x, y, width: w, height: h }
}

/// A rectangle in the middle of another lies within it.
pub proof fn lemma_centered_inside(width: u16, height: u16, area: Area, r: Area)
    requires
        r.width == fitting(width, area.width),
        r.height == fitting(height, area.height),
        r.x == area.x + (area.width - r.width) / 2,
        r.y == area.y + (area.height - r.height) / 2,
    ensures
        area.x <= r.x,
        r.x + r.width <= area.x + area.width,
        area.y <= r.y,
        r.y + r.height <= area.y + area.height,
{
}

/// A rectangle keeps the size that is asked for where it fits with a margin of one all round,
/// takes all but the margin where it does not, and the margins on both sides differ by one at
/// most.
pub proof fn lemma_centered(width: u16, area: Area, r: Area)
    requires
        r.width == fitting(width, area.width),
        r.x == area.x + (area.width - r.width) / 2,
    ensures
        width + 2 <= area.width ==> r.width == width,
        width + 2 > area.width && area.width >= 2 ==> r.width == area.width - 2,
        area.width < 2 ==> r.width == 0,
        ({
            let left = r.x - area.x;
            let right = area.x + area.width - (r.x + r.width);
            left <= right <= left + 1
        }),
{
}

/// Styles are what their names say.
pub proof fn lemma_styles(color: Color)
    ensures
        plain_style() == (Style { fg: None, bg: None, bold: false }),
        strong_style() == (Style { fg: None, bg: None, bold: true }),
        fg_style(color) == (Style { fg: Some(color), bg: None, bold: false }),
        bold_style(color) == (Style { fg: Some(color), bg: None, bold: true }),
        marked_style(color) == (Style { fg: Some(Color::Black), bg: Some(color), bold: true }),
{
}

} // verus!
