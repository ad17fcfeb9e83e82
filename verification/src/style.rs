//! Styled text: colours, styles, spans, lines and list items.
use ratatui::widgets::{Paragraph, Wrap};
use vstd::prelude::*;

verus! {

/// A colour: a role of the palette, or one of the terminal's own colours.
#[derive(Clone, Copy, Debug, PartialEq, Eq, Structural)]
pub enum Color {
    BgPrimary,
    BgPanel,
    BgCard,
    BgHighlight,
    BgStatusBar,
    BorderDim,
    BorderFocus,
    TextMuted,
    TextNormal,
    TextBright,
    TextDim,
    TextCode,
    Accent,
    AccentDim,
    Success,
    SuccessDim,
    Failure,
    Warning,
    ScrollbarTrack,
    Yellow,
    Green,
    Red,
    DarkGray,
    White,
    Cyan,
    Blue,
}

/// How a span is drawn.
#[derive(Clone, Copy, Debug, PartialEq, Eq, Structural)]
pub struct Style {
    pub fg: Option<Color>,
    pub bg: Option<Color>,
    pub bold: bool,
    pub italic: bool,
}

/// The style that sets nothing.
#[verifier::allow_in_spec]
pub fn plain() -> Style
    returns
        (Style { fg: None, bg: None, bold: false, italic: false }),
{
    Style { fg: None, bg: None, bold: false, italic: false }
}

/// A foreground colour.
#[verifier::allow_in_spec]
pub fn fg(color: Color) -> Style
    returns
        (Style { fg: Some(color), bg: None, bold: false, italic: false }),
{
    Style { fg: Some(color), bg: None, bold: false, italic: false }
}

/// A foreground colour on a background colour.
#[verifier::allow_in_spec]
pub fn fg_bg(color: Color, back: Color) -> Style
    returns
        (Style { fg: Some(color), bg: Some(back), bold: false, italic: false }),
{
    Style { fg: Some(color), bg: Some(back), bold: false, italic: false }
}

impl Style {
    /// The same style in bold.
    #[verifier::allow_in_spec]
    pub fn bold(self) -> Style
        returns
            (Style { bold: true, ..self }),
    {
        Style { fg: self.fg, bg: self.bg, bold: true, italic: self.italic }
    }

    /// The same style in italics.
    #[verifier::allow_in_spec]
    pub fn italic(self) -> Style
        returns
            (Style { italic: true, ..self }),
    {
        Style { fg: self.fg, bg: self.bg, bold: self.bold, italic: true }
    }

    /// The same style, in bold if `on`.
    #[verifier::allow_in_spec]
    pub fn bold_if(self, on: bool) -> Style
        returns
            (Style { bold: self.bold || on, ..self }),
    {
        Style { fg: self.fg, bg: self.bg, bold: self.bold || on, italic: self.italic }
    }
}

/// What a span shows.
pub struct SpanView {
    pub text: Seq<char>,
    pub style: Style,
}

/// The span that shows `text` in `style`.
pub open spec fn sp(text: Seq<char>, style: Style) -> SpanView {
    SpanView { text, style }
}

/// A run of text in one style.
#[derive(Clone, Debug)]
pub struct Span {
    pub text: String,
    pub style: Style,
}

impl View for Span {
    type V = SpanView;

    open spec fn view(&self) -> SpanView {
        SpanView { text: self.text@, style: self.style }
    }
}

/// A line of spans.
#[derive(Clone, Debug)]
pub struct Line {
    pub spans: Vec<Span>,
}

impl View for Line {
    type V = Seq<SpanView>;

    open spec fn view(&self) -> Seq<SpanView> {
        self.spans@.map_values(|s: Span| s@)
    }
}

impl Line {
    /// The line without spans.
    pub fn new() -> (r: Line)
        ensures
            r@ == Seq::<SpanView>::empty(),
    {
        let r: Line = Line { spans: Vec::new() };
        assert(r@ =~= Seq::<SpanView>::empty());
        r
    }

    /// Appends `text` in `style`.
    pub fn put(&mut self, text: &str, style: Style)
        ensures
            final(self)@ == old(self)@.push(sp(text@, style)),
    {
        let ghost before = self@;
        self.spans.push(Span { text: text.to_owned(), style });
        assert(self@ =~= before.push(sp(text@, style)));
    }

    /// Appends the owned `text` in `style`.
    pub fn put_string(&mut self, text: String, style: Style)
        ensures
            final(self)@ == old(self)@.push(sp(text@, style)),
    {
        let ghost before = self@;
        self.spans.push(Span { text, style });
        assert(self@ =~= before.push(sp(text@, style)));
    }

    /// Appends the spans of another line.
    pub fn extend(&mut self, other: Line)
        ensures
            final(self)@ == old(self)@ + other@,
    {
        let ghost before = self@;
        let ghost more = other@;
        let mut spans: Vec<Span> = other.spans;
        self.spans.append(&mut spans);
        assert(self@ =~= before + more);
    }

    /// The line of a single span.
    pub fn of(text: &str, style: Style) -> (r: Line)
        ensures
            r@ == seq![sp(text@, style)],
    {
        let mut r: Line = Line::new();
        r.put(text, style);
        r
    }
}

/// The views of a sequence of lines.
pub open spec fn lines_view(v: Seq<Line>) -> Seq<Seq<SpanView>> {
    v.map_values(|l: Line| l@)
}

/// Appends a line.
pub fn push_line(v: &mut Vec<Line>, line: Line)
    ensures
        lines_view(final(v)@) == lines_view(old(v)@).push(line@),
{
    let ghost before = lines_view(v@);
    v.push(line);
    assert(lines_view(v@) =~= before.push(line@));
}

/// No lines.
pub fn no_lines() -> (r: Vec<Line>)
    ensures
        lines_view(r@) == Seq::<Seq<SpanView>>::empty(),
{
    let r: Vec<Line> = Vec::new();
    assert(lines_view(r@) =~= Seq::<Seq<SpanView>>::empty());
    r
}

/// The text of a line: its spans' texts in a row.
pub open spec fn line_text(line: Seq<SpanView>) -> Seq<char>
    decreases line.len(),
{
    if line.len() == 0 {
        seq![]
    } else {
        line_text(line.drop_last()) + line.last().text
    }
}

/// The text of two lines in a row is their texts in a row.
pub proof fn lemma_line_text_add(a: Seq<SpanView>, b: Seq<SpanView>)
    ensures
        line_text(a + b) == line_text(a) + line_text(b),
    decreases b.len(),
{
    if b.len() == 0 {
        assert(a + b =~= a);
        assert(line_text(a) + line_text(b) =~= line_text(a));
    } else {
        assert((a + b).drop_last() =~= a + b.drop_last());
        lemma_line_text_add(a, b.drop_last());
        assert(line_text(a + b) =~= line_text(a) + line_text(b));
    }
}

/// What a table row shows.
pub struct RowView {
    pub cells: Seq<SpanView>,
    pub style: Style,
}

/// A table row: styled cells, and a style for the row as a whole.
#[derive(Clone, Debug)]
pub struct TableRow {
    pub cells: Line,
    pub style: Style,
}

impl View for TableRow {
    type V = RowView;

    open spec fn view(&self) -> RowView {
        RowView { cells: self.cells@, style: self.style }
    }
}

// ── Wrapping ─────────────────────────────────────────────────────────────────

/// The rows that a paragraph of `ratatui` takes for lines that are wrapped at
/// word boundaries in `width` columns, with leading blanks kept.
pub uninterp spec fn wrapped_rows(lines: Seq<Seq<SpanView>>, width: u16) -> usize;

/// The largest width in which lines are wrapped.
pub const WIDEST: u16 = 16383;

/// `ratatui::widgets::Paragraph::line_count` of a paragraph with these lines,
/// wrapped without trimming. The count depends on the texts of the spans and the
/// width alone. The wrapping adds up to four widths in a `u16`, so a width of
/// more than a quarter of that range is left out.
#[verifier::external_body]
pub(crate) fn count_rows(lines: &Vec<Line>, width: u16) -> (r: usize)
    requires
        width <= WIDEST,
    ensures
        r == wrapped_rows(lines_view(lines@), width),
{
    let text: Vec<ratatui::text::Line> =
        lines.iter().map(|l| l.spans.iter().map(|s| s.text.as_str()).collect()).collect();
    Paragraph::new(text).wrap(Wrap { trim: false }).line_count(width)
}

} // verus!
