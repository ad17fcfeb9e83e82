//! Markdown as styled lines. `pulldown-cmark` reads the text; what each of its
//! events does to the lines is decided here.
use crate::dashboard::theme::{ACCENT, TEXT_DIM, TEXT_MUTED, TEXT_NORMAL};
use crate::sort;
use crate::style::{fg, no_lines, push_line, Color, Line, SpanView, Style};
use crate::style;
use crate::text::{cat, repeat_text, split_lines};
use crate::text;
use pulldown_cmark::Event::{Code, End, HardBreak, Rule, SoftBreak, Start, Text};
use pulldown_cmark::{Parser, TagEnd};
use self::MdTag::{CodeBlock, Emphasis, Heading, Item, List, OtherTag, Paragraph, Strong};
use vstd::prelude::*;

verus! {

/// The elements that the rendering tells apart.
#[derive(Clone, Copy, Debug, PartialEq, Eq, Structural)]
pub enum MdTag {
    Heading,
    Paragraph,
    Emphasis,
    Strong,
    CodeBlock,
    List,
    Item,
    OtherTag,
}

/// An event of a Markdown text.
#[derive(Clone, Debug)]
pub enum MdEvent {
    Open(MdTag),
    Close(MdTag),
    Code(String),
    Text(String),
    SoftBreak,
    HardBreak,
    Rule,
    Other,
}

/// What an event says.
pub enum MdToken {
    Open(MdTag),
    Close(MdTag),
    Code(Seq<char>),
    Text(Seq<char>),
    SoftBreak,
    HardBreak,
    Rule,
    Other,
}

impl View for MdEvent {
    type V = MdToken;

    open spec fn view(&self) -> MdToken {
        match self {
            MdEvent::Open(t) => MdToken::Open(*t),
            MdEvent::Close(t) => MdToken::Close(*t),
            MdEvent::Code(s) => MdToken::Code(s@),
            MdEvent::Text(s) => MdToken::Text(s@),
            MdEvent::SoftBreak => MdToken::SoftBreak,
            MdEvent::HardBreak => MdToken::HardBreak,
            MdEvent::Rule => MdToken::Rule,
            MdEvent::Other => MdToken::Other,
        }
    }
}

/// The events that `pulldown_cmark::Parser` yields for a text, with the
/// CommonMark syntax and no extensions.
pub uninterp spec fn markdown_tokens(body: Seq<char>) -> Seq<MdToken>;

/// `pulldown_cmark::Parser::new`, run to its end: the events depend on the text
/// alone. An element that the rendering does not tell apart is `OtherTag`, any
/// other event `Other`.
#[verifier::external_body]
pub(crate) fn parse_markdown(body: &str) -> (r: Vec<MdEvent>)
    ensures
        sort::views(r@) == markdown_tokens(body@),
{
    let tag = |t: TagEnd| match t {
        TagEnd::Heading(_) => Heading, TagEnd::Paragraph => Paragraph,
        TagEnd::Emphasis => Emphasis, TagEnd::Strong => Strong,
        TagEnd::CodeBlock => CodeBlock, TagEnd::List(_) => List,
        TagEnd::Item => Item, _ => OtherTag,
    };
    Parser::new(body).map(|e| match e {
        Start(t) => MdEvent::Open(tag(t.to_end())), End(t) => MdEvent::Close(tag(t)),
        Code(s) => MdEvent::Code(s.into_string()), Text(s) => MdEvent::Text(s.into_string()),
        SoftBreak => MdEvent::SoftBreak, HardBreak => MdEvent::HardBreak,
        Rule => MdEvent::Rule, _ => MdEvent::Other,
    }).collect()
}

/// How far a rendering has come: the styles of the open elements, the spans of
/// the line under construction, and the finished lines.
pub struct MdState {
    pub styles: Seq<Style>,
    pub spans: Seq<SpanView>,
    pub lines: Seq<Seq<SpanView>>,
    pub in_code: bool,
    pub in_heading: bool,
    pub depth: nat,
}

/// Before the first event.
pub open spec fn md_start() -> MdState {
    MdState {
        styles: seq![fg(TEXT_NORMAL)],
        spans: seq![],
        lines: seq![],
        in_code: false,
        in_heading: false,
        depth: 0,
    }
}

/// The style of plain text at this point.
pub open spec fn md_style(s: MdState) -> Style {
    if s.styles.len() > 0 {
        s.styles.last()
    } else {
        fg(TEXT_NORMAL)
    }
}

/// The innermost element closed.
pub open spec fn md_pop(s: MdState) -> MdState {
    MdState {
        styles: if s.styles.len() > 0 {
            s.styles.drop_last()
        } else {
            s.styles
        },
        ..s
    }
}

/// The line under construction finished, behind the prefix.
pub open spec fn md_flush(s: MdState, prefix: Seq<SpanView>) -> MdState {
    MdState { lines: s.lines.push(prefix + s.spans), spans: seq![], ..s }
}

/// The line under construction finished, if it holds anything.
pub open spec fn md_flush_if(s: MdState, prefix: Seq<SpanView>) -> MdState {
    if s.spans.len() > 0 {
        md_flush(s, prefix)
    } else {
        s
    }
}

/// A span appended.
pub open spec fn md_span(s: MdState, span: SpanView) -> MdState {
    MdState { spans: s.spans.push(span), ..s }
}

/// The first `n` of the lines of a text appended, each on a line of its own.
pub open spec fn md_text(
    s: MdState,
    segments: Seq<Seq<char>>,
    style: Style,
    prefix: Seq<SpanView>,
    n: nat,
) -> MdState
    decreases n,
{
    if n == 0 {
        s
    } else {
        let t = md_text(s, segments, style, prefix, (n - 1) as nat);
        let u = if n > 1 {
            md_flush(t, prefix)
        } else {
            t
        };
        md_span(u, style::sp(segments[n - 1], style))
    }
}

/// The text of a thematic break.
pub open spec fn rule_text() -> Seq<char> {
    "────────────────────────────────────────────"@
}

/// What an event does.
pub open spec fn md_step(s: MdState, token: MdToken, prefix: Seq<SpanView>) -> MdState {
    match token {
        MdToken::Open(MdTag::Heading) => MdState {
            in_heading: true,
            styles: s.styles.push(fg(ACCENT).bold()),
            ..s
        },
        MdToken::Close(MdTag::Heading) => MdState {
            in_heading: false,
            ..md_pop(md_flush(s, prefix))
        },
        MdToken::Close(MdTag::Paragraph) => {
            let t = md_flush_if(s, prefix);
            if s.in_heading {
                t
            } else {
                MdState { lines: t.lines.push(prefix), ..t }
            }
        },
        MdToken::Open(MdTag::Emphasis) => MdState {
            styles: s.styles.push(md_style(s).italic()),
            ..s
        },
        MdToken::Close(MdTag::Emphasis) => md_pop(s),
        MdToken::Open(MdTag::Strong) => MdState { styles: s.styles.push(md_style(s).bold()), ..s },
        MdToken::Close(MdTag::Strong) => md_pop(s),
        MdToken::Open(MdTag::CodeBlock) => MdState { in_code: true, ..md_flush_if(s, prefix) },
        MdToken::Close(MdTag::CodeBlock) => MdState { in_code: false, ..s },
        MdToken::Open(MdTag::List) => MdState { depth: s.depth + 1, ..s },
        MdToken::Close(MdTag::List) => MdState {
            depth: if s.depth > 0 {
                (s.depth - 1) as nat
            } else {
                0
            },
            ..s
        },
        MdToken::Open(MdTag::Item) => md_span(
            s,
            style::sp(
                text::repeated(
                    "  "@,
                    if s.depth > 0 {
                        (s.depth - 1) as nat
                    } else {
                        0
                    },
                ) + "• "@,
                fg(TEXT_MUTED),
            ),
        ),
        MdToken::Close(MdTag::Item) => md_flush_if(s, prefix),
        MdToken::Code(t) => md_span(s, style::sp(t, fg(Color::Cyan))),
        MdToken::Text(t) => md_text(
            s,
            text::lines_of(t),
            if s.in_code {
                fg(TEXT_MUTED)
            } else {
                md_style(s)
            },
            prefix,
            text::lines_of(t).len(),
        ),
        MdToken::SoftBreak => md_span(s, style::sp(" "@, md_style(s))),
        MdToken::HardBreak => md_flush(s, prefix),
        MdToken::Rule => {
            let t = md_flush_if(s, prefix);
            MdState { lines: t.lines.push(prefix.push(style::sp(rule_text(), fg(TEXT_DIM)))), ..t }
        },
        _ => s,
    }
}

/// The state after all of `tokens`.
pub open spec fn md_run(tokens: Seq<MdToken>, prefix: Seq<SpanView>) -> MdState
    decreases tokens.len(),
{
    if tokens.len() == 0 {
        md_start()
    } else {
        md_step(md_run(tokens.drop_last(), prefix), tokens.last(), prefix)
    }
}

/// `lines` without the lines at the end that hold nothing but the prefix.
pub open spec fn without_bare_end(lines: Seq<Seq<SpanView>>, prefix_len: nat) -> Seq<Seq<SpanView>>
    decreases lines.len(),
{
    if lines.len() > 0 && lines.last().len() == prefix_len {
        without_bare_end(lines.drop_last(), prefix_len)
    } else {
        lines
    }
}

/// The lines of a sequence of events, each behind the prefix.
pub open spec fn md_lines(tokens: Seq<MdToken>, prefix: Seq<SpanView>) -> Seq<Seq<SpanView>> {
    without_bare_end(md_flush_if(md_run(tokens, prefix), prefix).lines, prefix.len())
}

/// The prefix of a quoted body: a border in `color`, or nothing.
pub open spec fn border_prefix(color: Option<Color>) -> Seq<SpanView> {
    match color {
        Some(c) => seq![style::sp("│ "@, fg(c))],
        None => seq![],
    }
}

// ── Law ──────────────────────────────────────────────────────────────────────

/// Whether every line begins with the prefix.
pub open spec fn all_prefixed(lines: Seq<Seq<SpanView>>, prefix: Seq<SpanView>) -> bool {
    forall|i: int|
        0 <= i < lines.len() ==> (#[trigger] lines[i]).len() >= prefix.len() && lines[i].take(
            prefix.len() as int,
        ) == prefix
}

proof fn lemma_push_prefixed(lines: Seq<Seq<SpanView>>, prefix: Seq<SpanView>, rest: Seq<SpanView>)
    requires
        all_prefixed(lines, prefix),
    ensures
        all_prefixed(lines.push(prefix + rest), prefix),
{
    let all = lines.push(prefix + rest);
    assert forall|i: int| 0 <= i < all.len() implies (#[trigger] all[i]).len() >= prefix.len()
        && all[i].take(prefix.len() as int) == prefix by {
        if i < lines.len() {
            assert(all[i] == lines[i]);
        } else {
            assert(all[i].take(prefix.len() as int) =~= prefix);
        }
    }
}

proof fn lemma_text_prefixed(
    s: MdState,
    segments: Seq<Seq<char>>,
    style: Style,
    prefix: Seq<SpanView>,
    n: nat,
)
    requires
        all_prefixed(s.lines, prefix),
    ensures
        all_prefixed(md_text(s, segments, style, prefix, n).lines, prefix),
    decreases n,
{
    if n > 0 {
        lemma_text_prefixed(s, segments, style, prefix, (n - 1) as nat);
        let t = md_text(s, segments, style, prefix, (n - 1) as nat);
        lemma_push_prefixed(t.lines, prefix, t.spans);
    }
}

proof fn lemma_step_prefixed(s: MdState, token: MdToken, prefix: Seq<SpanView>)
    requires
        all_prefixed(s.lines, prefix),
    ensures
        all_prefixed(md_step(s, token, prefix).lines, prefix),
{
    lemma_push_prefixed(s.lines, prefix, s.spans);
    let t = md_flush_if(s, prefix);
    assert(all_prefixed(t.lines, prefix));
    lemma_push_prefixed(t.lines, prefix, seq![]);
    assert(prefix + Seq::<SpanView>::empty() =~= prefix);
    lemma_push_prefixed(t.lines, prefix, seq![style::sp(rule_text(), fg(TEXT_DIM))]);
    assert(prefix + seq![style::sp(rule_text(), fg(TEXT_DIM))] =~= prefix.push(
        style::sp(rule_text(), fg(TEXT_DIM)),
    ));
    if let MdToken::Text(text) = token {
        let style = if s.in_code {
            fg(TEXT_MUTED)
        } else {
            md_style(s)
        };
        lemma_text_prefixed(s, text::lines_of(text), style, prefix, text::lines_of(text).len());
    }
}

proof fn lemma_run_prefixed(tokens: Seq<MdToken>, prefix: Seq<SpanView>)
    ensures
        all_prefixed(md_run(tokens, prefix).lines, prefix),
    decreases tokens.len(),
{
    if tokens.len() > 0 {
        lemma_run_prefixed(tokens.drop_last(), prefix);
        lemma_step_prefixed(md_run(tokens.drop_last(), prefix), tokens.last(), prefix);
    }
}

proof fn lemma_trim_prefixed(lines: Seq<Seq<SpanView>>, prefix: Seq<SpanView>)
    requires
        all_prefixed(lines, prefix),
    ensures
        all_prefixed(without_bare_end(lines, prefix.len()), prefix),
        without_bare_end(lines, prefix.len()).len() > 0 ==> without_bare_end(
            lines,
            prefix.len(),
        ).last().len() > prefix.len(),
    decreases lines.len(),
{
    if lines.len() > 0 && lines.last().len() == prefix.len() {
        assert(all_prefixed(lines.drop_last(), prefix)) by {
            assert forall|i: int| 0 <= i < lines.drop_last().len() implies (
            #[trigger] lines.drop_last()[i]).len() >= prefix.len() && lines.drop_last()[i].take(
                prefix.len() as int,
            ) == prefix by {
                assert(lines[i] == lines.drop_last()[i]);
            }
        }
        lemma_trim_prefixed(lines.drop_last(), prefix);
    } else if lines.len() > 0 {
        assert(lines[lines.len() - 1] == lines.last());
    }
}

/// Every line of a rendered text begins with the prefix, and the last one holds
/// more than it.
pub proof fn law_markdown_lines_prefixed(tokens: Seq<MdToken>, prefix: Seq<SpanView>)
    ensures
        all_prefixed(md_lines(tokens, prefix), prefix),
        md_lines(tokens, prefix).len() > 0 ==> md_lines(tokens, prefix).last().len()
            > prefix.len(),
{
    lemma_run_prefixed(tokens, prefix);
    let s = md_run(tokens, prefix);
    lemma_push_prefixed(s.lines, prefix, s.spans);
    lemma_trim_prefixed(md_flush_if(s, prefix).lines, prefix);
}

// ── Rendering ────────────────────────────────────────────────────────────────

struct MdRender {
    border: Option<Color>,
    styles: Vec<Style>,
    spans: Line,
    lines: Vec<Line>,
    in_code: bool,
    in_heading: bool,
    depth: usize,
}

impl View for MdRender {
    type V = MdState;

    closed spec fn view(&self) -> MdState {
        MdState {
            styles: self.styles@,
            spans: self.spans@,
            lines: style::lines_view(self.lines@),
            in_code: self.in_code,
            in_heading: self.in_heading,
            depth: self.depth as nat,
        }
    }
}

fn prefix_line(border: Option<Color>) -> (r: Line)
    ensures
        r@ == border_prefix(border),
{
    match border {
        Some(c) => Line::of("│ ", fg(c)),
        None => Line::new(),
    }
}

impl MdRender {
    fn style(&self) -> (r: Style)
        ensures
            r == md_style(self@),
    {
        if self.styles.len() > 0 {
            self.styles[self.styles.len() - 1]
        } else {
            fg(TEXT_NORMAL)
        }
    }

    fn pop(&mut self)
        ensures
            final(self)@ == md_pop(old(self)@),
            final(self).border == old(self).border,
    {
        let _dropped: Option<Style> = self.styles.pop();
    }

    fn flush(&mut self)
        ensures
            final(self)@ == md_flush(old(self)@, border_prefix(old(self).border)),
            final(self).border == old(self).border,
    {
        let mut line: Line = prefix_line(self.border);
        let mut spans: Line = Line::new();
        std::mem::swap(&mut spans, &mut self.spans);
        line.extend(spans);
        push_line(&mut self.lines, line);
    }

    fn flush_if(&mut self)
        ensures
            final(self)@ == md_flush_if(old(self)@, border_prefix(old(self).border)),
            final(self).border == old(self).border,
    {
        assert(self.spans@.len() == self.spans.spans@.len());
        if self.spans.spans.len() > 0 {
            self.flush();
        }
    }

    fn span(&mut self, text: &str, style: Style)
        ensures
            final(self)@ == md_span(old(self)@, style::sp(text@, style)),
            final(self).border == old(self).border,
    {
        self.spans.put(text, style);
    }

    fn text(&mut self, text: &str, style: Style)
        ensures
            final(self)@ == md_text(
                old(self)@,
                text::lines_of(text@),
                style,
                border_prefix(old(self).border),
                text::lines_of(text@).len(),
            ),
            final(self).border == old(self).border,
            final(self).depth == old(self).depth,
    {
        let segments: Vec<String> = split_lines(text);
        let ghost start = self@;
        let ghost prefix = border_prefix(self.border);
        let ghost border = self.border;
        let mut i: usize = 0;
        assert(segments@.len() == text::lines_of(text@).len());
        while i < segments.len()
            invariant
                i <= segments@.len(),
                text::texts(segments@) == text::lines_of(text@),
                self.border == border,
                prefix == border_prefix(border),
                self@ == md_text(start, text::lines_of(text@), style, prefix, i as nat),
                self.depth == start.depth,
            decreases segments@.len() - i,
        {
            if i > 0 {
                self.flush();
            }
            assert(text::lines_of(text@)[i as int] == segments@[i as int]@);
            self.span(segments[i].as_str(), style);
            i += 1;
        }
    }

    fn step(&mut self, event: &MdEvent)
        requires
            old(self).depth < usize::MAX,
        ensures
            final(self)@ == md_step(old(self)@, event@, border_prefix(old(self).border)),
            final(self).border == old(self).border,
            final(self).depth <= old(self).depth + 1,
    {
        match event {
            MdEvent::Open(MdTag::Heading) => {
                self.in_heading = true;
                self.styles.push(fg(ACCENT).bold());
            },
            MdEvent::Close(MdTag::Heading) => {
                self.flush();
                self.pop();
                self.in_heading = false;
            },
            MdEvent::Close(MdTag::Paragraph) => {
                self.flush_if();
                if !self.in_heading {
                    push_line(&mut self.lines, prefix_line(self.border));
                }
            },
            MdEvent::Open(MdTag::Emphasis) => {
                let style: Style = self.style();
                self.styles.push(style.italic());
            },
            MdEvent::Open(MdTag::Strong) => {
                let style: Style = self.style();
                self.styles.push(style.bold());
            },
            MdEvent::Close(MdTag::Emphasis) => {
                self.pop();
            },
            MdEvent::Close(MdTag::Strong) => {
                self.pop();
            },
            MdEvent::Open(MdTag::CodeBlock) => {
                self.flush_if();
                self.in_code = true;
            },
            MdEvent::Close(MdTag::CodeBlock) => {
                self.in_code = false;
            },
            MdEvent::Open(MdTag::List) => {
                self.depth = self.depth + 1;
            },
            MdEvent::Close(MdTag::List) => {
                self.depth = self.depth.saturating_sub(1);
            },
            MdEvent::Open(MdTag::Item) => {
                let indent: String = repeat_text("  ", self.depth.saturating_sub(1));
                let bullet: String = cat(indent.as_str(), "• ");
                self.span(bullet.as_str(), fg(TEXT_MUTED));
            },
            MdEvent::Close(MdTag::Item) => {
                self.flush_if();
            },
            MdEvent::Code(t) => {
                self.span(t.as_str(), fg(Color::Cyan));
            },
            MdEvent::Text(t) => {
                let style: Style = if self.in_code {
                    fg(TEXT_MUTED)
                } else {
                    self.style()
                };
                self.text(t.as_str(), style);
            },
            MdEvent::SoftBreak => {
                let style: Style = self.style();
                self.span(" ", style);
            },
            MdEvent::HardBreak => {
                self.flush();
            },
            MdEvent::Rule => {
                self.flush_if();
                let mut line: Line = prefix_line(self.border);
                line.put("────────────────────────────────────────────", fg(TEXT_DIM));
                push_line(&mut self.lines, line);
            },
            _ => {},
        }
    }
}

/// The lines of a sequence of events; each behind a border in `border`, if given.
pub fn render_markdown(events: &Vec<MdEvent>, border: Option<Color>) -> (r: Vec<Line>)
    ensures
        style::lines_view(r@) == md_lines(sort::views(events@), border_prefix(border)),
{
    let ghost tokens = sort::views(events@);
    let ghost prefix = border_prefix(border);
    let mut styles: Vec<Style> = Vec::new();
    styles.push(fg(TEXT_NORMAL));
    let mut m: MdRender = MdRender {
        border,
        styles,
        spans: Line::new(),
        lines: no_lines(),
        in_code: false,
        in_heading: false,
        depth: 0,
    };
    assert(m.styles@ =~= md_start().styles);
    assert(tokens.take(0) =~= Seq::<MdToken>::empty());
    let mut i: usize = 0;
    while i < events.len()
        invariant
            i <= events@.len(),
            tokens == sort::views(events@),
            prefix == border_prefix(border),
            m.border == border,
            m.depth <= i,
            m@ == md_run(tokens.take(i as int), prefix),
        decreases events@.len() - i,
    {
        assert(tokens.take(i + 1).drop_last() =~= tokens.take(i as int));
        assert(tokens.take(i + 1).last() == events@[i as int]@);
        m.step(&events[i]);
        i += 1;
    }
    assert(tokens.take(i as int) =~= tokens);
    m.flush_if();
    let n: usize = match border {
        Some(_) => 1,
        None => 0,
    };
    let mut lines: Vec<Line> = m.lines;
    let ghost full = style::lines_view(lines@);
    while lines.len() > 0 && lines[lines.len() - 1].spans.len() == n
        invariant
            n == prefix.len(),
            without_bare_end(full, prefix.len()) == without_bare_end(
                style::lines_view(lines@),
                prefix.len(),
            ),
        decreases lines@.len(),
    {
        let ghost before = style::lines_view(lines@);
        assert(before.last().len() == lines@.last().spans@.len());
        let _dropped: Option<Line> = lines.pop();
        assert(style::lines_view(lines@) =~= before.drop_last());
    }
    proof {
        if lines@.len() > 0 {
            assert(style::lines_view(lines@).last().len() == lines@.last().spans@.len());
        }
    }
    lines
}

/// The lines of a Markdown text, each behind a border in `border_color`.
pub fn markdown_to_lines(body: &str, border_color: Color) -> (r: Vec<Line>)
    ensures
        style::lines_view(r@) == md_lines(markdown_tokens(body@), border_prefix(Some(border_color))),
{
    let events: Vec<MdEvent> = parse_markdown(body);
    render_markdown(&events, Some(border_color))
}

/// The lines of a Markdown text, without a border.
pub fn markdown_to_lines_standalone(body: &str) -> (r: Vec<Line>)
    ensures
        style::lines_view(r@) == md_lines(markdown_tokens(body@), border_prefix(None)),
{
    let events: Vec<MdEvent> = parse_markdown(body);
    render_markdown(&events, None)
}

// ── Laws of the tokens ───────────────────────────────────────────────────────

/// Tokens are taken one after the other, and what was begun is ended by its end:
/// text after it looks as text before it did.
pub proof fn law_what_is_begun_is_ended(s: MdState, prefix: Seq<SpanView>)
    requires
        s.styles.len() > 0,
    ensures
        md_step(
            md_step(s, MdToken::Open(MdTag::Strong), prefix),
            MdToken::Close(MdTag::Strong),
            prefix,
        ) == s,
        md_step(
            md_step(s, MdToken::Open(MdTag::Emphasis), prefix),
            MdToken::Close(MdTag::Emphasis),
            prefix,
        ) == s,
        md_step(
            md_step(s, MdToken::Open(MdTag::List), prefix),
            MdToken::Close(MdTag::List),
            prefix,
        ) == s,
        s.spans.len() == 0 && !s.in_code ==> md_step(
            md_step(s, MdToken::Open(MdTag::CodeBlock), prefix),
            MdToken::Close(MdTag::CodeBlock),
            prefix,
        ) == s,
        md_style(
            md_step(
                md_step(s, MdToken::Open(MdTag::Heading), prefix),
                MdToken::Close(MdTag::Heading),
                prefix,
            ),
        ) == md_style(s),
        !s.in_heading ==> !md_step(
            md_step(s, MdToken::Open(MdTag::Heading), prefix),
            MdToken::Close(MdTag::Heading),
            prefix,
        ).in_heading,
{
    assert(s.styles.push(md_style(s).bold()).drop_last() =~= s.styles);
    assert(s.styles.push(md_style(s).italic()).drop_last() =~= s.styles);
    assert(s.styles.push(fg(ACCENT).bold()).drop_last() =~= s.styles);
}

/// How text looks: as it stands, bold where it is strong, slanted where it is
/// emphasised, as a title in a heading, dimmed in a block of code.
pub proof fn law_text_looks_as_marked(s: MdState, t: Seq<char>, prefix: Seq<SpanView>)
    requires
        t.len() > 0,
        !t.contains('\n'),
    ensures
        !s.in_code ==> md_step(s, MdToken::Text(t), prefix) == (MdState {
            spans: s.spans.push(style::sp(t, md_style(s))),
            ..s
        }),
        s.in_code ==> md_step(s, MdToken::Text(t), prefix) == (MdState {
            spans: s.spans.push(style::sp(t, fg(TEXT_MUTED))),
            ..s
        }),
        md_step(s, MdToken::Code(t), prefix) == (MdState {
            spans: s.spans.push(style::sp(t, fg(Color::Cyan))),
            ..s
        }),
        md_style(md_step(s, MdToken::Open(MdTag::Strong), prefix)) == (Style {
            bold: true,
            ..md_style(s)
        }),
        md_style(md_step(s, MdToken::Open(MdTag::Emphasis), prefix)) == (Style {
            italic: true,
            ..md_style(s)
        }),
        md_style(md_step(s, MdToken::Open(MdTag::Heading), prefix)).bold,
        md_style(md_step(s, MdToken::Open(MdTag::Heading), prefix)).fg == Some(ACCENT),
        md_step(s, MdToken::Open(MdTag::CodeBlock), prefix).in_code,
        md_style(md_start()) == fg(TEXT_NORMAL),
{
    text::law_lines_end_at_line_feeds(t, Seq::empty());
    let seg = text::lines_of(t);
    assert(seg == seq![t]);
    reveal_with_fuel(md_text, 2);
}

/// Text of several lines is broken where its lines end.
pub proof fn law_lines_of_text_are_broken(
    s: MdState,
    segments: Seq<Seq<char>>,
    style: Style,
    prefix: Seq<SpanView>,
    n: nat,
)
    requires
        1 <= n < segments.len(),
    ensures
        md_text(s, segments, style, prefix, n + 1).lines == md_text(
            s,
            segments,
            style,
            prefix,
            n,
        ).lines.push(prefix + md_text(s, segments, style, prefix, n).spans),
        md_text(s, segments, style, prefix, n + 1).spans == seq![
            style::sp(segments[n as int], style),
        ],
{
    assert(Seq::<SpanView>::empty().push(style::sp(segments[n as int], style)) =~= seq![
        style::sp(segments[n as int], style),
    ]);
}

/// Where lines end: at a break, at the end of a heading, of a paragraph and of an
/// item; a paragraph leaves a blank line, and a rule has its own.
pub proof fn law_where_lines_end(s: MdState, prefix: Seq<SpanView>)
    requires
        s.spans.len() > 0,
    ensures
        ({
            let line = prefix + s.spans;
            &&& md_step(s, MdToken::HardBreak, prefix).lines == s.lines.push(line)
            &&& md_step(s, MdToken::Close(MdTag::Heading), prefix).lines == s.lines.push(line)
            &&& md_step(s, MdToken::Close(MdTag::Item), prefix).lines == s.lines.push(line)
            &&& md_step(s, MdToken::Open(MdTag::CodeBlock), prefix).lines == s.lines.push(line)
            &&& !s.in_heading ==> md_step(s, MdToken::Close(MdTag::Paragraph), prefix).lines
                == s.lines.push(line).push(prefix)
            &&& md_step(s, MdToken::Rule, prefix).lines == s.lines.push(line).push(
                prefix.push(style::sp(rule_text(), fg(TEXT_DIM))),
            )
            &&& md_step(s, MdToken::HardBreak, prefix).spans.len() == 0
            &&& md_step(s, MdToken::Close(MdTag::Item), prefix).spans.len() == 0
            &&& md_step(s, MdToken::Close(MdTag::Paragraph), prefix).spans.len() == 0
            &&& md_step(s, MdToken::SoftBreak, prefix) == (MdState {
                spans: s.spans.push(style::sp(" "@, md_style(s))),
                ..s
            })
        }),
{
}

/// An item begins with a bullet, two columns further in for each list round its
/// own.
pub proof fn law_items_are_indented(s: MdState, prefix: Seq<SpanView>)
    requires
        s.depth >= 1,
    ensures
        md_step(s, MdToken::Open(MdTag::Item), prefix).spans == s.spans.push(
            style::sp(text::repeated("  "@, (s.depth - 1) as nat) + "• "@, fg(TEXT_MUTED)),
        ),
        md_step(s, MdToken::Open(MdTag::List), prefix).depth == s.depth + 1,
        md_step(s, MdToken::Close(MdTag::List), prefix).depth == s.depth - 1,
{
}

/// One token more is one step more, and what is left at the end is a line; bare
/// lines at the end are left out, all of them and no others.
pub proof fn law_one_token_more(
    tokens: Seq<MdToken>,
    token: MdToken,
    prefix: Seq<SpanView>,
    lines: Seq<Seq<SpanView>>,
    line: Seq<SpanView>,
)
    ensures
        md_run(Seq::empty(), prefix) == md_start(),
        md_run(tokens.push(token), prefix) == md_step(md_run(tokens, prefix), token, prefix),
        line.len() == prefix.len() ==> without_bare_end(lines.push(line), prefix.len())
            == without_bare_end(lines, prefix.len()),
        line.len() != prefix.len() ==> without_bare_end(lines.push(line), prefix.len())
            == lines.push(line),
        border_prefix(None).len() == 0,
        border_prefix(Some(TEXT_DIM)) == seq![style::sp("│ "@, fg(TEXT_DIM))],
{
    assert(tokens.push(token).drop_last() =~= tokens);
    assert(lines.push(line).drop_last() =~= lines);
}

} // verus!
