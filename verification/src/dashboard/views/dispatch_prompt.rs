//! The prompt that sends work to an agent: select one, write the instruction,
//! confirm.
use crate::dashboard::theme::{ACCENT, FAILURE, TEXT_BRIGHT, TEXT_DIM, TEXT_MUTED, TEXT_NORMAL};
use crate::dashboard::views::{truncate, truncate_left};
use crate::dashboard::views;
use crate::style::{fg, no_lines, plain, push_line, Line, SpanView, Style};
use crate::style;
use crate::text::{cat, cat3, str_or};
use crate::text;
use vstd::prelude::*;

verus! {

// ── State ────────────────────────────────────────────────────────────────────

/// A step of the prompt.
#[derive(Clone, Copy, Debug, PartialEq, Eq, Structural)]
pub enum DispatchStep {
    SelectAgent,
    EnterInstruction,
    Confirm,
}

/// The state of the prompt.
#[derive(Clone, Debug)]
pub struct DispatchPromptState {
    pub step: DispatchStep,
    /// Aliases of the workers to choose from.
    pub agents: Vec<String>,
    pub selected_agent: usize,
    pub instruction: String,
    pub batch_id: Option<String>,
    /// The thread to continue, if any.
    pub thread_id: Option<String>,
    /// How that thread is called.
    pub thread_summary: Option<String>,
    /// What went wrong in the last attempt.
    pub error: Option<String>,
}

/// The alias of the selected agent.
pub open spec fn selected_alias(s: DispatchPromptState) -> Option<Seq<char>> {
    if s.selected_agent < s.agents@.len() {
        Some(s.agents@[s.selected_agent as int]@)
    } else {
        None
    }
}

impl DispatchPromptState {
    /// The prompt at its first step.
    pub fn new(
        agents: Vec<String>,
        thread_id: Option<String>,
        thread_summary: Option<String>,
    ) -> (r: DispatchPromptState)
        ensures
            r.step == DispatchStep::SelectAgent,
            r.agents == agents,
            r.selected_agent == 0,
            r.instruction@ == Seq::<char>::empty(),
            r.batch_id is None,
            r.thread_id == thread_id,
            r.thread_summary == thread_summary,
            r.error is None,
    {
        DispatchPromptState {
            step: DispatchStep::SelectAgent,
            agents,
            selected_agent: 0,
            instruction: String::new(),
            batch_id: None,
            thread_id,
            thread_summary,
            error: None,
        }
    }

    /// The alias of the selected agent.
    pub fn selected_agent_alias(&self) -> (r: Option<&str>)
        ensures
            match r {
                Some(a) => selected_alias(*self) == Some(a@),
                None => selected_alias(*self) is None,
            },
    {
        if self.selected_agent < self.agents.len() {
            Some(self.agents[self.selected_agent].as_str())
        } else {
            None
        }
    }
}

// ── Content ──────────────────────────────────────────────────────────────────

/// The line that names the thread.
pub open spec fn thread_header(summary: Seq<char>) -> Seq<SpanView> {
    seq![style::sp("  Thread: "@, fg(TEXT_MUTED)), style::sp(summary, fg(TEXT_NORMAL))]
}

/// The line of an agent to choose.
pub open spec fn agent_choice(alias: Seq<char>, selected: bool) -> Seq<SpanView> {
    if selected {
        seq![style::sp(" ▸ "@ + alias, fg(ACCENT).bold())]
    } else {
        seq![style::sp("   "@ + alias, fg(TEXT_NORMAL))]
    }
}

/// The empty line.
pub open spec fn gap_line() -> Seq<SpanView> {
    seq![style::sp(""@, plain())]
}

/// The error of the last attempt, in a line.
pub open spec fn error_lines(error: Option<String>) -> Seq<Seq<SpanView>> {
    match error {
        Some(e) => seq![seq![style::sp("  "@ + e@, fg(FAILURE))]],
        None => seq![],
    }
}

/// The lines of all agents to choose from.
pub open spec fn agent_choices(s: DispatchPromptState) -> Seq<Seq<SpanView>> {
    Seq::new(
        s.agents@.len(),
        |i: int| agent_choice(s.agents@[i]@, i == s.selected_agent),
    )
}

/// What the first step shows.
pub open spec fn select_content(s: DispatchPromptState) -> Seq<Seq<SpanView>> {
    (match s.thread_summary {
        Some(t) => seq![thread_header(t@), gap_line()],
        None => seq![],
    }) + seq![seq![style::sp("  Select agent:"@, fg(TEXT_MUTED))]] + agent_choices(s) + seq![
        gap_line(),
        seq![style::sp("  Enter select   Esc cancel"@, fg(TEXT_DIM))],
    ] + error_lines(s.error)
}

/// The selected agent, or a question mark.
pub open spec fn agent_label(s: DispatchPromptState) -> Seq<char> {
    match selected_alias(s) {
        Some(a) => a,
        None => "?"@,
    }
}

/// The instruction as far as it fits, its end in sight, and the cursor.
pub open spec fn typed_text(instruction: Seq<char>) -> Seq<char> {
    if instruction.len() == 0 {
        "  │"@
    } else {
        "  "@ + views::truncated_left(instruction, 50) + "│"@
    }
}

/// What the second step shows.
pub open spec fn instruction_content(s: DispatchPromptState) -> Seq<Seq<SpanView>> {
    seq![
        seq![style::sp("  Agent: "@, fg(TEXT_MUTED)), style::sp(agent_label(s), fg(ACCENT))],
    ] + (match s.thread_summary {
        Some(t) => seq![thread_header(t@)],
        None => seq![],
    }) + seq![
        gap_line(),
        seq![style::sp("  Instruction:"@, fg(TEXT_MUTED))],
        seq![style::sp(typed_text(s.instruction@), fg(TEXT_BRIGHT))],
        gap_line(),
        seq![style::sp("  Enter submit   Esc back"@, fg(TEXT_DIM))],
    ] + error_lines(s.error)
}

/// What the last step shows.
pub open spec fn confirm_content(s: DispatchPromptState) -> Seq<Seq<SpanView>> {
    seq![
        seq![style::sp("  Confirm dispatch:"@, fg(TEXT_BRIGHT).bold())],
        gap_line(),
        seq![style::sp("  Agent:       "@, fg(TEXT_MUTED)), style::sp(agent_label(s), fg(ACCENT))],
        seq![
            style::sp("  Thread:      "@, fg(TEXT_MUTED)),
            style::sp(text::text_or(s.thread_id, "(new)"@), fg(TEXT_NORMAL)),
        ],
        seq![
            style::sp("  Instruction: "@, fg(TEXT_MUTED)),
            style::sp(views::truncated(s.instruction@, 40), fg(TEXT_NORMAL)),
        ],
        gap_line(),
        seq![style::sp("  [y]es dispatch   [b]ack   [n]/Esc cancel"@, fg(TEXT_DIM))],
    ] + (match s.error {
        Some(_) => seq![gap_line()],
        None => seq![],
    }) + error_lines(s.error)
}

/// What a step shows.
pub open spec fn prompt_content(s: DispatchPromptState) -> Seq<Seq<SpanView>> {
    match s.step {
        DispatchStep::SelectAgent => select_content(s),
        DispatchStep::EnterInstruction => instruction_content(s),
        DispatchStep::Confirm => confirm_content(s),
    }
}

/// A line of a label and a value.
fn labelled(label: &str, value: &str, style: Style) -> (r: Line)
    ensures
        r@ == seq![style::sp(label@, fg(TEXT_MUTED)), style::sp(value@, style)],
{
    let mut line: Line = Line::new();
    line.put(label, fg(TEXT_MUTED));
    line.put(value, style);
    line
}

fn push_error(lines: &mut Vec<Line>, error: &Option<String>)
    ensures
        style::lines_view(final(lines)@) == style::lines_view(old(lines)@) + error_lines(*error),
{
    let ghost before = style::lines_view(lines@);
    match error {
        Some(e) => {
            push_line(lines, Line::of(cat("  ", e.as_str()).as_str(), fg(FAILURE)));
        },
        None => {},
    }
    assert(style::lines_view(lines@) =~= before + error_lines(*error));
}

fn select_lines(s: &DispatchPromptState) -> (r: Vec<Line>)
    ensures
        style::lines_view(r@) == select_content(*s),
{
    let mut lines: Vec<Line> = no_lines();
    match &s.thread_summary {
        Some(t) => {
            push_line(&mut lines, labelled("  Thread: ", t.as_str(), fg(TEXT_NORMAL)));
            push_line(&mut lines, Line::of("", plain()));
        },
        None => {},
    }
    push_line(&mut lines, Line::of("  Select agent:", fg(TEXT_MUTED)));
    let ghost head = style::lines_view(lines@);
    let mut i: usize = 0;
    while i < s.agents.len()
        invariant
            i <= s.agents@.len(),
            style::lines_view(lines@) == head + agent_choices(*s).take(i as int),
        decreases s.agents@.len() - i,
    {
        let line: Line = if i == s.selected_agent {
            Line::of(cat(" ▸ ", s.agents[i].as_str()).as_str(), fg(ACCENT).bold())
        } else {
            Line::of(cat("   ", s.agents[i].as_str()).as_str(), fg(TEXT_NORMAL))
        };
        assert(line@ =~= agent_choices(*s)[i as int]);
        push_line(&mut lines, line);
        assert(style::lines_view(lines@) =~= head + agent_choices(*s).take(i + 1));
        i += 1;
    }
    assert(agent_choices(*s).take(i as int) =~= agent_choices(*s));
    push_line(&mut lines, Line::of("", plain()));
    push_line(&mut lines, Line::of("  Enter select   Esc cancel", fg(TEXT_DIM)));
    push_error(&mut lines, &s.error);
    assert(style::lines_view(lines@) =~= select_content(*s));
    lines
}

fn alias_or_mark(s: &DispatchPromptState) -> (r: &str)
    ensures
        r@ == agent_label(*s),
{
    match s.selected_agent_alias() {
        Some(a) => a,
        None => "?",
    }
}

fn instruction_lines(s: &DispatchPromptState) -> (r: Vec<Line>)
    ensures
        style::lines_view(r@) == instruction_content(*s),
{
    let mut lines: Vec<Line> = no_lines();
    push_line(&mut lines, labelled("  Agent: ", alias_or_mark(s), fg(ACCENT)));
    match &s.thread_summary {
        Some(t) => {
            push_line(&mut lines, labelled("  Thread: ", t.as_str(), fg(TEXT_NORMAL)));
        },
        None => {},
    }
    push_line(&mut lines, Line::of("", plain()));
    push_line(&mut lines, Line::of("  Instruction:", fg(TEXT_MUTED)));
    let typed: String = if s.instruction.as_str().is_empty() {
        "  │".to_owned()
    } else {
        cat3("  ", truncate_left(s.instruction.as_str(), 50).as_str(), "│")
    };
    push_line(&mut lines, Line::of(typed.as_str(), fg(TEXT_BRIGHT)));
    push_line(&mut lines, Line::of("", plain()));
    push_line(&mut lines, Line::of("  Enter submit   Esc back", fg(TEXT_DIM)));
    push_error(&mut lines, &s.error);
    assert(style::lines_view(lines@) =~= instruction_content(*s));
    lines
}

fn confirm_lines(s: &DispatchPromptState) -> (r: Vec<Line>)
    ensures
        style::lines_view(r@) == confirm_content(*s),
{
    let mut lines: Vec<Line> = no_lines();
    push_line(&mut lines, Line::of("  Confirm dispatch:", fg(TEXT_BRIGHT).bold()));
    push_line(&mut lines, Line::of("", plain()));
    push_line(&mut lines, labelled("  Agent:       ", alias_or_mark(s), fg(ACCENT)));
    push_line(
        &mut lines,
        labelled("  Thread:      ", str_or(&s.thread_id, "(new)"), fg(TEXT_NORMAL)),
    );
    push_line(
        &mut lines,
        labelled(
            "  Instruction: ",
            truncate(s.instruction.as_str(), 40).as_str(),
            fg(TEXT_NORMAL),
        ),
    );
    push_line(&mut lines, Line::of("", plain()));
    push_line(&mut lines, Line::of("  [y]es dispatch   [b]ack   [n]/Esc cancel", fg(TEXT_DIM)));
    if s.error.is_some() {
        push_line(&mut lines, Line::of("", plain()));
    }
    push_error(&mut lines, &s.error);
    assert(style::lines_view(lines@) =~= confirm_content(*s));
    lines
}

/// What the prompt shows.
pub fn dispatch_prompt_lines(state: &DispatchPromptState) -> (r: Vec<Line>)
    ensures
        style::lines_view(r@) == prompt_content(*state),
{
    match state.step {
        DispatchStep::SelectAgent => select_lines(state),
        DispatchStep::EnterInstruction => instruction_lines(state),
        DispatchStep::Confirm => confirm_lines(state),
    }
}

/// The title of the prompt.
pub open spec fn prompt_title(s: DispatchPromptState) -> Seq<char> {
    match s.step {
        DispatchStep::SelectAgent => if s.thread_id is Some {
            " Dispatch — Continue Thread "@
        } else {
            " Dispatch — New Thread "@
        },
        DispatchStep::EnterInstruction => " Dispatch — Instruction "@,
        DispatchStep::Confirm => " Dispatch — Confirm "@,
    }
}

/// The title of the prompt.
pub fn dispatch_prompt_title(state: &DispatchPromptState) -> (r: &'static str)
    ensures
        r@ == prompt_title(*state),
{
    match state.step {
        DispatchStep::SelectAgent => if state.thread_id.is_some() {
            " Dispatch — Continue Thread "
        } else {
            " Dispatch — New Thread "
        },
        DispatchStep::EnterInstruction => " Dispatch — Instruction ",
        DispatchStep::Confirm => " Dispatch — Confirm ",
    }
}

/// Columns and rows of the prompt on a screen of `rows` rows. The first step has
/// a row for each agent and six more, as far as they fit.
pub open spec fn prompt_extent(s: DispatchPromptState, rows: u16) -> (int, int) {
    match s.step {
        DispatchStep::SelectAgent => (
            50,
            if s.agents@.len() + 6 > rows {
                rows as int
            } else {
                s.agents@.len() as int + 6
            },
        ),
        DispatchStep::EnterInstruction => (60, 12),
        DispatchStep::Confirm => (60, 14),
    }
}

/// Columns and rows of the prompt on a screen of `rows` rows.
pub fn dispatch_prompt_size(state: &DispatchPromptState, rows: u16) -> (r: (u16, u16))
    ensures
        (r.0 as int, r.1 as int) == prompt_extent(*state, rows),
{
    match state.step {
        DispatchStep::SelectAgent => {
            let n: usize = state.agents.len();
            if n > 65535 || n + 6 > rows as usize {
                (50, rows)
            } else {
                (50, (n + 6) as u16)
            }
        },
        DispatchStep::EnterInstruction => (60, 12),
        DispatchStep::Confirm => (60, 14),
    }
}

// ── Laws ─────────────────────────────────────────────────────────────────────

/// What is shown before a dispatch is what will be dispatched: the agent that is
/// selected, the thread or that it is a new one, and the instruction.
pub proof fn law_confirmation_shows_what_is_dispatched(s: DispatchPromptState)
    requires
        s.step == DispatchStep::Confirm,
    ensures
        s.selected_agent < s.agents@.len() ==> prompt_content(s)[2][1].text
            == s.agents@[s.selected_agent as int]@,
        s.selected_agent >= s.agents@.len() ==> prompt_content(s)[2][1].text == "?"@,
        s.thread_id matches Some(t) ==> prompt_content(s)[3][1].text == t@,
        s.thread_id is None ==> prompt_content(s)[3][1].text == "(new)"@,
        s.instruction@.len() <= 40 ==> prompt_content(s)[4][1].text == s.instruction@,
        s.error matches Some(e) ==> prompt_content(s).last()[0].text == "  "@ + e@,
        s.error is None ==> prompt_content(s).len() == 7,
        prompt_title(s) == " Dispatch — Confirm "@,
        prompt_extent(s, 0) == (60int, 14int),
{
}

/// While an agent is chosen, all of them are listed and the one that is selected
/// is marked.
pub proof fn law_agents_are_listed(s: DispatchPromptState, i: int, rows: u16)
    requires
        s.step == DispatchStep::SelectAgent,
        0 <= i < s.agents@.len(),
    ensures
        agent_choices(s).len() == s.agents@.len(),
        i == s.selected_agent ==> agent_choices(s)[i][0].text == " ▸ "@ + s.agents@[i]@,
        i != s.selected_agent ==> agent_choices(s)[i][0].text == "   "@ + s.agents@[i]@,
        s.thread_summary is None ==> prompt_content(s)[1 + i] == agent_choices(s)[i],
        s.thread_summary matches Some(t) ==> prompt_content(s)[0][1].text == t@
            && prompt_content(s)[3 + i] == agent_choices(s)[i],
        s.error matches Some(e) ==> prompt_content(s).last()[0].text == "  "@ + e@,
        s.thread_id is Some ==> prompt_title(s) == " Dispatch — Continue Thread "@,
        s.thread_id is None ==> prompt_title(s) == " Dispatch — New Thread "@,
        s.agents@.len() + 6 <= rows ==> prompt_extent(s, rows) == (
            50int,
            s.agents@.len() as int + 6,
        ),
        s.agents@.len() + 6 > rows ==> prompt_extent(s, rows) == (50int, rows as int),
{
}

/// While the instruction is written, the agent that is selected and the text with
/// a cursor behind it are shown; of a long text its end.
pub proof fn law_instruction_is_shown(s: DispatchPromptState)
    requires
        s.step == DispatchStep::EnterInstruction,
        s.thread_summary is None,
    ensures
        s.selected_agent < s.agents@.len() ==> prompt_content(s)[0][1].text
            == s.agents@[s.selected_agent as int]@,
        s.instruction@.len() == 0 ==> prompt_content(s)[3][0].text == "  │"@,
        0 < s.instruction@.len() <= 50 ==> prompt_content(s)[3][0].text == "  "@ + s.instruction@
            + "│"@,
        s.instruction@.len() > 50 ==> prompt_content(s)[3][0].text == "  "@ + ("…"@
            + s.instruction@.skip(s.instruction@.len() - 49)) + "│"@,
        s.error matches Some(e) ==> prompt_content(s).last()[0].text == "  "@ + e@,
        prompt_title(s) == " Dispatch — Instruction "@,
        prompt_extent(s, 0) == (60int, 12int),
{
}

} // verus!
