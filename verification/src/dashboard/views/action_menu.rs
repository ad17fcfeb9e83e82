//! The action menu, the confirmation prompt and the feedback of an action.
use crate::dashboard::actions::ActionEntry;
use crate::dashboard::theme::{
    ACCENT, FAILURE, MARKER_COMPLETED, MARKER_FAILED, SUCCESS, TEXT_MUTED, TEXT_NORMAL, WARNING,
};
use crate::style::{fg, no_lines, plain, push_line, Color, Line, SpanView};
use crate::style;
use crate::text::{byte_count, cat3, chars_of, find_char, string_of};
use crate::text;
use vstd::prelude::*;

verus! {

// ── The menu ─────────────────────────────────────────────────────────────────

/// The title of the menu for a target.
pub open spec fn menu_title_text(target_label: Seq<char>) -> Seq<char> {
    " Actions: "@ + target_label + " "@
}

/// The title of the menu for a target.
pub fn menu_title(target_label: &str) -> (r: String)
    ensures
        r@ == menu_title_text(target_label@),
{
    cat3(" Actions: ", target_label, " ")
}

/// The most bytes that the label of an action has.
pub open spec fn longest_label(actions: Seq<ActionEntry>) -> nat
    decreases actions.len(),
{
    if actions.len() == 0 {
        0
    } else {
        let rest = longest_label(actions.drop_last());
        let n = text::byte_len(actions.last().label@);
        if n > rest {
            n
        } else {
            rest
        }
    }
}

/// The larger of two numbers.
pub open spec fn larger(a: int, b: int) -> int {
    if a >= b {
        a
    } else {
        b
    }
}

/// `n`, or the largest size if it is beyond that.
pub open spec fn sized(n: int) -> int {
    if n > usize::MAX {
        usize::MAX as int
    } else {
        n
    }
}

/// Columns and rows of the menu: room for the longest label and the title, at
/// least 40 columns; a row for each action, and five around them.
pub open spec fn menu_extent(target_label: Seq<char>, actions: Seq<ActionEntry>) -> (int, int) {
    (
        larger(
            larger(sized(longest_label(actions) as int + 6), 40),
            sized(text::byte_len(menu_title_text(target_label)) as int + 2),
        ),
        larger(sized(actions.len() as int + 5), 6),
    )
}

fn grown(n: usize, by: usize) -> (r: usize)
    ensures
        r == sized(n + by),
{
    if n > usize::MAX - by {
        usize::MAX
    } else {
        n + by
    }
}

/// Columns and rows of the menu.
pub fn menu_size(target_label: &str, actions: &Vec<ActionEntry>) -> (r: (usize, usize))
    ensures
        (r.0 as int, r.1 as int) == menu_extent(target_label@, actions@),
{
    let mut longest: usize = 0;
    let mut i: usize = 0;
    while i < actions.len()
        invariant
            i <= actions@.len(),
            longest == longest_label(actions@.take(i as int)),
        decreases actions@.len() - i,
    {
        assert(actions@.take(i + 1).drop_last() =~= actions@.take(i as int));
        let n: usize = byte_count(actions[i].label);
        if n > longest {
            longest = n;
        }
        i += 1;
    }
    assert(actions@.take(i as int) =~= actions@);
    let mut width: usize = grown(longest, 6);
    if width < 40 {
        width = 40;
    }
    let title: String = menu_title(target_label);
    let titled: usize = grown(byte_count(title.as_str()), 2);
    if width < titled {
        width = titled;
    }
    let mut height: usize = grown(actions.len(), 5);
    if height < 6 {
        height = 6;
    }
    (width, height)
}

/// The line of an action: its key and its label.
pub open spec fn entry_line(e: ActionEntry) -> Seq<SpanView> {
    seq![
        style::sp("  "@, plain()),
        style::sp(seq![e.key], fg(ACCENT).bold()),
        style::sp("  "@, plain()),
        style::sp(e.label@, fg(TEXT_NORMAL)),
    ]
}

/// The lines of the menu.
pub open spec fn menu_content(actions: Seq<ActionEntry>) -> Seq<Seq<SpanView>> {
    seq![seq![style::sp(""@, plain())]] + (if actions.len() == 0 {
        seq![seq![style::sp("  No actions available"@, fg(TEXT_MUTED))]]
    } else {
        actions.map_values(|e: ActionEntry| entry_line(e))
    }) + seq![seq![style::sp(""@, plain())], seq![style::sp("  Esc cancel"@, fg(TEXT_MUTED))]]
}

/// The lines of the menu.
pub fn menu_lines(actions: &Vec<ActionEntry>) -> (r: Vec<Line>)
    ensures
        style::lines_view(r@) == menu_content(actions@),
{
    let mut lines: Vec<Line> = no_lines();
    push_line(&mut lines, Line::of("", plain()));
    if actions.len() == 0 {
        push_line(&mut lines, Line::of("  No actions available", fg(TEXT_MUTED)));
    }
    let ghost head = style::lines_view(lines@);
    let ghost entries = actions@.map_values(|e: ActionEntry| entry_line(e));
    let mut i: usize = 0;
    while i < actions.len()
        invariant
            i <= actions@.len(),
            entries == actions@.map_values(|e: ActionEntry| entry_line(e)),
            style::lines_view(lines@) == head + entries.take(i as int),
        decreases actions@.len() - i,
    {
        let mut key: String = String::new();
        key.push(actions[i].key);
        let mut line: Line = Line::new();
        line.put("  ", plain());
        line.put_string(key, fg(ACCENT).bold());
        line.put("  ", plain());
        line.put(actions[i].label, fg(TEXT_NORMAL));
        assert(key@ =~= seq![actions@[i as int].key]);
        assert(line@ =~= entry_line(actions@[i as int]));
        push_line(&mut lines, line);
        assert(entries.take(i + 1) =~= entries.take(i as int).push(entries[i as int]));
        assert(style::lines_view(lines@) =~= head + entries.take(i + 1));
        i += 1;
    }
    push_line(&mut lines, Line::of("", plain()));
    push_line(&mut lines, Line::of("  Esc cancel", fg(TEXT_MUTED)));
    assert(entries.take(i as int) =~= entries);
    assert(style::lines_view(lines@) =~= menu_content(actions@));
    lines
}

// ── Confirmation ─────────────────────────────────────────────────────────────

/// A prompt in spans: keys in square brackets are bold.
pub open spec fn prompt_spans(s: Seq<char>) -> Seq<SpanView>
    decreases s.len(),
{
    let open = text::index_from(s, '[', 0);
    let close = text::index_from(s, ']', open);
    if 0 <= open <= close < s.len() {
        (if open > 0 {
            seq![style::sp(s.take(open), fg(WARNING))]
        } else {
            seq![]
        }) + seq![style::sp(s.subrange(open, close + 1), fg(WARNING).bold())] + prompt_spans(
            s.skip(close + 1),
        )
    } else if s.len() > 0 {
        seq![style::sp(s, fg(WARNING))]
    } else {
        seq![]
    }
}

/// A prompt reads as it was written, whatever its brackets.
pub proof fn law_prompt_text_kept(s: Seq<char>)
    ensures
        style::line_text(prompt_spans(s)) == s,
    decreases s.len(),
{
    reveal_with_fuel(style::line_text, 3);
    let open = text::index_from(s, '[', 0);
    text::lemma_index_from(s, '[', 0);
    text::lemma_index_from(s, ']', open);
    let close = text::index_from(s, ']', open);
    if close < s.len() {
        let head = if open > 0 {
            seq![style::sp(s.take(open), fg(WARNING))]
        } else {
            seq![]
        };
        let key = seq![style::sp(s.subrange(open, close + 1), fg(WARNING).bold())];
        let rest = prompt_spans(s.skip(close + 1));
        law_prompt_text_kept(s.skip(close + 1));
        style::lemma_line_text_add(head, key);
        style::lemma_line_text_add(head + key, rest);
        assert(head.len() > 0 ==> head.drop_last() =~= seq![]);
        assert(key.drop_last() =~= seq![]);
        assert(style::line_text(head) =~= s.take(open));
        assert(style::line_text(key) =~= s.subrange(open, close + 1));
        assert(s.take(open) + s.subrange(open, close + 1) + s.skip(close + 1) =~= s);
    } else if s.len() > 0 {
        assert(prompt_spans(s).drop_last() =~= seq![]);
        assert(style::line_text(prompt_spans(s)) =~= s);
    } else {
        assert(s =~= seq![]);
    }
}

/// The confirmation prompt as a line.
pub fn confirmation_line(prompt: &str) -> (r: Line)
    ensures
        r@ == prompt_spans(prompt@),
        style::line_text(r@) == prompt@,
{
    let v: Vec<char> = chars_of(prompt);
    let mut line: Line = Line::new();
    let mut from: usize = 0;
    assert(v@.skip(0) =~= v@);
    loop
        invariant_except_break
            line@ + prompt_spans(v@.skip(from as int)) == prompt_spans(v@),
        invariant
            v@ == prompt@,
            from <= v@.len(),
        ensures
            line@ == prompt_spans(v@),
        decreases v@.len() - from,
    {
        let ghost rest = v@.skip(from as int);
        let ghost before = line@;
        let open: usize = find_char(&v, '[', from);
        let close: usize = find_char(&v, ']', open);
        proof {
            lemma_index_skip(v@, '[', from as int, 0);
            lemma_index_skip(v@, ']', from as int, open - from);
        }
        if close < v.len() {
            if open > from {
                line.put_string(string_of(&v, from, open), fg(WARNING));
                assert(rest.take(open - from) =~= v@.subrange(from as int, open as int));
            }
            line.put_string(string_of(&v, open, close + 1), fg(WARNING).bold());
            assert(rest.subrange(open - from, close + 1 - from) =~= v@.subrange(
                open as int,
                close + 1,
            ));
            assert(rest.skip(close + 1 - from) =~= v@.skip(close + 1));
            assert(line@ + prompt_spans(v@.skip(close + 1)) =~= before + prompt_spans(rest));
            from = close + 1;
        } else {
            if from < v.len() {
                line.put_string(string_of(&v, from, v.len()), fg(WARNING));
                assert(rest =~= v@.subrange(from as int, v@.len() as int));
            }
            assert(line@ =~= before + prompt_spans(rest));
            break ;
        }
    }
    proof {
        law_prompt_text_kept(prompt@);
    }
    line
}

/// Where a character stands in the rest of a text.
proof fn lemma_index_skip(s: Seq<char>, c: char, from: int, at: int)
    requires
        0 <= from,
        0 <= at,
        from + at <= s.len(),
    ensures
        text::index_from(s, c, from + at) == from + text::index_from(s.skip(from), c, at),
    decreases s.len() - from - at,
{
    if from + at < s.len() {
        lemma_index_skip(s, c, from, at + 1);
    }
}

// ── Feedback ─────────────────────────────────────────────────────────────────

/// What an action came to, marked as a success or an error.
pub open spec fn feedback_spans(message: Seq<char>, is_error: bool) -> Seq<SpanView> {
    if is_error {
        seq![style::sp(MARKER_FAILED@ + " "@ + message, fg(FAILURE))]
    } else {
        seq![style::sp(MARKER_COMPLETED@ + " "@ + message, fg(SUCCESS))]
    }
}

/// What an action came to, as a line.
pub fn feedback_line(message: &str, is_error: bool) -> (r: Line)
    ensures
        r@ == feedback_spans(message@, is_error),
{
    let (marker, color): (&str, Color) = if is_error {
        (MARKER_FAILED, FAILURE)
    } else {
        (MARKER_COMPLETED, SUCCESS)
    };
    Line::of(cat3(marker, " ", message).as_str(), fg(color))
}

// ── Laws ─────────────────────────────────────────────────────────────────────

/// The menu is wide enough for each of its labels, its title and forty columns,
/// and high enough for each of its entries.
pub proof fn law_menu_holds_its_entries(
    target: Seq<char>,
    actions: Seq<ActionEntry>,
    e: ActionEntry,
)
    requires
        actions.len() + 6 <= usize::MAX,
        text::byte_len(e.label@) + 6 <= usize::MAX,
        text::byte_len(menu_title_text(target)) + 2 <= usize::MAX,
    ensures
        menu_extent(target, actions).0 >= 40,
        menu_extent(target, actions).0 >= text::byte_len(" Actions: "@ + target + " "@) + 2,
        menu_extent(target, actions.push(e)).0 >= text::byte_len(e.label@) + 6,
        menu_extent(target, actions.push(e)).0 >= menu_extent(target, actions).0,
        menu_extent(target, actions.push(e)).1 == actions.len() + 6,
        menu_extent(target, Seq::empty()).1 == 6,
        longest_label(actions.push(e)) == text::byte_len(e.label@) || longest_label(actions.push(e))
            == longest_label(actions),
        longest_label(Seq::empty()) == 0,
{
    assert(actions.push(e).drop_last() =~= actions);
}

/// The menu lists its actions, each by its key and label, or tells that there are
/// none.
pub proof fn law_menu_lists_its_actions(actions: Seq<ActionEntry>, i: int)
    ensures
        actions.len() == 0 ==> menu_content(actions)[1][0].text == "  No actions available"@,
        actions.len() > 0 ==> menu_content(actions).len() == actions.len() + 3,
        0 <= i < actions.len() ==> {
            &&& menu_content(actions)[i + 1][1].text == seq![actions[i].key]
            &&& menu_content(actions)[i + 1][3].text == actions[i].label@
        },
        menu_content(actions).last()[0].text == "  Esc cancel"@,
{
}

/// What is told after an action: a mark for success or failure, and the message.
pub proof fn law_feedback_by_outcome(message: Seq<char>)
    ensures
        feedback_spans(message, true)[0].text == "✗"@ + " "@ + message,
        feedback_spans(message, true)[0].style.fg == Some(FAILURE),
        feedback_spans(message, false)[0].text == "✓"@ + " "@ + message,
        feedback_spans(message, false)[0].style.fg == Some(SUCCESS),
{
}

/// What a prompt puts in brackets stands out; the rest does not.
pub proof fn law_brackets_stand_out(a: Seq<char>, inner: Seq<char>, rest: Seq<char>)
    requires
        !a.contains('['),
        a.len() > 0,
        !inner.contains(']'),
    ensures
        prompt_spans(a + seq!['['] + inner + seq![']'] + rest) == seq![
            style::sp(a, fg(WARNING)),
            style::sp(seq!['['] + inner + seq![']'], fg(WARNING).bold()),
        ] + prompt_spans(rest),
        prompt_spans(a) == seq![style::sp(a, fg(WARNING))],
{
    let s = a + seq!['['] + inner + seq![']'] + rest;
    let open = text::index_from(s, '[', 0);
    text::lemma_index_from(s, '[', 0);
    assert(s[a.len() as int] == '[');
    if open < a.len() {
        assert(s[open] == a[open]);
        assert(a.contains('['));
    }
    assert(open == a.len());
    let close = text::index_from(s, ']', open);
    text::lemma_index_from(s, ']', open);
    let end = a.len() + 1 + inner.len();
    assert(s[end as int] == ']');
    if close < end {
        if close > open {
            assert(s[close] == inner[close - a.len() - 1]);
            assert(inner.contains(']'));
        }
    }
    assert(close == end);
    assert(s.take(open) =~= a);
    assert(s.subrange(open, close + 1) =~= seq!['['] + inner + seq![']']);
    assert(s.skip(close + 1) =~= rest);
    assert(prompt_spans(s) =~= seq![
        style::sp(a, fg(WARNING)),
        style::sp(seq!['['] + inner + seq![']'], fg(WARNING).bold()),
    ] + prompt_spans(rest));
    text::lemma_index_from(a, '[', 0);
    if text::index_from(a, '[', 0) < a.len() {
        assert(a.contains('['));
    }
    text::lemma_index_from(a, ']', text::index_from(a, '[', 0));
}

} // verus!
