//! What stands around the tabs: the status bar, the help and the quit dialog.
use crate::dashboard::app::{App, HELP_LINE_COUNT};
use crate::dashboard::theme::{ACCENT, TEXT_MUTED, WARNING};
use crate::style::{fg, plain, Line, SpanView};
use crate::style;
use crate::text::{cat, chars_of, join, string_of};
use crate::text;
use vstd::prelude::*;

verus! {

// ── Status bar ───────────────────────────────────────────────────────────────

/// A key and what it does, after a gap.
pub open spec fn hint(key: Seq<char>, does: Seq<char>) -> Seq<SpanView> {
    seq![style::sp("  "@, plain()), style::sp(key, fg(ACCENT).bold()), style::sp(does, plain())]
}

/// What the status bar shows on every tab.
pub open spec fn common_hints() -> Seq<SpanView> {
    seq![style::sp(" "@, plain()), style::sp("q"@, fg(ACCENT).bold()), style::sp(": quit"@, plain())] + hint(
        "?"@,
        ": help"@,
    ) + hint("Tab"@, ": next"@) + hint("↑/↓"@, ": select"@) + seq![style::sp(" "@, plain())]
}

/// What the status bar shows on a tab.
pub open spec fn tab_hints(tab: usize) -> Seq<SpanView> {
    if tab == 0 {
        hint("Enter"@, ": open/drill"@) + hint("c"@, ": conversation"@) + hint("Esc"@, ": back"@)
    } else if tab == 1 {
        hint("j/k"@, ": select agent"@)
    } else if tab == 2 {
        hint("Enter"@, ": drill/open"@) + hint("Esc"@, ": back batch"@)
    } else if tab == 3 {
        hint("j/k"@, ": scroll"@) + hint("r"@, ": refresh"@)
    } else {
        seq![]
    }
}

/// The optional strings that are there.
pub open spec fn present(a: Option<String>, b: Option<String>, c: Option<String>) -> Seq<
    Seq<char>,
> {
    (match a {
        Some(s) => seq![s@],
        None => seq![],
    }) + (match b {
        Some(s) => seq![s@],
        None => seq![],
    }) + (match c {
        Some(s) => seq![s@],
        None => seq![],
    })
}

/// The refresh errors in one text, cut to 48 characters.
pub open spec fn error_summary(errors: Seq<Seq<char>>) -> Seq<char> {
    let all = text::joined(errors, "; "@);
    if all.len() > 48 {
        all.take(47) + "…"@
    } else {
        all
    }
}

/// The refresh errors in the status bar.
pub open spec fn error_hint(a: App) -> Seq<SpanView> {
    let errors = present(
        a.activity_refresh_error,
        a.agents_refresh_error,
        a.executions_refresh_error,
    );
    if errors.len() == 0 {
        seq![]
    } else {
        seq![
            style::sp("  "@, plain()),
            style::sp("⚠ "@, fg(WARNING)),
            style::sp(error_summary(errors), fg(WARNING)),
        ]
    }
}

/// The hint for newcomers.
pub open spec fn tip(a: App) -> Seq<SpanView> {
    if a.show_hint_banner {
        seq![
            style::sp("  "@, plain()),
            style::sp("Tip:"@, fg(ACCENT)),
            style::sp(" press ? for keymap"@, fg(TEXT_MUTED)),
        ]
    } else {
        seq![]
    }
}

/// The status bar.
pub open spec fn status_bar(a: App) -> Seq<SpanView> {
    common_hints() + tab_hints(a.active_tab) + error_hint(a) + tip(a)
}

fn put_hint(line: &mut Line, key: &str, does: &str)
    ensures
        final(line)@ == old(line)@ + hint(key@, does@),
{
    let ghost before = line@;
    line.put("  ", plain());
    line.put(key, fg(ACCENT).bold());
    line.put(does, plain());
    assert(line@ =~= before + hint(key@, does@));
}

fn put_tab_hints(line: &mut Line, tab: usize)
    ensures
        final(line)@ == old(line)@ + tab_hints(tab),
{
    let ghost before = line@;
    match tab {
        0 => {
            put_hint(line, "Enter", ": open/drill");
            put_hint(line, "c", ": conversation");
            put_hint(line, "Esc", ": back");
        },
        1 => {
            put_hint(line, "j/k", ": select agent");
        },
        2 => {
            put_hint(line, "Enter", ": drill/open");
            put_hint(line, "Esc", ": back batch");
        },
        3 => {
            put_hint(line, "j/k", ": scroll");
            put_hint(line, "r", ": refresh");
        },
        _ => {},
    }
    assert(line@ =~= before + tab_hints(tab));
}

fn put_present(v: &mut Vec<String>, a: &Option<String>)
    ensures
        text::texts(final(v)@) == text::texts(old(v)@) + match *a {
            Some(s) => seq![s@],
            None => seq![],
        },
{
    let ghost before = text::texts(v@);
    if let Some(s) = a {
        v.push(s.clone());
        assert(text::texts(v@) =~= before + seq![s@]);
    } else {
        assert(text::texts(v@) =~= before + Seq::<Seq<char>>::empty());
    }
}

fn put_errors(line: &mut Line, a: &App)
    ensures
        final(line)@ == old(line)@ + error_hint(*a),
{
    let ghost before = line@;
    let ghost all = present(
        a.activity_refresh_error,
        a.agents_refresh_error,
        a.executions_refresh_error,
    );
    let mut errors: Vec<String> = Vec::new();
    put_present(&mut errors, &a.activity_refresh_error);
    put_present(&mut errors, &a.agents_refresh_error);
    put_present(&mut errors, &a.executions_refresh_error);
    assert(text::texts(errors@) =~= all);
    assert(errors@.len() == all.len());
    if errors.len() > 0 {
        let text: String = join(&errors, "; ");
        let v: Vec<char> = chars_of(text.as_str());
        let shown: String = if v.len() > 48 {
            cat(string_of(&v, 0, 47).as_str(), "…")
        } else {
            text
        };
        assert(shown@ =~= error_summary(all));
        line.put("  ", plain());
        line.put("⚠ ", fg(WARNING));
        line.put_string(shown, fg(WARNING));
    }
    assert(line@ =~= before + error_hint(*a));
}

/// The status bar.
pub fn status_bar_line(app: &App) -> (r: Line)
    ensures
        r@ == status_bar(*app),
{
    let mut line: Line = Line::of(" ", plain());
    line.put("q", fg(ACCENT).bold());
    line.put(": quit", plain());
    put_hint(&mut line, "?", ": help");
    put_hint(&mut line, "Tab", ": next");
    put_hint(&mut line, "↑/↓", ": select");
    line.put(" ", plain());
    assert(line@ =~= common_hints());
    put_tab_hints(&mut line, app.active_tab);
    put_errors(&mut line, app);
    let ghost before = line@;
    if app.show_hint_banner {
        line.put("  ", plain());
        line.put("Tip:", fg(ACCENT));
        line.put(" press ? for keymap", fg(TEXT_MUTED));
    }
    assert(line@ =~= before + tip(*app));
    line
}

// ── Quit dialog ──────────────────────────────────────────────────────────────

/// The question of the quit dialog.
pub fn quit_line() -> (r: Line)
    ensures
        r@ == seq![
            style::sp("Are you sure you want to quit? "@, plain()),
            style::sp("y"@, fg(ACCENT).bold()),
            style::sp("/"@, plain()),
            style::sp("n"@, fg(ACCENT).bold()),
        ],
{
    let mut line: Line = Line::of("Are you sure you want to quit? ", plain());
    line.put("y", fg(ACCENT).bold());
    line.put("/", plain());
    line.put("n", fg(ACCENT).bold());
    line
}

// ── Help ─────────────────────────────────────────────────────────────────────

/// The help, line by line.
pub open spec fn help_texts() -> Seq<Seq<char>> {
    seq![
        " Global"@,
        "   q confirm quit / Ctrl+C quit   ? toggle help   Tab/Shift+Tab switch tabs"@,
        "   1-4 jump tabs   r refresh"@,
        " Navigation"@,
        "   ↑/↓ or j/k move   g/G first/last"@,
        " Ops"@,
        "   Enter open log or drill batch   c conversation view"@,
        "   Esc/x back from batch drill"@,
        " Agents"@,
        "   ↑/↓ select agent   Enter view executions"@,
        " History"@,
        "   Enter drill batch/open execution   Esc back from filter"@,
        " Settings"@,
        "   read-only view   r refresh"@,
        " Execution Detail"@,
        "   ↑/↓ or j/k section   Enter collapse/expand   g/G top/bottom"@,
        "   Esc back   f follow   J view mode"@,
        " Conversation View"@,
        "   j/k or ↑/↓ scroll   g/G top/bottom   f follow   Esc back"@,
        ""@,
        " Press Esc, Enter, or ? to close this panel."@,
    ]
}

/// The help has as many lines as its scrolling counts with.
pub proof fn law_help_line_count()
    ensures
        help_texts().len() == HELP_LINE_COUNT,
{
}

fn put_help(v: &mut Vec<String>, text: &str)
    ensures
        text::texts(final(v)@) == text::texts(old(v)@).push(text@),
{
    let ghost before = text::texts(v@);
    v.push(text.to_owned());
    assert(text::texts(v@) =~= before.push(text@));
}

/// The help, line by line.
pub fn help_lines() -> (r: Vec<String>)
    ensures
        text::texts(r@) == help_texts(),
        r@.len() == HELP_LINE_COUNT,
{
    let mut v: Vec<String> = Vec::new();
    put_help(&mut v, " Global");
    put_help(
        &mut v,
        "   q confirm quit / Ctrl+C quit   ? toggle help   Tab/Shift+Tab switch tabs",
    );
    put_help(&mut v, "   1-4 jump tabs   r refresh");
    put_help(&mut v, " Navigation");
    put_help(&mut v, "   ↑/↓ or j/k move   g/G first/last");
    put_help(&mut v, " Ops");
    put_help(&mut v, "   Enter open log or drill batch   c conversation view");
    put_help(&mut v, "   Esc/x back from batch drill");
    put_help(&mut v, " Agents");
    put_help(&mut v, "   ↑/↓ select agent   Enter view executions");
    put_help(&mut v, " History");
    put_help(&mut v, "   Enter drill batch/open execution   Esc back from filter");
    put_help(&mut v, " Settings");
    put_help(&mut v, "   read-only view   r refresh");
    put_help(&mut v, " Execution Detail");
    put_help(&mut v, "   ↑/↓ or j/k section   Enter collapse/expand   g/G top/bottom");
    put_help(&mut v, "   Esc back   f follow   J view mode");
    put_help(&mut v, " Conversation View");
    put_help(&mut v, "   j/k or ↑/↓ scroll   g/G top/bottom   f follow   Esc back");
    put_help(&mut v, "");
    put_help(&mut v, " Press Esc, Enter, or ? to close this panel.");
    assert(text::texts(v@) =~= help_texts());
    assert(v@.len() == text::texts(v@).len());
    v
}

/// The legend below the help, where it does not fit.
pub fn help_legend(viewport_height: u16) -> (r: Option<&'static str>)
    ensures
        match r {
            Some(s) => viewport_height < HELP_LINE_COUNT && s@ == " ↑/↓ scroll "@,
            None => viewport_height >= HELP_LINE_COUNT,
        },
{
    if viewport_height < HELP_LINE_COUNT {
        Some(" ↑/↓ scroll ")
    } else {
        None
    }
}

// ── Laws ─────────────────────────────────────────────────────────────────────

/// What went wrong with a refresh is told in the status bar, in the order of the
/// tabs, and cut where it is too long; nothing is told where nothing went wrong.
pub proof fn law_errors_in_the_status_bar(a: App, x: String, y: String, z: String)
    ensures
        a.activity_refresh_error is None && a.agents_refresh_error is None
            && a.executions_refresh_error is None ==> error_hint(a).len() == 0,
        a.activity_refresh_error is Some || a.agents_refresh_error is Some
            || a.executions_refresh_error is Some ==> error_hint(a).len() == 3,
        a.activity_refresh_error == Some(x) && a.agents_refresh_error is None
            && a.executions_refresh_error is None && x@.len() <= 48 ==> error_hint(a)[2].text == x@,
        present(Some(x), Some(y), Some(z)) == seq![x@, y@, z@],
        present(None, Some(y), None) == seq![y@],
        present(None, None, Some(z)) == seq![z@],
        error_summary(seq![x@]) == if x@.len() <= 48 {
            x@
        } else {
            x@.take(47) + "…"@
        },
        (x@ + "; "@ + y@).len() <= 48 ==> error_summary(seq![x@, y@]) == x@ + "; "@ + y@,
{
    assert(present(Some(x), Some(y), Some(z)) =~= seq![x@, y@, z@]);
    assert(present(None, Some(y), None) =~= seq![y@]);
    assert(present(None, None, Some(z)) =~= seq![z@]);
    assert(present(Some(x), None, None) =~= seq![x@]);
    text::law_joined_one_more(seq![x@], y@, "; "@);
    text::law_joined_one_more(seq![], x@, "; "@);
    assert(seq![x@].push(y@) =~= seq![x@, y@]);
}

/// Each tab tells its own keys.
pub proof fn law_hints_of_the_tabs()
    ensures
        tab_hints(0)[1].text == "Enter"@ && tab_hints(0)[4].text == "c"@ && tab_hints(0)[7].text
            == "Esc"@,
        tab_hints(1)[1].text == "j/k"@,
        tab_hints(2)[1].text == "Enter"@ && tab_hints(2)[4].text == "Esc"@,
        tab_hints(3)[1].text == "j/k"@ && tab_hints(3)[4].text == "r"@,
{
}

/// The status bar tells the common keys, those of the tab, what went wrong, and
/// the tip as long as no key was pressed.
pub proof fn law_status_bar_tells(a: App)
    ensures
        status_bar(a) == common_hints() + tab_hints(a.active_tab) + error_hint(a) + tip(a),
        common_hints()[1].text == "q"@ && common_hints()[2].text == ": quit"@,
        common_hints()[4].text == "?"@ && common_hints()[5].text == ": help"@,
        a.show_hint_banner ==> tip(a).len() == 3 && tip(a)[2].text == " press ? for keymap"@,
        !a.show_hint_banner ==> tip(a).len() == 0,
{
}

} // verus!
