//! Precision Instrument, the dashboard's palette and status markers.
use crate::dashboard::views;
use crate::style::Color;
use crate::text::str_eq;
use vstd::prelude::*;

verus! {

/// Primary background, near black.
pub const BG_PRIMARY: Color = Color::BgPrimary;

/// Panel background.
pub const BG_PANEL: Color = Color::BgPanel;

/// Card background.
pub const BG_CARD: Color = Color::BgCard;

/// Background of the selected row.
pub const BG_HIGHLIGHT: Color = Color::BgHighlight;

/// Status bar background.
pub const BG_STATUS_BAR: Color = Color::BgStatusBar;

/// Border of a panel without focus.
pub const BORDER_DIM: Color = Color::BorderDim;

/// Border of a panel with focus.
pub const BORDER_FOCUS: Color = Color::BorderFocus;

/// Labels, timestamps, secondary text.
pub const TEXT_MUTED: Color = Color::TextMuted;

/// Body text.
pub const TEXT_NORMAL: Color = Color::TextNormal;

/// Emphasised values.
pub const TEXT_BRIGHT: Color = Color::TextBright;

/// Decorative text.
pub const TEXT_DIM: Color = Color::TextDim;

/// Inline code.
pub const TEXT_CODE: Color = Color::TextCode;

/// Primary accent, warm amber.
pub const ACCENT: Color = Color::Accent;

/// Dimmed accent.
pub const ACCENT_DIM: Color = Color::AccentDim;

/// Healthy or completed.
pub const SUCCESS: Color = Color::Success;

/// Completed rows in lists.
pub const SUCCESS_DIM: Color = Color::SuccessDim;

/// Failed, crashed, timed out.
pub const FAILURE: Color = Color::Failure;

/// Queued or stale.
pub const WARNING: Color = Color::Warning;

/// Scrollbar track.
pub const SCROLLBAR_TRACK: Color = Color::ScrollbarTrack;

/// Filled segment of a progress bar.
pub const BATCH_PROGRESS_FILLED: &'static str = "━";

/// Empty segment of a progress bar.
pub const BATCH_PROGRESS_EMPTY: &'static str = "╌";

/// Running.
pub const MARKER_RUNNING: &'static str = "▸";

/// Queued.
pub const MARKER_QUEUED: &'static str = "◌";

/// Completed.
pub const MARKER_COMPLETED: &'static str = "✓";

/// Failed.
pub const MARKER_FAILED: &'static str = "✗";

/// Timed out.
pub const MARKER_TIMEOUT: &'static str = "⏱";

/// Idle.
pub const MARKER_IDLE: &'static str = "·";

/// Red, green and blue of a palette colour; the terminal's own colours have none.
pub open spec fn palette_rgb(color: Color) -> Option<(u8, u8, u8)> {
    match color {
        Color::BgPrimary => Some((12, 12, 16)),
        Color::BgPanel => Some((20, 20, 26)),
        Color::BgCard => Some((24, 24, 30)),
        Color::BgHighlight => Some((35, 35, 45)),
        Color::BgStatusBar => Some((25, 25, 32)),
        Color::BorderDim => Some((50, 50, 58)),
        Color::BorderFocus => Some((80, 80, 90)),
        Color::TextMuted => Some((100, 100, 112)),
        Color::TextNormal => Some((180, 180, 190)),
        Color::TextBright => Some((220, 220, 230)),
        Color::TextDim => Some((70, 70, 80)),
        Color::TextCode => Some((140, 180, 220)),
        Color::Accent => Some((232, 135, 75)),
        Color::AccentDim => Some((140, 70, 40)),
        Color::Success => Some((80, 200, 120)),
        Color::SuccessDim => Some((50, 130, 75)),
        Color::Failure => Some((200, 60, 60)),
        Color::Warning => Some((200, 170, 50)),
        Color::ScrollbarTrack => Some((35, 35, 42)),
        _ => None,
    }
}

/// Red, green and blue of a palette colour; the terminal's own colours have none.
pub fn rgb(color: Color) -> (r: Option<(u8, u8, u8)>)
    ensures
        r == palette_rgb(color),
{
    match color {
        Color::BgPrimary => Some((12, 12, 16)),
        Color::BgPanel => Some((20, 20, 26)),
        Color::BgCard => Some((24, 24, 30)),
        Color::BgHighlight => Some((35, 35, 45)),
        Color::BgStatusBar => Some((25, 25, 32)),
        Color::BorderDim => Some((50, 50, 58)),
        Color::BorderFocus => Some((80, 80, 90)),
        Color::TextMuted => Some((100, 100, 112)),
        Color::TextNormal => Some((180, 180, 190)),
        Color::TextBright => Some((220, 220, 230)),
        Color::TextDim => Some((70, 70, 80)),
        Color::TextCode => Some((140, 180, 220)),
        Color::Accent => Some((232, 135, 75)),
        Color::AccentDim => Some((140, 70, 40)),
        Color::Success => Some((80, 200, 120)),
        Color::SuccessDim => Some((50, 130, 75)),
        Color::Failure => Some((200, 60, 60)),
        Color::Warning => Some((200, 170, 50)),
        Color::ScrollbarTrack => Some((35, 35, 42)),
        _ => None,
    }
}

/// The palette colour of a thread status.
pub open spec fn thread_color(status: Seq<char>) -> Color {
    if status == "Active"@ || status == "active"@ {
        ACCENT
    } else if status == "Completed"@ || status == "completed"@ {
        SUCCESS_DIM
    } else if status == "Failed"@ || status == "failed"@ {
        FAILURE
    } else if status == "Abandoned"@ || status == "abandoned"@ {
        TEXT_DIM
    } else {
        TEXT_NORMAL
    }
}

/// The palette colour of a thread status.
pub fn thread_status_color(status: &str) -> (r: Color)
    ensures
        r == thread_color(status@),
{
    if str_eq(status, "Active") || str_eq(status, "active") {
        ACCENT
    } else if str_eq(status, "Completed") || str_eq(status, "completed") {
        SUCCESS_DIM
    } else if str_eq(status, "Failed") || str_eq(status, "failed") {
        FAILURE
    } else if str_eq(status, "Abandoned") || str_eq(status, "abandoned") {
        TEXT_DIM
    } else {
        TEXT_NORMAL
    }
}

/// The palette colour of an execution or merge status.
pub open spec fn exec_color(status: Seq<char>) -> Color {
    if status == "completed"@ {
        SUCCESS_DIM
    } else if status == "failed"@ || status == "crashed"@ || status == "timed_out"@ {
        FAILURE
    } else if status == "executing"@ || status == "picked_up"@ || status == "claimed"@ {
        ACCENT
    } else if status == "queued"@ {
        WARNING
    } else if status == "cancelled"@ {
        TEXT_DIM
    } else {
        TEXT_NORMAL
    }
}

/// The palette colour of an execution or merge status.
pub fn exec_status_color(status: &str) -> (r: Color)
    ensures
        r == exec_color(status@),
{
    if str_eq(status, "completed") {
        SUCCESS_DIM
    } else if str_eq(status, "failed") || str_eq(status, "crashed") || str_eq(status, "timed_out") {
        FAILURE
    } else if str_eq(status, "executing") || str_eq(status, "picked_up") || str_eq(
        status,
        "claimed",
    ) {
        ACCENT
    } else if str_eq(status, "queued") {
        WARNING
    } else if str_eq(status, "cancelled") {
        TEXT_DIM
    } else {
        TEXT_NORMAL
    }
}

/// The marker and colour of a thread in list rows: its latest execution decides
/// where that has a marker, otherwise the thread status does.
pub open spec fn thread_icon(status: Seq<char>, exec: Option<Seq<char>>) -> (Seq<char>, Color) {
    if exec == Some("executing"@) || exec == Some("picked_up"@) || exec == Some("queued"@) {
        (MARKER_RUNNING@, ACCENT)
    } else if exec == Some("failed"@) || exec == Some("crashed"@) {
        (MARKER_FAILED@, FAILURE)
    } else if exec == Some("timed_out"@) {
        (MARKER_TIMEOUT@, FAILURE)
    } else if exec == Some("completed"@) {
        (MARKER_COMPLETED@, SUCCESS_DIM)
    } else if status == "Completed"@ {
        (MARKER_COMPLETED@, SUCCESS_DIM)
    } else if status == "Failed"@ {
        (MARKER_FAILED@, FAILURE)
    } else if status == "Abandoned"@ {
        (MARKER_IDLE@, TEXT_DIM)
    } else {
        (" "@, TEXT_NORMAL)
    }
}

/// The marker and colour of a thread in list rows.
pub fn thread_status_icon(status: &str, exec_status: Option<&str>) -> (r: (&'static str, Color))
    ensures
        (r.0@, r.1) == thread_icon(
            status@,
            match exec_status {
                Some(e) => Some(e@),
                None => None,
            },
        ),
{
    if let Some(e) = exec_status {
        if str_eq(e, "executing") || str_eq(e, "picked_up") || str_eq(e, "queued") {
            return (MARKER_RUNNING, ACCENT);
        }
        if str_eq(e, "failed") || str_eq(e, "crashed") {
            return (MARKER_FAILED, FAILURE);
        }
        if str_eq(e, "timed_out") {
            return (MARKER_TIMEOUT, FAILURE);
        }
        if str_eq(e, "completed") {
            return (MARKER_COMPLETED, SUCCESS_DIM);
        }
    }
    if str_eq(status, "Completed") {
        (MARKER_COMPLETED, SUCCESS_DIM)
    } else if str_eq(status, "Failed") {
        (MARKER_FAILED, FAILURE)
    } else if str_eq(status, "Abandoned") {
        (MARKER_IDLE, TEXT_DIM)
    } else {
        (" ", TEXT_NORMAL)
    }
}

/// The colours of the states of threads and executions, and the mark of a thread
/// by its latest execution, or by its own state where that tells nothing.
pub proof fn law_colors_by_state(status: Seq<char>)
    ensures
        thread_color("Active"@) == ACCENT && thread_color("active"@) == ACCENT,
        thread_color("Completed"@) == SUCCESS_DIM && thread_color("completed"@) == SUCCESS_DIM,
        thread_color("Failed"@) == FAILURE && thread_color("failed"@) == FAILURE,
        thread_color("Abandoned"@) == TEXT_DIM && thread_color("abandoned"@) == TEXT_DIM,
        exec_color("completed"@) == SUCCESS_DIM,
        exec_color("failed"@) == FAILURE && exec_color("crashed"@) == FAILURE && exec_color(
            "timed_out"@,
        ) == FAILURE,
        exec_color("executing"@) == ACCENT && exec_color("picked_up"@) == ACCENT && exec_color(
            "claimed"@,
        ) == ACCENT,
        exec_color("queued"@) == WARNING,
        exec_color("cancelled"@) == TEXT_DIM,
        thread_icon(status, Some("executing"@)) == ("▸"@, ACCENT),
        thread_icon(status, Some("picked_up"@)) == ("▸"@, ACCENT),
        thread_icon(status, Some("queued"@)) == ("▸"@, ACCENT),
        thread_icon(status, Some("failed"@)) == ("✗"@, FAILURE),
        thread_icon(status, Some("crashed"@)) == ("✗"@, FAILURE),
        thread_icon(status, Some("timed_out"@)) == ("⏱"@, FAILURE),
        thread_icon(status, Some("completed"@)) == ("✓"@, SUCCESS_DIM),
        thread_icon("Completed"@, None) == ("✓"@, SUCCESS_DIM),
        thread_icon("Failed"@, None) == ("✗"@, FAILURE),
        thread_icon("Abandoned"@, None) == ("·"@, TEXT_DIM),
        thread_icon("Active"@, None) == (" "@, TEXT_NORMAL),
{
    views::lemma_states_apart();
}

/// The palette has a value for each colour but those that the terminal gives.
pub proof fn law_palette_has_its_colors(color: Color)
    ensures
        palette_rgb(color) is None <==> color is Yellow || color is Green || color is Red
            || color is DarkGray || color is White || color is Cyan || color is Blue,
        palette_rgb(Color::TextDim) == Some((70u8, 70u8, 80u8)),
        palette_rgb(Color::TextMuted) == Some((100u8, 100u8, 112u8)),
        palette_rgb(Color::TextNormal) == Some((180u8, 180u8, 190u8)),
        palette_rgb(Color::TextBright) == Some((220u8, 220u8, 230u8)),
        palette_rgb(Color::Accent) == Some((232u8, 135u8, 75u8)),
        palette_rgb(Color::Success) == Some((80u8, 200u8, 120u8)),
        palette_rgb(Color::Failure) == Some((200u8, 60u8, 60u8)),
        palette_rgb(Color::Warning) == Some((200u8, 170u8, 50u8)),
{
}

} // verus!
