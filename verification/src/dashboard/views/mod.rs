//! What the dashboard's views show, as styled text and row plans.
pub mod action_menu;
pub mod activity;
pub mod conversation;
pub mod dispatch_prompt;
pub mod executions;
pub mod log_viewer;
pub mod markdown;
pub mod ops_lines;
pub mod ops_list;
pub mod overview;
pub mod payload;
pub mod threads;

use crate::double::{nearest, quotient, to_double};
use crate::double;
use crate::style::Color;
use crate::text::{cat, chars_of, str_eq, string_of, u64_text};
use crate::text;
use vstd::prelude::*;

verus! {

/// Thread statuses are readable as they stand.
pub fn humanize_thread_status(raw: &str) -> (r: &str)
    ensures
        r@ == raw@,
{
    raw
}

/// The label of an execution status; unknown values stand as they are.
pub open spec fn exec_label(raw: Seq<char>) -> Seq<char> {
    if raw == "picked_up"@ {
        "Picked Up"@
    } else if raw == "timed_out"@ {
        "Timed Out"@
    } else if raw == "queued"@ {
        "Queued"@
    } else if raw == "executing"@ {
        "Executing"@
    } else if raw == "completed"@ {
        "Completed"@
    } else if raw == "failed"@ {
        "Failed"@
    } else if raw == "crashed"@ {
        "Crashed"@
    } else if raw == "cancelled"@ {
        "Cancelled"@
    } else {
        raw
    }
}

/// The label of an execution status; unknown values stand as they are.
pub fn humanize_exec_status(raw: &str) -> (r: &str)
    ensures
        r@ == exec_label(raw@),
{
    if str_eq(raw, "picked_up") {
        "Picked Up"
    } else if str_eq(raw, "timed_out") {
        "Timed Out"
    } else if str_eq(raw, "queued") {
        "Queued"
    } else if str_eq(raw, "executing") {
        "Executing"
    } else if str_eq(raw, "completed") {
        "Completed"
    } else if str_eq(raw, "failed") {
        "Failed"
    } else if str_eq(raw, "crashed") {
        "Crashed"
    } else if str_eq(raw, "cancelled") {
        "Cancelled"
    } else {
        raw
    }
}

/// Executing, picked up or queued.
pub open spec fn running_status(status: Seq<char>) -> bool {
    status == "executing"@ || status == "picked_up"@ || status == "queued"@
}

/// Whether an execution status is that of a running execution.
pub fn is_running_exec_status(status: &str) -> (r: bool)
    ensures
        r == running_status(status@),
{
    str_eq(status, "executing") || str_eq(status, "picked_up") || str_eq(status, "queued")
}

// ── Durations ────────────────────────────────────────────────────────────────

/// Seconds from `then` to `now`: none when `then` lies ahead, and at most what
/// 63 bits hold.
pub open spec fn since(now: i64, then: i64) -> i64 {
    if now <= then {
        0
    } else if now - then > i64::MAX {
        i64::MAX
    } else {
        (now - then) as i64
    }
}

/// Seconds from `then` to `now`.
pub fn elapsed(now: i64, then: i64) -> (r: i64)
    ensures
        r == since(now, then),
        r >= 0,
{
    if now <= then {
        0
    } else if then < 0 && now > i64::MAX + then {
        i64::MAX
    } else {
        now - then
    }
}

/// A duration in its two largest units: `Ns`, `Nm Ns`, `Nh Nm` or `Nd Nh`.
/// Negative durations count as zero.
pub open spec fn duration_text(secs: int) -> Seq<char> {
    if secs <= 0 {
        text::dec(0) + "s"@
    } else if secs < 60 {
        text::dec(secs as nat) + "s"@
    } else if secs < 3600 {
        text::dec((secs / 60) as nat) + "m "@ + text::dec((secs % 60) as nat) + "s"@
    } else if secs < 86400 {
        text::dec((secs / 3600) as nat) + "h "@ + text::dec((secs % 3600 / 60) as nat) + "m"@
    } else {
        text::dec((secs / 86400) as nat) + "d "@ + text::dec((secs % 86400 / 3600) as nat) + "h"@
    }
}

/// `a`, a unit, `b` and another unit in a row.
fn two_units(a: u64, unit_a: &str, b: u64, unit_b: &str) -> (r: String)
    ensures
        r@ == text::dec(a as nat) + unit_a@ + text::dec(b as nat) + unit_b@,
{
    let mut s: String = u64_text(a);
    s.append(unit_a);
    let t: String = u64_text(b);
    s.append(t.as_str());
    s.append(unit_b);
    s
}

/// A duration in its two largest units.
pub fn format_duration_secs(secs: i64) -> (r: String)
    ensures
        r@ == duration_text(secs as int),
{
    let n: u64 = if secs < 0 {
        0
    } else {
        secs as u64
    };
    if n < 60 {
        let t: String = u64_text(n);
        cat(t.as_str(), "s")
    } else if n < 3600 {
        two_units(n / 60, "m ", n % 60, "s")
    } else if n < 86400 {
        two_units(n / 3600, "h ", n % 3600 / 60, "m")
    } else {
        two_units(n / 86400, "d ", n % 86400 / 3600, "h")
    }
}

/// Milliseconds below a second as `Nms`, whole seconds from there on, and `-`
/// for a negative duration.
pub open spec fn duration_ms_text(ms: int) -> Seq<char> {
    if ms < 0 {
        "-"@
    } else if ms < 1000 {
        text::dec(ms as nat) + "ms"@
    } else {
        duration_text(ms / 1000)
    }
}

/// A duration in milliseconds, for display.
pub fn format_duration_ms(ms: i64) -> (r: String)
    ensures
        r@ == duration_ms_text(ms as int),
{
    if ms < 0 {
        "-".to_owned()
    } else if ms < 1000 {
        let t: String = u64_text(ms as u64);
        cat(t.as_str(), "ms")
    } else {
        format_duration_secs(ms / 1000)
    }
}

// ── Token counts ─────────────────────────────────────────────────────────────

/// The double nearest to `n / d`, rounded to tenths with ties to even.
pub open spec fn quotient_tenths(n: nat, d: nat) -> nat {
    let q = double::double_quotient(double::int_double(n), d);
    double::round_half_even(10 * q.0, q.1)
}

/// A number of tenths with its decimal point.
pub open spec fn tenths_text(t: nat) -> Seq<char> {
    text::dec(t / 10) + "."@ + text::dec(t % 10)
}

/// A token count: plain below a thousand, then thousands, then millions, each
/// with one decimal. What would read as a thousand thousands is given in millions.
pub open spec fn tokens_text(n: int) -> Seq<char> {
    if n <= 0 {
        text::dec(0)
    } else if n < 1000 {
        text::dec(n as nat)
    } else if n < 999950 {
        tenths_text(quotient_tenths(n as nat, 1000)) + "K"@
    } else {
        tenths_text(quotient_tenths(n as nat, 1000000)) + "M"@
    }
}

fn tenths_of(n: u64, d: u128, unit: &str) -> (r: String)
    requires
        0 < n,
        d == 1000 && n < 1000000 || d == 1000000,
    ensures
        r@ == tenths_text(quotient_tenths(n as nat, d as nat)) + unit@,
{
    let a: u128 = to_double(n);
    let q: (u128, u128) = quotient(a, d);
    let t: u128 = nearest(10 * q.0, q.1);
    proof {
        let top = (10 * q.0) as int;
        assert(top / (q.1 as int) <= top) by (nonlinear_arith)
            requires
                q.1 >= 1,
                top >= 0,
        ;
    }
    let whole: u64 = (t / 10) as u64;
    let part: u64 = (t % 10) as u64;
    let mut s: String = u64_text(whole);
    s.append(".");
    let p: String = u64_text(part);
    s.append(p.as_str());
    s.append(unit);
    s
}

/// A token count in compact form.
pub fn format_tokens(n: i64) -> (r: String)
    ensures
        r@ == tokens_text(n as int),
{
    if n <= 0 {
        u64_text(0)
    } else if n < 1000 {
        u64_text(n as u64)
    } else if n < 999950 {
        tenths_of(n as u64, 1000, "K")
    } else {
        tenths_of(n as u64, 1000000, "M")
    }
}

// ── Truncation ───────────────────────────────────────────────────────────────

/// `s` cut to `max` characters, the last of them `…` when something was cut.
pub open spec fn truncated(s: Seq<char>, max: nat) -> Seq<char> {
    if s.len() <= max {
        s
    } else if max <= 1 {
        "…"@
    } else {
        s.take(max - 1) + "…"@
    }
}

/// `s` cut to `max` characters, the last of them `…` when something was cut.
pub fn truncate(s: &str, max_chars: usize) -> (r: String)
    ensures
        r@ == truncated(s@, max_chars as nat),
{
    let v: Vec<char> = chars_of(s);
    if v.len() <= max_chars {
        s.to_owned()
    } else if max_chars <= 1 {
        "…".to_owned()
    } else {
        let mut t: String = string_of(&v, 0, max_chars - 1);
        t.append("…");
        t
    }
}

/// The end of `s`, `max` characters long, the first of them `…` when something
/// was cut.
pub open spec fn truncated_left(s: Seq<char>, max: nat) -> Seq<char> {
    if s.len() <= max {
        s
    } else if max <= 1 {
        "…"@
    } else {
        "…"@ + s.skip(s.len() - (max - 1))
    }
}

/// The end of `s`, with a leading `…` when something was cut.
pub fn truncate_left(s: &str, max_chars: usize) -> (r: String)
    ensures
        r@ == truncated_left(s@, max_chars as nat),
{
    let v: Vec<char> = chars_of(s);
    if v.len() <= max_chars {
        s.to_owned()
    } else if max_chars <= 1 {
        "…".to_owned()
    } else {
        let t: String = string_of(&v, v.len() - (max_chars - 1), v.len());
        cat("…", t.as_str())
    }
}

/// A cut text has at most `max` characters, as long as there is room for the mark.
pub proof fn law_truncated_fits(s: Seq<char>, max: nat)
    requires
        max >= 1,
    ensures
        truncated(s, max).len() <= max,
        truncated_left(s, max).len() <= max,
{
    reveal_strlit("…");
}

/// Cutting twice to the same width changes nothing more.
pub proof fn law_truncate_idempotent(s: Seq<char>, max: nat)
    ensures
        truncated(truncated(s, max), max) == truncated(s, max),
        truncated_left(truncated_left(s, max), max) == truncated_left(s, max),
{
    reveal_strlit("…");
}

// ── Colours ──────────────────────────────────────────────────────────────────

/// The terminal colour of a thread status.
pub open spec fn thread_term_color(status: Seq<char>) -> Color {
    if status == "Active"@ || status == "active"@ {
        Color::Yellow
    } else if status == "Completed"@ || status == "completed"@ {
        Color::Green
    } else if status == "Failed"@ || status == "failed"@ {
        Color::Red
    } else if status == "Abandoned"@ || status == "abandoned"@ {
        Color::DarkGray
    } else {
        Color::White
    }
}

/// The terminal colour of a thread status.
pub fn thread_status_color(status: &str) -> (r: Color)
    ensures
        r == thread_term_color(status@),
{
    if str_eq(status, "Active") || str_eq(status, "active") {
        Color::Yellow
    } else if str_eq(status, "Completed") || str_eq(status, "completed") {
        Color::Green
    } else if str_eq(status, "Failed") || str_eq(status, "failed") {
        Color::Red
    } else if str_eq(status, "Abandoned") || str_eq(status, "abandoned") {
        Color::DarkGray
    } else {
        Color::White
    }
}

/// The terminal colour of an execution status.
pub open spec fn exec_term_color(status: Seq<char>) -> Color {
    if status == "completed"@ {
        Color::Green
    } else if status == "failed"@ || status == "crashed"@ || status == "timed_out"@ {
        Color::Red
    } else if status == "executing"@ || status == "picked_up"@ {
        Color::Yellow
    } else if status == "queued"@ {
        Color::Cyan
    } else if status == "cancelled"@ {
        Color::DarkGray
    } else {
        Color::White
    }
}

/// The terminal colour of an execution status.
pub fn exec_status_color(status: &str) -> (r: Color)
    ensures
        r == exec_term_color(status@),
{
    if str_eq(status, "completed") {
        Color::Green
    } else if str_eq(status, "failed") || str_eq(status, "crashed") || str_eq(status, "timed_out") {
        Color::Red
    } else if str_eq(status, "executing") || str_eq(status, "picked_up") {
        Color::Yellow
    } else if str_eq(status, "queued") {
        Color::Cyan
    } else if str_eq(status, "cancelled") {
        Color::DarkGray
    } else {
        Color::White
    }
}

// ── Laws ─────────────────────────────────────────────────────────────────────

/// What tells the names of the states apart.
pub proof fn lemma_states_apart()
    ensures
        "queued"@[0] == 'q',
        "picked_up"@[0] == 'p',
        "executing"@[0] == 'e',
        "completed"@[0] == 'c' && "completed"@[1] == 'o',
        "crashed"@[0] == 'c' && "crashed"@[1] == 'r',
        "cancelled"@[0] == 'c' && "cancelled"@[1] == 'a',
        "claimed"@[0] == 'c' && "claimed"@[1] == 'l',
        "failed"@[0] == 'f',
        "timed_out"@[0] == 't',
        "Active"@[0] == 'A' && "Active"@[1] == 'c',
        "Abandoned"@[0] == 'A' && "Abandoned"@[1] == 'b',
        "Completed"@[0] == 'C',
        "Failed"@[0] == 'F',
        "active"@[0] == 'a' && "active"@[1] == 'c',
        "abandoned"@[0] == 'a' && "abandoned"@[1] == 'b',
{
    reveal_strlit("queued");
    reveal_strlit("picked_up");
    reveal_strlit("executing");
    reveal_strlit("completed");
    reveal_strlit("failed");
    reveal_strlit("timed_out");
    reveal_strlit("crashed");
    reveal_strlit("cancelled");
    reveal_strlit("claimed");
    reveal_strlit("Active");
    reveal_strlit("active");
    reveal_strlit("Completed");
    reveal_strlit("Failed");
    reveal_strlit("Abandoned");
    reveal_strlit("abandoned");
}

/// The states of an execution in words; a state that is not known stands for
/// itself. An execution runs while it is queued, picked up or executing.
pub proof fn law_execution_states()
    ensures
        exec_label("queued"@) == "Queued"@,
        exec_label("picked_up"@) == "Picked Up"@,
        exec_label("executing"@) == "Executing"@,
        exec_label("completed"@) == "Completed"@,
        exec_label("failed"@) == "Failed"@,
        exec_label("timed_out"@) == "Timed Out"@,
        exec_label("crashed"@) == "Crashed"@,
        exec_label("cancelled"@) == "Cancelled"@,
        running_status("queued"@) && running_status("picked_up"@) && running_status("executing"@),
        !running_status("completed"@) && !running_status("failed"@) && !running_status(
            "timed_out"@,
        ) && !running_status("crashed"@) && !running_status("cancelled"@),
        exec_term_color("completed"@) == Color::Green,
        exec_term_color("failed"@) == Color::Red && exec_term_color("crashed"@) == Color::Red
            && exec_term_color("timed_out"@) == Color::Red,
        exec_term_color("executing"@) == Color::Yellow && exec_term_color("picked_up"@)
            == Color::Yellow,
        exec_term_color("queued"@) == Color::Cyan,
        exec_term_color("cancelled"@) == Color::DarkGray,
        thread_term_color("Active"@) == Color::Yellow && thread_term_color("active"@)
            == Color::Yellow,
        thread_term_color("Completed"@) == Color::Green && thread_term_color("completed"@)
            == Color::Green,
        thread_term_color("Failed"@) == Color::Red && thread_term_color("failed"@) == Color::Red,
        thread_term_color("Abandoned"@) == Color::DarkGray && thread_term_color("abandoned"@)
            == Color::DarkGray,
{
    lemma_states_apart();
}

/// Time that has passed, none if the other time lies ahead.
pub proof fn law_time_that_passed(now: i64, then: i64)
    ensures
        then <= now && now - then <= i64::MAX ==> since(now, then) == now - then,
        now <= then ==> since(now, then) == 0,
        now - then > i64::MAX ==> since(now, then) == i64::MAX,
{
}

/// A duration is told in its two largest units: days and hours, hours and
/// minutes, minutes and seconds, or seconds alone.
pub proof fn law_durations(d: int, h: int, m: int, s: int)
    requires
        0 <= d,
        0 <= h < 24,
        0 <= m < 60,
        0 <= s < 60,
    ensures
        d > 0 ==> duration_text(86400 * d + 3600 * h + 60 * m + s) == text::dec(d as nat) + "d "@
            + text::dec(h as nat) + "h"@,
        h > 0 ==> duration_text(3600 * h + 60 * m + s) == text::dec(h as nat) + "h "@ + text::dec(
            m as nat,
        ) + "m"@,
        m > 0 ==> duration_text(60 * m + s) == text::dec(m as nat) + "m "@ + text::dec(s as nat)
            + "s"@,
        duration_text(s) == text::dec(s as nat) + "s"@,
        duration_text(-s) == text::dec(0) + "s"@,
{
    let t = 86400 * d + 3600 * h + 60 * m + s;
    assert(t / 86400 == d && t % 86400 == 3600 * h + 60 * m + s);
    assert((3600 * h + 60 * m + s) / 3600 == h);
    assert((3600 * h + 60 * m + s) % 3600 == 60 * m + s);
    assert((60 * m + s) / 60 == m && (60 * m + s) % 60 == s);
}

/// A duration in milliseconds is told in milliseconds below a second, in whole
/// seconds and more from there, and as a dash where it is negative.
pub proof fn law_durations_in_milliseconds(secs: int, ms: int)
    requires
        0 <= ms < 1000,
        secs >= 1,
    ensures
        duration_ms_text(ms) == text::dec(ms as nat) + "ms"@,
        duration_ms_text(1000 * secs + ms) == duration_text(secs),
        duration_ms_text(-secs) == "-"@,
{
    assert((1000 * secs + ms) / 1000 == secs);
}

/// A text that is too long is cut to the length, with an ellipsis where it was
/// cut: at its end, or at its beginning. One that fits is left as it is.
pub proof fn law_truncation_keeps_the_rest(s: Seq<char>, max: nat)
    requires
        max >= 1,
    ensures
        s.len() <= max ==> truncated(s, max) == s && truncated_left(s, max) == s,
        s.len() > max ==> {
            &&& truncated(s, max).len() == max
            &&& truncated(s, max).last() == '…'
            &&& truncated(s, max).drop_last() == s.take(max - 1)
            &&& truncated_left(s, max).len() == max
            &&& truncated_left(s, max)[0] == '…'
            &&& truncated_left(s, max).drop_first() == s.skip(s.len() - max + 1)
        },
{
    reveal_strlit("…");
    if s.len() > max {
        assert(truncated(s, max).drop_last() =~= s.take(max - 1));
        assert(truncated_left(s, max).drop_first() =~= s.skip(s.len() - max + 1));
    }
}

/// Counts of tokens are told as they are below a thousand, and are none where
/// they are negative.
pub proof fn law_small_token_counts(n: int)
    requires
        n < 1000,
    ensures
        n >= 0 ==> tokens_text(n) == text::dec(n as nat),
        n < 0 ==> tokens_text(n) == text::dec(0),
{
}

/// A number of tenths is told with one digit after the point.
pub proof fn law_tenths(whole: nat, tenth: nat)
    requires
        tenth < 10,
    ensures
        tenths_text(10 * whole + tenth) == text::dec(whole) + "."@ + text::dec(tenth),
{
    assert((10 * whole + tenth) / 10 == whole);
    assert((10 * whole + tenth) % 10 == tenth);
}

/// Counts of tokens are told to the nearest tenth of a thousand or of a million:
/// what is told differs from the count by half a tenth at most, and by what a
/// double leaves out.
pub proof fn law_token_counts_to_a_tenth(n: nat, d: nat)
    requires
        d == 1000 || d == 1000000,
        0 < n < 9007199254740992,
    ensures
        2 * (quotient_tenths(n, d) * d) <= 20 * n + d + 20,
        20 * n <= 2 * (quotient_tenths(n, d) * d) + d + 20,
        1000 <= n < 999950 ==> tokens_text(n as int) == tenths_text(quotient_tenths(n, 1000))
            + "K"@,
        999950 <= n ==> tokens_text(n as int) == tenths_text(quotient_tenths(n, 1000000)) + "M"@,
{
    double::law_whole_numbers_as_doubles(n);
    double::law_quotients_as_doubles(n, d);
    let (m, k) = double::double_quotient(n, d);
    double::law_rounding_is_nearest(10 * m, k);
    let t = quotient_tenths(n, d);
    assert(10 * d <= 20 * k) by (nonlinear_arith)
        requires
            n * k >= 4503599627370496 * d,
            0 < n < 9007199254740992,
    ;
    assert(2 * (t * d) <= 20 * n + d + 20) by (nonlinear_arith)
        requires
            2 * (t * k) <= 2 * (10 * m) + k,
            2 * (m * d) <= 2 * (n * k) + d,
            10 * d <= 20 * k,
            k >= 1,
    {
        assert((2 * (t * d)) * k == (2 * (t * k)) * d);
        assert((2 * (t * k)) * d <= (20 * m + k) * d);
        assert((20 * m + k) * d == 10 * (2 * (m * d)) + k * d);
        assert(10 * (2 * (m * d)) <= 20 * (n * k) + 20 * k);
        assert((20 * n + d + 20) * k == 20 * (n * k) + d * k + 20 * k);
    }
    assert(20 * n <= 2 * (t * d) + d + 20) by (nonlinear_arith)
        requires
            2 * (10 * m) <= 2 * (t * k) + k,
            2 * (n * k) <= 2 * (m * d) + d,
            10 * d <= 20 * k,
            k >= 1,
    {
        assert((20 * m) * d <= (2 * (t * k) + k) * d);
        assert((20 * m) * d == 10 * (2 * (m * d)));
        assert((2 * (t * k) + k) * d == (2 * (t * d)) * k + d * k);
        assert(20 * (n * k) <= 10 * (2 * (m * d)) + 20 * k);
        assert((2 * (t * d) + d + 20) * k == (2 * (t * d)) * k + d * k + 20 * k);
        assert((20 * n) * k == 20 * (n * k));
    }
}

} // verus!
