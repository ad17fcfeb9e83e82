//! The Settings tab.
use crate::clock::Instant;
use crate::dashboard::app::ScheduleRuns;
use crate::dashboard::theme::{ACCENT, SUCCESS, TEXT_BRIGHT, TEXT_DIM, TEXT_MUTED, TEXT_NORMAL};
use crate::dashboard::views::{format_duration_secs, truncate};
use crate::dashboard::views;
use crate::style::{fg, no_lines, plain, push_line, Color, Line, SpanView};
use crate::style;
use crate::text::{cat, cat3, pad_right, str_eq, u64_text, usize_text};
use crate::text;
use vstd::prelude::*;

verus! {

/// A schedule as it is configured.
#[derive(Clone, Debug)]
pub struct ScheduleConfig {
    pub name: String,
    pub agent: String,
    pub cron: String,
    pub enabled: bool,
    pub max_runs: u64,
}

/// What the Settings tab shows of the configuration.
#[derive(Clone, Debug)]
pub struct SettingsInfo {
    pub config_path: String,
    pub db_path: String,
    pub poll_secs: u64,
    pub agent_count: usize,
    pub log_dir: String,
    pub schedules: Vec<ScheduleConfig>,
}

// ── Next run ─────────────────────────────────────────────────────────────────

/// The first time after `now` at which the cron expression fires, in UTC, as
/// `croner` finds it; nothing where the expression cannot be read or never
/// fires again.
pub uninterp spec fn cron_next(pattern: Seq<char>, now: Instant) -> Option<Instant>;

/// `str::parse::<croner::Cron>` and `Cron::find_next_occurrence` from `now` in
/// UTC, `now` itself left out. What they find depends on the expression and the
/// time alone. The search spans the years 1 to 5000: an earlier time is taken
/// forward to the first of them, and after the last nothing is found. Nothing is
/// found either where `DateTime::from_timestamp` has no such time.
#[verifier::external_body]
fn find_next(pattern: &str, now: Instant) -> (r: Option<Instant>)
    ensures
        r == cron_next(pattern@, now),
{
    let start = chrono::DateTime::from_timestamp(now.secs, now.nanos)?;
    let cron = pattern.parse::<croner::Cron>().ok()?;
    let next = cron.find_next_occurrence(&start, false).ok()?;
    Some(Instant { secs: next.timestamp(), nanos: next.timestamp_subsec_nanos() })
}

/// Whole seconds from `now` to `next`; none if it has passed.
pub open spec fn seconds_until(next: Instant, now: Instant) -> int {
    let nanos = (next.secs - now.secs) * 1000000000 + (next.nanos - now.nanos);
    if nanos <= 0 {
        0
    } else {
        nanos / 1000000000
    }
}

/// How long it is until the next run, or a dash.
pub open spec fn next_label(next: Option<Instant>, now: Instant) -> Seq<char> {
    match next {
        Some(n) => views::duration_text(seconds_until(n, now)),
        None => "—"@,
    }
}

/// How long it is until the next run, or a dash.
pub fn next_run_label(next: Option<Instant>, now: Instant) -> (r: String)
    ensures
        r@ == next_label(next, now),
{
    match next {
        None => "—".to_owned(),
        Some(n) => {
            let nanos: i128 = (n.secs as i128 - now.secs as i128) * 1000000000 + (n.nanos as i128
                - now.nanos as i128);
            if nanos <= 0 {
                format_duration_secs(0)
            } else {
                let secs: i128 = nanos / 1000000000;
                if secs > i64::MAX as i128 {
                    long_duration(secs as u128)
                } else {
                    format_duration_secs(secs as i64)
                }
            }
        },
    }
}

/// A duration of days and hours.
fn long_duration(secs: u128) -> (r: String)
    requires
        i64::MAX < secs <= 2 * i64::MAX + 10,
    ensures
        r@ == views::duration_text(secs as int),
{
    let mut s: String = u64_text((secs / 86400) as u64);
    s.append("d ");
    s.append(u64_text((secs % 86400 / 3600) as u64).as_str());
    s.append("h");
    s
}

// ── Schedules ────────────────────────────────────────────────────────────────

/// How often the schedule called `name` has run.
pub open spec fn runs_named(runs: Seq<ScheduleRuns>, name: Seq<char>) -> u64
    decreases runs.len(),
{
    if runs.len() == 0 {
        0
    } else if runs[0].name@ == name {
        runs[0].run_count
    } else {
        runs_named(runs.skip(1), name)
    }
}

/// How often the schedule called `name` has run, as far as it is known.
pub open spec fn run_count(runs: Option<Vec<ScheduleRuns>>, name: Seq<char>) -> u64 {
    match runs {
        Some(v) => runs_named(v@, name),
        None => 0,
    }
}

fn count_runs(runs: &Option<Vec<ScheduleRuns>>, name: &str) -> (r: u64)
    ensures
        r == run_count(*runs, name@),
{
    match runs {
        None => 0,
        Some(v) => {
            let mut i: usize = 0;
            assert(v@.skip(0) =~= v@);
            while i < v.len()
                invariant
                    i <= v@.len(),
                    *runs == Some(*v),
                    runs_named(v@, name@) == runs_named(v@.skip(i as int), name@),
                decreases v@.len() - i,
            {
                if str_eq(v[i].name.as_str(), name) {
                    return v[i].run_count;
                }
                assert(v@.skip(i as int).skip(1) =~= v@.skip(i + 1));
                i += 1;
            }
            0
        },
    }
}

/// The line of a schedule, given how long it is until its next run.
pub open spec fn schedule_spans(s: ScheduleConfig, next: Seq<char>, runs: u64) -> Seq<SpanView> {
    seq![
        style::sp("  "@, plain()),
        style::sp(
            text::padded_right(views::truncated(s.name@, 13), 14),
            fg(
                if s.enabled {
                    TEXT_BRIGHT
                } else {
                    TEXT_DIM
                },
            ),
        ),
        style::sp(" "@, plain()),
        style::sp(text::padded_right(views::truncated(s.agent@, 9), 10), fg(TEXT_NORMAL)),
        style::sp(" "@, plain()),
        style::sp(text::padded_right(views::truncated(s.cron@, 13), 14), fg(TEXT_MUTED)),
        style::sp(" "@, plain()),
        style::sp(text::padded_right(views::truncated(next, 9), 10), fg(ACCENT)),
        style::sp(" "@, plain()),
        style::sp(
            text::padded_right(views::truncated(text::dec(runs as nat) + "/"@ + text::dec(s.max_runs as nat), 7), 8),
            fg(TEXT_NORMAL),
        ),
        style::sp(" "@, plain()),
        if s.enabled {
            style::sp("enabled"@, fg(SUCCESS))
        } else {
            style::sp("disabled"@, fg(TEXT_DIM))
        },
    ]
}

/// The line of a schedule, given how long it is until its next run.
pub fn schedule_line(s: &ScheduleConfig, next: &str, runs: u64) -> (r: Line)
    ensures
        r@ == schedule_spans(*s, next@, runs),
{
    let (name_color, status, status_color): (Color, &str, Color) = if s.enabled {
        (TEXT_BRIGHT, "enabled", SUCCESS)
    } else {
        (TEXT_DIM, "disabled", TEXT_DIM)
    };
    let count: String = cat3(u64_text(runs).as_str(), "/", u64_text(s.max_runs).as_str());
    let mut line: Line = Line::new();
    line.put("  ", plain());
    line.put_string(pad_right(truncate(s.name.as_str(), 13).as_str(), 14), fg(name_color));
    line.put(" ", plain());
    line.put_string(pad_right(truncate(s.agent.as_str(), 9).as_str(), 10), fg(TEXT_NORMAL));
    line.put(" ", plain());
    line.put_string(pad_right(truncate(s.cron.as_str(), 13).as_str(), 14), fg(TEXT_MUTED));
    line.put(" ", plain());
    line.put_string(pad_right(truncate(next, 9).as_str(), 10), fg(ACCENT));
    line.put(" ", plain());
    line.put_string(pad_right(truncate(count.as_str(), 7).as_str(), 8), fg(TEXT_NORMAL));
    line.put(" ", plain());
    line.put(status, fg(status_color));
    assert(line@ =~= schedule_spans(*s, next@, runs));
    line
}

/// How long it is until a schedule runs next; a disabled one never runs.
pub open spec fn schedule_next(s: ScheduleConfig, now: Instant) -> Seq<char> {
    if s.enabled {
        next_label(cron_next(s.cron@, now), now)
    } else {
        "—"@
    }
}

/// How long it is until a schedule runs next.
pub fn next_fire(s: &ScheduleConfig, now: Instant) -> (r: String)
    ensures
        r@ == schedule_next(*s, now),
{
    if s.enabled {
        next_run_label(find_next(s.cron.as_str(), now), now)
    } else {
        "—".to_owned()
    }
}

/// The lines of all schedules.
pub open spec fn schedule_table(
    schedules: Seq<ScheduleConfig>,
    runs: Option<Vec<ScheduleRuns>>,
    now: Instant,
) -> Seq<Seq<SpanView>> {
    schedules.map_values(
        |s: ScheduleConfig| schedule_spans(s, schedule_next(s, now), run_count(runs, s.name@)),
    )
}

// ── The tab ──────────────────────────────────────────────────────────────────

/// A line of a label and a value.
pub open spec fn setting(label: Seq<char>, value: Seq<char>) -> Seq<SpanView> {
    seq![
        style::sp("  "@, plain()),
        style::sp(text::padded_right(label, 14) + " "@, fg(TEXT_MUTED).bold()),
        style::sp(value, fg(TEXT_NORMAL)),
    ]
}

fn setting_line(label: &str, value: &str) -> (r: Line)
    ensures
        r@ == setting(label@, value@),
{
    let mut line: Line = Line::new();
    line.put("  ", plain());
    line.put_string(cat(pad_right(label, 14).as_str(), " "), fg(TEXT_MUTED).bold());
    line.put(value, fg(TEXT_NORMAL));
    assert(line@ =~= setting(label@, value@));
    line
}

/// The titles of the table of schedules.
pub open spec fn schedule_titles() -> Seq<char> {
    text::padded_right("Name"@, 14) + " "@ + text::padded_right("Agent"@, 10) + " "@ + text::padded_right(
        "Cron"@,
        14,
    ) + " "@ + text::padded_right("Next"@, 10) + " "@ + text::padded_right("Runs"@, 8) + " "@ + "Status"@
}

fn titles() -> (r: String)
    ensures
        r@ == schedule_titles(),
{
    let mut s: String = pad_right("Name", 14);
    s.append(" ");
    s.append(pad_right("Agent", 10).as_str());
    s.append(" ");
    s.append(pad_right("Cron", 14).as_str());
    s.append(" ");
    s.append(pad_right("Next", 10).as_str());
    s.append(" ");
    s.append(pad_right("Runs", 8).as_str());
    s.append(" ");
    s.append("Status");
    s
}

/// What the Settings tab shows.
pub open spec fn settings_content(
    info: SettingsInfo,
    runs: Option<Vec<ScheduleRuns>>,
    now: Instant,
) -> Seq<Seq<SpanView>> {
    seq![
        setting("Config:"@, info.config_path@),
        setting("DB:"@, info.db_path@),
        setting("Poll interval:"@, text::dec(info.poll_secs as nat) + "s"@),
        setting("Agents:"@, text::dec(info.agent_count as nat)),
        setting("Log dir:"@, info.log_dir@),
        seq![style::sp(""@, plain())],
        setting("Schedules:"@, text::dec(info.schedules@.len())),
        seq![style::sp(""@, plain())],
    ] + if info.schedules@.len() == 0 {
        seq![seq![style::sp("  No schedules configured."@, fg(TEXT_MUTED))]]
    } else {
        seq![
            seq![style::sp("  "@, plain()), style::sp(schedule_titles(), fg(TEXT_MUTED).bold())],
        ] + schedule_table(info.schedules@, runs, now)
    }
}

/// What the Settings tab shows.
pub fn settings_lines(info: &SettingsInfo, runs: &Option<Vec<ScheduleRuns>>, now: Instant) -> (r:
    Vec<Line>)
    ensures
        style::lines_view(r@) == settings_content(*info, *runs, now),
{
    let mut lines: Vec<Line> = no_lines();
    push_line(&mut lines, setting_line("Config:", info.config_path.as_str()));
    push_line(&mut lines, setting_line("DB:", info.db_path.as_str()));
    push_line(
        &mut lines,
        setting_line("Poll interval:", cat(u64_text(info.poll_secs).as_str(), "s").as_str()),
    );
    push_line(&mut lines, setting_line("Agents:", usize_text(info.agent_count).as_str()));
    push_line(&mut lines, setting_line("Log dir:", info.log_dir.as_str()));
    push_line(&mut lines, Line::of("", plain()));
    push_line(&mut lines, setting_line("Schedules:", usize_text(info.schedules.len()).as_str()));
    push_line(&mut lines, Line::of("", plain()));
    if info.schedules.len() == 0 {
        push_line(&mut lines, Line::of("  No schedules configured.", fg(TEXT_MUTED)));
        assert(style::lines_view(lines@) =~= settings_content(*info, *runs, now));
        return lines;
    }
    let mut head: Line = Line::of("  ", plain());
    head.put_string(titles(), fg(TEXT_MUTED).bold());
    assert(head@ =~= seq![style::sp("  "@, plain()), style::sp(schedule_titles(), fg(TEXT_MUTED).bold())]);
    push_line(&mut lines, head);
    let ghost top = style::lines_view(lines@);
    let ghost table = schedule_table(info.schedules@, *runs, now);
    let mut i: usize = 0;
    assert(style::lines_view(lines@) =~= top + table.take(0));
    while i < info.schedules.len()
        invariant
            i <= info.schedules@.len(),
            table == schedule_table(info.schedules@, *runs, now),
            style::lines_view(lines@) == top + table.take(i as int),
        decreases info.schedules@.len() - i,
    {
        let s: &ScheduleConfig = &info.schedules[i];
        let next: String = next_fire(s, now);
        let line: Line = schedule_line(s, next.as_str(), count_runs(runs, s.name.as_str()));
        assert(line@ == table[i as int]);
        push_line(&mut lines, line);
        assert(style::lines_view(lines@) =~= top + table.take(i + 1));
        i += 1;
    }
    assert(table.take(i as int) =~= table);
    assert(style::lines_view(lines@) =~= settings_content(*info, *runs, now));
    lines
}

// ── Laws ─────────────────────────────────────────────────────────────────────

/// The runs of a schedule are those of the first entry of its name.
pub proof fn law_runs_of_the_first_of_the_name(
    before: Seq<ScheduleRuns>,
    r: ScheduleRuns,
    after: Seq<ScheduleRuns>,
)
    requires
        forall|i: int| 0 <= i < before.len() ==> (#[trigger] before[i]).name@ != r.name@,
    ensures
        runs_named(before.push(r) + after, r.name@) == r.run_count,
        runs_named(before, r.name@) == 0,
        run_count(None, r.name@) == 0,
    decreases before.len(),
{
    let all = before.push(r) + after;
    if before.len() == 0 {
        assert(all[0] == r);
    } else {
        let rest = before.skip(1);
        assert(all[0] == before[0]);
        assert(all.skip(1) =~= rest.push(r) + after);
        assert forall|i: int| 0 <= i < rest.len() implies (#[trigger] rest[i]).name@
            != r.name@ by {
            assert(rest[i] == before[i + 1]);
        }
        law_runs_of_the_first_of_the_name(rest, r, after);
    }
}

/// What is left until the next run, in whole seconds; none once it is due.
pub proof fn law_time_to_the_next_run(next: Instant, now: Instant)
    requires
        next.nanos < 1000000000,
        now.nanos < 1000000000,
    ensures
        !next.later_than(now) ==> seconds_until(next, now) == 0,
        next.later_than(now) && next.nanos >= now.nanos ==> seconds_until(next, now) == next.secs
            - now.secs,
        next.later_than(now) && next.nanos < now.nanos ==> seconds_until(next, now) == next.secs
            - now.secs - 1,
        next_label(None, now) == "—"@,
        next_label(Some(next), now) == views::duration_text(seconds_until(next, now)),
{
    let d = next.secs - now.secs;
    let e = next.nanos - now.nanos;
    if next.later_than(now) {
        if e >= 0 {
            assert((d * 1000000000 + e) / 1000000000 == d);
        } else {
            assert((d * 1000000000 + e) / 1000000000 == d - 1);
        }
    }
}

/// A schedule that is switched off has no next run; of one that is switched on
/// it is the next time of its pattern.
pub proof fn law_schedules_that_are_off(s: ScheduleConfig, now: Instant)
    ensures
        !s.enabled ==> schedule_next(s, now) == "—"@,
        s.enabled ==> schedule_next(s, now) == next_label(cron_next(s.cron@, now), now),
{
}

/// The columns of a schedule: its name, agent, pattern, next run, runs of the
/// runs allowed, and whether it is on.
pub proof fn law_schedule_columns(s: ScheduleConfig, next: Seq<char>, runs: u64)
    ensures
        ({
            let line = schedule_spans(s, next, runs);
            &&& line.len() == 12
            &&& s.name@.len() <= 13 ==> line[1].text == text::padded_right(s.name@, 14)
            &&& s.agent@.len() <= 9 ==> line[3].text == text::padded_right(s.agent@, 10)
            &&& s.cron@.len() <= 13 ==> line[5].text == text::padded_right(s.cron@, 14)
            &&& next.len() <= 9 ==> line[7].text == text::padded_right(next, 10)
            &&& (text::dec(runs as nat) + "/"@ + text::dec(s.max_runs as nat)).len() <= 7
                ==> line[9].text == text::padded_right(
                text::dec(runs as nat) + "/"@ + text::dec(s.max_runs as nat),
                8,
            )
            &&& s.enabled ==> line[11].text == "enabled"@ && line[11].style.fg == Some(
                Color::Success,
            )
            &&& !s.enabled ==> line[11].text == "disabled"@ && line[11].style.fg == Some(
                Color::TextDim,
            )
        }),
{
}

/// The settings that are told, and one line for each schedule after the titles.
pub proof fn law_settings_are_told(
    info: SettingsInfo,
    runs: Option<Vec<ScheduleRuns>>,
    now: Instant,
    i: int,
)
    ensures
        ({
            let c = settings_content(info, runs, now);
            &&& c[0][2].text == info.config_path@
            &&& c[1][2].text == info.db_path@
            &&& c[2][2].text == text::dec(info.poll_secs as nat) + "s"@
            &&& c[3][2].text == text::dec(info.agent_count as nat)
            &&& c[4][2].text == info.log_dir@
            &&& c[6][2].text == text::dec(info.schedules@.len())
            &&& info.schedules@.len() == 0 ==> c.len() == 9
            &&& info.schedules@.len() > 0 ==> c.len() == 9 + info.schedules@.len()
            &&& 0 <= i < info.schedules@.len() ==> c[9 + i] == schedule_spans(
                info.schedules@[i],
                schedule_next(info.schedules@[i], now),
                run_count(runs, info.schedules@[i].name@),
            )
        }),
{
}

} // verus!
