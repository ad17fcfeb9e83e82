//! The overview: metrics, agent utilization and the worker's heartbeat.
use crate::dashboard::views::{
    elapsed, format_duration_secs, humanize_thread_status, thread_status_color,
};
use crate::dashboard::views;
use crate::double::{quotient, to_double};
use crate::double;
use crate::style::{fg, no_lines, plain, push_line, Color, Line, SpanView};
use crate::style;
use crate::text::{
    byte_count, cat, cat3, first_bytes, i64_text, pad_right, repeat_text, str_eq, usize_text,
};
use crate::text;
use vstd::prelude::*;

verus! {

/// Characters between the brackets of a gauge.
pub const BAR_WIDTH: usize = 10;

/// The worker's last sign of life.
#[derive(Clone, Debug)]
pub struct Heartbeat {
    pub worker_id: String,
    pub last_beat_at: i64,
    pub started_at: i64,
    pub version: Option<String>,
}

/// What the overview is drawn from.
#[derive(Clone, Debug)]
pub struct OverviewData {
    /// Threads by status.
    pub thread_counts: Vec<(String, i64)>,
    pub queue_depth: i64,
    pub total_messages: i64,
    /// Running executions by agent.
    pub active_by_agent: Vec<(String, i64)>,
    pub heartbeat: Option<Heartbeat>,
}

// ── Gauge ────────────────────────────────────────────────────────────────────

/// How many of the ten cells of a gauge are filled: the double nearest to
/// `active / max`, times ten, to the nearest integer with halves away from zero.
pub open spec fn gauge_filled(active: nat, max: nat) -> nat {
    let a = double::int_double(active);
    let m = double::int_double(max);
    if a >= m {
        10
    } else if a == 0 {
        0
    } else {
        let q = double::double_quotient(a, m);
        let filled = (2 * double::int_double(10 * q.0) + q.1) / (2 * q.1);
        if filled > 10 {
            10
        } else {
            filled as nat
        }
    }
}

/// A gauge: `[===>      ]`. The tip marks how far it is filled, and stands at
/// the left end when nothing is.
pub open spec fn gauge(active: nat, max: nat) -> Seq<char> {
    if max == 0 {
        "["@ + text::repeated(" "@, 10) + "]"@
    } else {
        let filled = gauge_filled(active, max);
        if filled == 0 {
            "[>"@ + text::repeated(" "@, 9) + "]"@
        } else {
            "["@ + text::repeated("="@, (filled - 1) as nat) + ">"@ + text::repeated(" "@, (10 - filled) as nat)
                + "]"@
        }
    }
}

fn filled_cells(active: usize, max: usize) -> (r: usize)
    requires
        max > 0,
    ensures
        r == gauge_filled(active as nat, max as nat),
        r <= 10,
{
    let a: u128 = to_double(active as u64);
    let m: u128 = to_double(max as u64);
    if a >= m {
        return 10;
    }
    if a == 0 {
        return 0;
    }
    let q: (u128, u128) = quotient(a, m);
    let p: u128 = to_double((10 * q.0) as u64);
    let filled: u128 = (2 * p + q.1) / (2 * q.1);
    if filled > 10 {
        10
    } else {
        filled as usize
    }
}

/// A gauge of ten cells.
pub fn gauge_bar(active: usize, max: usize) -> (r: String)
    ensures
        r@ == gauge(active as nat, max as nat),
{
    if max == 0 {
        return cat3("[", repeat_text(" ", BAR_WIDTH).as_str(), "]");
    }
    let filled: usize = filled_cells(active, max);
    if filled == 0 {
        cat3("[>", repeat_text(" ", BAR_WIDTH - 1).as_str(), "]")
    } else {
        let mut s: String = cat3("[", repeat_text("=", filled - 1).as_str(), ">");
        s.append(repeat_text(" ", BAR_WIDTH - filled).as_str());
        s.append("]");
        s
    }
}

proof fn lemma_repeated_len(t: Seq<char>, n: nat)
    requires
        t.len() == 1,
    ensures
        text::repeated(t, n).len() == n,
    decreases n,
{
    if n > 0 {
        lemma_repeated_len(t, (n - 1) as nat);
    }
}

/// Every gauge is as wide as any other.
pub proof fn law_gauge_width(active: nat, max: nat)
    ensures
        gauge(active, max).len() == 12,
{
    reveal_strlit("[");
    reveal_strlit("[>");
    reveal_strlit("]");
    reveal_strlit(">");
    reveal_strlit("=");
    reveal_strlit(" ");
    lemma_repeated_len(" "@, 10);
    lemma_repeated_len(" "@, 9);
    let filled = gauge_filled(active, max);
    if filled > 0 {
        lemma_repeated_len("="@, (filled - 1) as nat);
        lemma_repeated_len(" "@, (10 - filled) as nat);
    }
}

// ── Metrics ──────────────────────────────────────────────────────────────────

/// The badge of a thread status.
pub open spec fn badge(status: Seq<char>, count: i64) -> Seq<SpanView> {
    let color = views::thread_term_color(status);
    seq![
        style::sp("● "@, fg(color)),
        style::sp(status + ": "@ + text::dec_int(count as int) + " "@, fg(color).bold()),
        style::sp(" "@, plain()),
    ]
}

/// The badges of all thread statuses.
pub open spec fn badges(counts: Seq<(String, i64)>) -> Seq<SpanView>
    decreases counts.len(),
{
    if counts.len() == 0 {
        seq![]
    } else {
        badges(counts.drop_last()) + badge(counts.last().0@, counts.last().1)
    }
}

/// The line of metrics.
pub open spec fn metrics(d: OverviewData) -> Seq<SpanView> {
    seq![style::sp(" "@, plain())] + badges(d.thread_counts@) + seq![
        style::sp("│ "@, fg(Color::DarkGray)),
        style::sp("Pending: "@, plain()),
        style::sp(text::dec_int(d.queue_depth as int) + " "@, fg(Color::Cyan).bold()),
        style::sp("│ "@, fg(Color::DarkGray)),
        style::sp("Total messages: "@, plain()),
        style::sp(text::dec_int(d.total_messages as int), fg(Color::Cyan).bold()),
    ]
}

/// The line of metrics; before anything was read, a notice.
pub fn metrics_line(data: &Option<OverviewData>) -> (r: Line)
    ensures
        r@ == match *data {
            Some(d) => metrics(d),
            None => seq![style::sp(" Fetching…"@, fg(Color::DarkGray))],
        },
{
    let d: &OverviewData = match data {
        None => {
            return Line::of(" Fetching…", fg(Color::DarkGray));
        },
        Some(d) => d,
    };
    let counts: &Vec<(String, i64)> = &d.thread_counts;
    let mut line: Line = Line::of(" ", plain());
    let ghost head = line@;
    let mut i: usize = 0;
    assert(line@ =~= head + badges(counts@.take(0)));
    while i < counts.len()
        invariant
            i <= counts@.len(),
            line@ == head + badges(counts@.take(i as int)),
        decreases counts@.len() - i,
    {
        let ghost before = line@;
        let status: &str = humanize_thread_status(counts[i].0.as_str());
        let color: Color = thread_status_color(counts[i].0.as_str());
        line.put("● ", fg(color));
        let mut text: String = cat3(status, ": ", i64_text(counts[i].1).as_str());
        text.append(" ");
        line.put_string(text, fg(color).bold());
        line.put(" ", plain());
        assert(counts@.take(i + 1).drop_last() =~= counts@.take(i as int));
        assert(line@ =~= before + badge(counts@[i as int].0@, counts@[i as int].1));
        assert(line@ =~= head + badges(counts@.take(i + 1)));
        i += 1;
    }
    assert(counts@.take(i as int) =~= counts@);
    line.put("│ ", fg(Color::DarkGray));
    line.put("Pending: ", plain());
    line.put_string(cat(i64_text(d.queue_depth).as_str(), " "), fg(Color::Cyan).bold());
    line.put("│ ", fg(Color::DarkGray));
    line.put("Total messages: ", plain());
    line.put_string(i64_text(d.total_messages), fg(Color::Cyan).bold());
    assert(line@ =~= metrics(*d));
    line
}

// ── Agents ───────────────────────────────────────────────────────────────────

/// The count of the first entry under `alias`, or zero.
pub open spec fn count_of(counts: Seq<(String, i64)>, alias: Seq<char>) -> usize
    decreases counts.len(),
{
    if counts.len() == 0 {
        0
    } else if counts[0].0@ == alias {
        counts[0].1 as usize
    } else {
        count_of(counts.skip(1), alias)
    }
}

fn find_count(counts: &Vec<(String, i64)>, alias: &str) -> (r: usize)
    ensures
        r == count_of(counts@, alias@),
{
    let mut i: usize = 0;
    assert(counts@.skip(0) =~= counts@);
    while i < counts.len()
        invariant
            i <= counts@.len(),
            count_of(counts@, alias@) == count_of(counts@.skip(i as int), alias@),
        decreases counts@.len() - i,
    {
        if str_eq(counts[i].0.as_str(), alias) {
            return counts[i].1 as usize;
        }
        assert(counts@.skip(i as int).skip(1) =~= counts@.skip(i + 1));
        i += 1;
    }
    0
}

/// Running executions of an agent, zero before anything was read.
pub open spec fn active_of(data: Option<OverviewData>, alias: Seq<char>) -> usize {
    match data {
        Some(d) => count_of(d.active_by_agent@, alias),
        None => 0,
    }
}

/// The colour of a gauge: idle, loaded, full.
#[verifier::allow_in_spec]
pub fn gauge_color(active: usize, max: usize) -> Color
    returns
        (if active == 0 {
            Color::DarkGray
        } else if active >= max {
            Color::Red
        } else {
            Color::Yellow
        }),
{
    if active == 0 {
        Color::DarkGray
    } else if active >= max {
        Color::Red
    } else {
        Color::Yellow
    }
}

/// The line of an agent.
pub open spec fn agent_gauge(alias: Seq<char>, active: usize, max: usize) -> Seq<SpanView> {
    seq![
        style::sp("  "@, plain()),
        style::sp(text::padded_right(alias, 12), fg(Color::White).bold()),
        style::sp(gauge(active as nat, max as nat), fg(gauge_color(active, max))),
        style::sp("  "@, plain()),
        style::sp(text::dec(active as nat) + "/"@ + text::dec(max as nat), fg(Color::White)),
    ]
}

/// The lines of the agents.
pub open spec fn agent_gauges(
    aliases: Seq<String>,
    data: Option<OverviewData>,
    max: usize,
) -> Seq<Seq<SpanView>> {
    if aliases.len() == 0 {
        seq![seq![style::sp("  No agents configured."@, fg(Color::DarkGray))]]
    } else {
        aliases.map_values(|a: String| agent_gauge(a@, active_of(data, a@), max))
    }
}

/// The lines of the agents.
pub fn agent_lines(aliases: &Vec<String>, data: &Option<OverviewData>, max: usize) -> (r: Vec<Line>)
    ensures
        style::lines_view(r@) == agent_gauges(aliases@, *data, max),
{
    let mut lines: Vec<Line> = no_lines();
    if aliases.len() == 0 {
        push_line(&mut lines, Line::of("  No agents configured.", fg(Color::DarkGray)));
        assert(style::lines_view(lines@) =~= agent_gauges(aliases@, *data, max));
        return lines;
    }
    let ghost all = agent_gauges(aliases@, *data, max);
    let mut i: usize = 0;
    assert(style::lines_view(lines@) =~= all.take(0));
    while i < aliases.len()
        invariant
            i <= aliases@.len(),
            aliases@.len() > 0,
            all == agent_gauges(aliases@, *data, max),
            style::lines_view(lines@) == all.take(i as int),
        decreases aliases@.len() - i,
    {
        let alias: &str = aliases[i].as_str();
        let active: usize = match data {
            Some(d) => find_count(&d.active_by_agent, alias),
            None => 0,
        };
        let mut line: Line = Line::new();
        line.put("  ", plain());
        line.put_string(pad_right(alias, 12), fg(Color::White).bold());
        line.put_string(gauge_bar(active, max), fg(gauge_color(active, max)));
        line.put("  ", plain());
        line.put_string(
            cat3(usize_text(active).as_str(), "/", usize_text(max).as_str()),
            fg(Color::White),
        );
        assert(line@ =~= all[i as int]);
        push_line(&mut lines, line);
        assert(style::lines_view(lines@) =~= all.take(i + 1));
        i += 1;
    }
    assert(all.take(i as int) =~= all);
    lines
}

// ── Heartbeat ────────────────────────────────────────────────────────────────

/// A worker id, cut when it is longer than 22 bytes.
pub open spec fn worker_label(id: Seq<char>) -> Seq<char> {
    if text::byte_len(id) > 22 {
        text::within_bytes(id, 21) + "…"@
    } else {
        id
    }
}

/// The line of the worker: alive if it was heard of within 30 seconds.
pub open spec fn heartbeat_spans(h: Heartbeat, now: i64) -> Seq<SpanView> {
    let age = views::since(now, h.last_beat_at);
    seq![
        style::sp("  "@, plain()),
        style::sp(
            "● "@,
            fg(
                if age < 30 {
                    Color::Green
                } else {
                    Color::Red
                },
            ),
        ),
        style::sp("Worker: "@ + worker_label(h.worker_id@) + " "@, fg(Color::White)),
        style::sp("│ "@, fg(Color::DarkGray)),
        style::sp("Last beat: "@ + views::duration_text(age as int) + " ago "@, plain()),
        style::sp("│ "@, fg(Color::DarkGray)),
        style::sp("Started: "@ + views::duration_text(views::since(now, h.started_at) as int) + " ago"@, plain()),
    ]
}

/// The line of the worker.
pub fn heartbeat_line(data: &Option<OverviewData>, now: i64) -> (r: Line)
    ensures
        r@ == match *data {
            Some(OverviewData { heartbeat: Some(h), .. }) => heartbeat_spans(h, now),
            _ => seq![style::sp("  ● No worker heartbeat recorded"@, fg(Color::DarkGray))],
        },
{
    let h: &Heartbeat = match data {
        Some(OverviewData { heartbeat: Some(h), .. }) => h,
        _ => {
            return Line::of("  ● No worker heartbeat recorded", fg(Color::DarkGray));
        },
    };
    let age: i64 = elapsed(now, h.last_beat_at);
    let up: i64 = elapsed(now, h.started_at);
    let id: String = if byte_count(h.worker_id.as_str()) > 22 {
        cat(first_bytes(h.worker_id.as_str(), 21).as_str(), "…")
    } else {
        h.worker_id.clone()
    };
    let mut line: Line = Line::new();
    line.put("  ", plain());
    line.put(
        "● ",
        fg(
            if age < 30 {
                Color::Green
            } else {
                Color::Red
            },
        ),
    );
    line.put_string(cat3("Worker: ", id.as_str(), " "), fg(Color::White));
    line.put("│ ", fg(Color::DarkGray));
    line.put_string(cat3("Last beat: ", format_duration_secs(age).as_str(), " ago "), plain());
    line.put("│ ", fg(Color::DarkGray));
    line.put_string(cat3("Started: ", format_duration_secs(up).as_str(), " ago"), plain());
    assert(line@ =~= heartbeat_spans(*h, now));
    line
}

// ── Laws ─────────────────────────────────────────────────────────────────────

/// A gauge is full when all that may be active is, empty when nothing is, and
/// blank where nothing may be.
pub proof fn law_gauges_at_their_ends(max: nat)
    requires
        0 < max < 9007199254740992,
    ensures
        gauge(max, max) == "["@ + text::repeated("="@, 9) + ">"@ + text::repeated(" "@, 0) + "]"@,
        gauge(0, max) == "[>"@ + text::repeated(" "@, 9) + "]"@,
        gauge(max, 0) == "["@ + text::repeated(" "@, 10) + "]"@,
        gauge_filled(0, max) == 0,
        gauge_filled(max, max) == 10,
{
    double::law_whole_numbers_as_doubles(max);
    double::law_whole_numbers_as_doubles(0);
}

proof fn lemma_filled(n: nat, d: nat, m: nat, k: nat, x: nat, f: nat)
    requires
        0 < n < d <= 70368744177664,
        k >= 4503599627370496,
        m <= 2 * k,
        2 * (m * d) <= 2 * (n * k) + d,
        2 * (n * k) <= 2 * (m * d) + d,
        18014398509481984 * x <= 18014398509481984 * (10 * m) + 2 * (10 * m) + 9007199254740992,
        18014398509481984 * (10 * m) <= 18014398509481984 * x + 2 * (10 * m) + 9007199254740992,
        f == (2 * x + k) / (2 * k),
    ensures
        2 * (f * d) <= 20 * n + d + 1,
        20 * n <= 2 * (f * d) + d,
{
    let e: nat = 9007199254740992;
    let xd = x * d;
    let md = m * d;
    let nk = n * k;
    let kd = k * d;
    assert(2 * (40 * kd) <= e * k) by (nonlinear_arith)
        requires
            kd == k * d,
            d <= 70368744177664,
            e == 9007199254740992,
    ;
    assert(md <= 2 * kd) by (nonlinear_arith)
        requires
            md == m * d,
            kd == k * d,
            m <= 2 * k,
    ;
    assert(e * (2 * xd) <= e * (20 * md) + 20 * md + e * d) by (nonlinear_arith)
        requires
            2 * e * x <= 2 * e * (10 * m) + 2 * (10 * m) + e,
            xd == x * d,
            md == m * d,
    ;
    assert(e * (20 * md) <= e * (2 * xd) + 20 * md + e * d) by (nonlinear_arith)
        requires
            2 * e * (10 * m) <= 2 * e * x + 2 * (10 * m) + e,
            xd == x * d,
            md == m * d,
    ;
    assert(4 * xd <= 40 * md + k + 2 * d);
    assert(40 * md <= 4 * xd + k + 2 * d);
    vstd::arithmetic::div_mod::lemma_fundamental_div_mod((2 * x + k) as int, (2 * k) as int);
    vstd::arithmetic::div_mod::lemma_mod_bound((2 * x + k) as int, (2 * k) as int);
    assert((2 * k) * f <= 2 * x + k < (2 * k) * f + 2 * k);
    let fd = f * d;
    assert((2 * fd) * k <= 2 * xd + kd) by (nonlinear_arith)
        requires
            (2 * k) * f <= 2 * x + k,
            fd == f * d,
            xd == x * d,
            kd == k * d,
    ;
    assert(2 * xd + kd <= (2 * fd) * k + 2 * kd) by (nonlinear_arith)
        requires
            2 * x + k < (2 * k) * f + 2 * k,
            fd == f * d,
            xd == x * d,
            kd == k * d,
    ;
    assert(64 * d <= k);
    assert((2 * fd) * k <= 20 * nk + kd + k);
    assert(2 * fd <= 20 * n + d + 1) by (nonlinear_arith)
        requires
            (2 * fd) * k <= 20 * nk + kd + k,
            nk == n * k,
            kd == k * d,
            k > 0,
    ;
    assert(20 * nk < (2 * fd) * k + kd + k);
    assert(20 * n <= 2 * fd + d) by (nonlinear_arith)
        requires
            20 * nk < (2 * fd) * k + kd + k,
            nk == n * k,
            kd == k * d,
            k > 0,
    ;
}

/// As many cells of a gauge are filled as tenths are active of what may be, to
/// the nearest.
pub proof fn law_gauges_fill_to_the_nearest_cell(active: nat, max: nat)
    requires
        0 < active < max <= 70368744177664,
    ensures
        2 * (gauge_filled(active, max) * max) <= 20 * active + max + 1,
        20 * active <= 2 * (gauge_filled(active, max) * max) + max,
{
    double::law_whole_numbers_as_doubles(active);
    double::law_whole_numbers_as_doubles(max);
    double::law_quotients_as_doubles(active, max);
    let (m, k) = double::double_quotient(active, max);
    double::law_whole_numbers_as_doubles(10 * m);
    let x = double::int_double(10 * m);
    let f = (2 * x + k) / (2 * k);
    assert(k >= 4503599627370496) by (nonlinear_arith)
        requires
            active * k >= 4503599627370496 * max,
            0 < active < max,
    ;
    assert(m <= 2 * k) by (nonlinear_arith)
        requires
            2 * (m * max) <= 2 * (active * k) + max,
            0 < active < max,
            k >= 1,
    ;
    lemma_filled(active, max, m, k, x, f);
    if f > 10 {
        assert(20 * active <= 2 * (10 * max) + max);
        assert(2 * (10 * max) <= 2 * (f * max)) by (nonlinear_arith)
            requires
                f > 10,
        ;
    }
}

/// One state more is one badge more, with the count and in the colour of the
/// state.
pub proof fn law_badges_tell_the_counts(counts: Seq<(String, i64)>, status: String, count: i64)
    ensures
        badges(counts.push((status, count))) == badges(counts) + badge(status@, count),
        badges(Seq::empty()).len() == 0,
        badge(status@, count)[1].text == status@ + ": "@ + text::dec_int(count as int) + " "@,
        badge(status@, count)[0].style.fg == Some(views::thread_term_color(status@)),
{
    assert(counts.push((status, count)).drop_last() =~= counts);
    assert(counts.push((status, count)).last() == (status, count));
}

/// What is told after the badges: what is pending, and how many messages there
/// are.
pub proof fn law_metrics_tell_what_is_pending(d: OverviewData)
    ensures
        ({
            let m = metrics(d);
            let n = m.len();
            &&& m[n - 1].text == text::dec_int(d.total_messages as int)
            &&& m[n - 2].text == "Total messages: "@
            &&& m[n - 4].text == text::dec_int(d.queue_depth as int) + " "@
            &&& m[n - 5].text == "Pending: "@
            &&& n == badges(d.thread_counts@).len() + 7
        }),
{
}

/// What is active of an agent is the count that is kept under its name first.
pub proof fn law_counts_of_the_first_of_the_name(
    before: Seq<(String, i64)>,
    alias: String,
    n: i64,
    after: Seq<(String, i64)>,
)
    requires
        forall|i: int| 0 <= i < before.len() ==> (#[trigger] before[i]).0@ != alias@,
        n >= 0,
        n <= usize::MAX,
    ensures
        count_of(before.push((alias, n)) + after, alias@) == n,
        count_of(before, alias@) == 0,
        active_of(None, alias@) == 0,
    decreases before.len(),
{
    let all = before.push((alias, n)) + after;
    if before.len() == 0 {
        assert(all[0] == (alias, n));
    } else {
        let rest = before.skip(1);
        assert(all[0] == before[0]);
        assert(all.skip(1) =~= rest.push((alias, n)) + after);
        assert forall|i: int| 0 <= i < rest.len() implies (#[trigger] rest[i]).0@ != alias@ by {
            assert(rest[i] == before[i + 1]);
        }
        law_counts_of_the_first_of_the_name(rest, alias, n, after);
    }
}

/// Each agent has its line, in order: its name, how many of its executions are
/// active of how many may be, and a warning where it is full.
pub proof fn law_gauges_of_agents(
    aliases: Seq<String>,
    data: Option<OverviewData>,
    max: usize,
    i: int,
)
    ensures
        aliases.len() == 0 ==> agent_gauges(aliases, data, max)[0][0].text
            == "  No agents configured."@,
        aliases.len() > 0 ==> agent_gauges(aliases, data, max).len() == aliases.len(),
        0 <= i < aliases.len() ==> {
            let l = agent_gauges(aliases, data, max)[i];
            let active = active_of(data, aliases[i]@);
            &&& l[1].text == text::padded_right(aliases[i]@, 12)
            &&& l[2].text == gauge(active as nat, max as nat)
            &&& l[4].text == text::dec(active as nat) + "/"@ + text::dec(max as nat)
            &&& active == 0 ==> l[2].style.fg == Some(Color::DarkGray)
            &&& 0 < active < max ==> l[2].style.fg == Some(Color::Yellow)
            &&& active > 0 && active >= max ==> l[2].style.fg == Some(Color::Red)
        },
{
}

/// What is told of the worker: its name, how long ago its last beat and its start
/// were, and that it is not well once thirty seconds have passed without a beat.
pub proof fn law_worker_is_told(h: Heartbeat, now: i64)
    requires
        h.last_beat_at <= now,
        now - h.last_beat_at <= i64::MAX,
        h.started_at <= now,
        now - h.started_at <= i64::MAX,
    ensures
        ({
            let l = heartbeat_spans(h, now);
            &&& text::byte_len(h.worker_id@) <= 22 ==> l[2].text == "Worker: "@ + h.worker_id@
                + " "@
            &&& text::byte_len(h.worker_id@) > 22 ==> l[2].text == "Worker: "@ + (
            text::within_bytes(h.worker_id@, 21) + "…"@) + " "@
            &&& l[4].text == "Last beat: "@ + views::duration_text(now - h.last_beat_at) + " ago "@
            &&& l[6].text == "Started: "@ + views::duration_text(now - h.started_at) + " ago"@
            &&& l[1].style.fg == Some(Color::Green) <==> now - h.last_beat_at < 30
            &&& l[1].style.fg == Some(Color::Red) <==> now - h.last_beat_at >= 30
        }),
{
}

} // verus!
