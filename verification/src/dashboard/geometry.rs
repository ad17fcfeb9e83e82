//! Rectangles on the screen, and what a click on them hits.
use crate::text::{char_count, usize_text};
use crate::text;
use vstd::prelude::*;

verus! {

/// A rectangle of screen cells.
#[derive(Clone, Copy, Debug, PartialEq, Eq, Structural)]
pub struct Rect {
    pub x: u16,
    pub y: u16,
    pub width: u16,
    pub height: u16,
}

/// Whether `at` lies within `len` cells from `from` on.
pub open spec fn within(at: int, from: int, len: int) -> bool {
    from <= at < from + len
}

impl Rect {
    /// The rectangle at `x`, `y` with the given size.
    pub fn new(x: u16, y: u16, width: u16, height: u16) -> (r: Rect)
        ensures
            r == (Rect { x, y, width, height }),
    {
        Rect { x, y, width, height }
    }

    /// The part inside a border of one cell; nothing where there is no room.
    pub open spec fn inside(self) -> Rect {
        if self.width < 2 || self.height < 2 {
            Rect { x: 0, y: 0, width: 0, height: 0 }
        } else {
            Rect {
                x: if self.x == u16::MAX {
                    u16::MAX
                } else {
                    (self.x + 1) as u16
                },
                y: if self.y == u16::MAX {
                    u16::MAX
                } else {
                    (self.y + 1) as u16
                },
                width: (self.width - 2) as u16,
                height: (self.height - 2) as u16,
            }
        }
    }

    /// The part inside a border of one cell; nothing where there is no room.
    pub fn inner(&self) -> (r: Rect)
        ensures
            r == self.inside(),
    {
        if self.width < 2 || self.height < 2 {
            Rect { x: 0, y: 0, width: 0, height: 0 }
        } else {
            Rect {
                x: self.x.saturating_add(1),
                y: self.y.saturating_add(1),
                width: self.width - 2,
                height: self.height - 2,
            }
        }
    }

    /// The rectangle without its last row.
    pub open spec fn above_footer(self) -> Rect {
        Rect {
            height: if self.height == 0 {
                0
            } else {
                (self.height - 1) as u16
            },
            ..self
        }
    }

    /// The last row of the rectangle, where it has one.
    pub open spec fn footer(self) -> Rect {
        let above = self.above_footer();
        Rect {
            y: if above.y + above.height > u16::MAX {
                u16::MAX
            } else {
                (above.y + above.height) as u16
            },
            height: (self.height - above.height) as u16,
            ..self
        }
    }

    /// The rectangle without its last row, and that row.
    pub fn split_footer(&self) -> (r: (Rect, Rect))
        ensures
            r.0 == self.above_footer(),
            r.1 == self.footer(),
    {
        let rows: u16 = self.height.saturating_sub(1);
        (
            Rect { x: self.x, y: self.y, width: self.width, height: rows },
            Rect {
                x: self.x,
                y: self.y.saturating_add(rows),
                width: self.width,
                height: self.height - rows,
            },
        )
    }

    /// The first `rows` rows of the rectangle, as far as it has them.
    pub open spec fn top(self, rows: u16) -> Rect {
        Rect {
            height: if rows < self.height {
                rows
            } else {
                self.height
            },
            ..self
        }
    }

    /// The rectangle without its first `rows` rows.
    pub open spec fn below(self, rows: u16) -> Rect {
        let top = self.top(rows);
        Rect {
            y: if top.y + top.height > u16::MAX {
                u16::MAX
            } else {
                (top.y + top.height) as u16
            },
            height: (self.height - top.height) as u16,
            ..self
        }
    }

    /// The first `rows` rows of the rectangle, and the others.
    pub fn split_top(&self, rows: u16) -> (r: (Rect, Rect))
        ensures
            r.0 == self.top(rows),
            r.1 == self.below(rows),
    {
        let taken: u16 = if rows < self.height {
            rows
        } else {
            self.height
        };
        (
            Rect { x: self.x, y: self.y, width: self.width, height: taken },
            Rect {
                x: self.x,
                y: self.y.saturating_add(taken),
                width: self.width,
                height: self.height - taken,
            },
        )
    }

    /// Whether a column goes through the rectangle.
    pub fn has_column(&self, col: u16) -> (r: bool)
        ensures
            r == within(col as int, self.x as int, self.width as int),
    {
        col >= self.x && col - self.x < self.width
    }

    /// Whether a row goes through the rectangle.
    pub fn has_row(&self, row: u16) -> (r: bool)
        ensures
            r == within(row as int, self.y as int, self.height as int),
    {
        row >= self.y && row - self.y < self.height
    }
}

// ── Tabs ─────────────────────────────────────────────────────────────────────

/// Number of tabs.
pub const TAB_COUNT: usize = 4;

/// The label of a tab.
pub open spec fn tab_label(i: int) -> Seq<char> {
    if i == 0 {
        "Ops"@
    } else if i == 1 {
        "Agents"@
    } else if i == 2 {
        "History"@
    } else {
        "Settings"@
    }
}

/// The label of a tab.
pub fn tab_name(i: usize) -> (r: &'static str)
    requires
        i < TAB_COUNT,
    ensures
        r@ == tab_label(i as int),
{
    match i {
        0 => "Ops",
        1 => "Agents",
        2 => "History",
        _ => "Settings",
    }
}

/// The column behind a tab's label, counted from the inside of the tab bar.
/// Each label has a space on both sides; three columns stand between two tabs.
pub open spec fn tab_end(i: int) -> int
    decreases i,
{
    (if i <= 0 {
        0
    } else {
        tab_end(i - 1) + 3
    }) + tab_label(i).len() + 2
}

/// The tab that a column inside the tab bar belongs to. A divider belongs to
/// the tab behind it.
pub open spec fn tab_at(rel: int) -> Option<usize> {
    if rel < tab_end(0) {
        Some(0)
    } else if rel < tab_end(1) {
        Some(1)
    } else if rel < tab_end(2) {
        Some(2)
    } else if rel < tab_end(3) {
        Some(3)
    } else {
        None
    }
}

/// Where the tabs end.
pub proof fn lemma_tab_ends()
    ensures
        tab_end(0) == 5,
        tab_end(1) == 16,
        tab_end(2) == 28,
        tab_end(3) == 41,
{
    reveal_strlit("Ops");
    reveal_strlit("Agents");
    reveal_strlit("History");
    reveal_strlit("Settings");
    assert(tab_label(0).len() == 3);
    assert(tab_label(1).len() == 6);
    assert(tab_label(2).len() == 7);
    assert(tab_label(3).len() == 8);
    reveal_with_fuel(tab_end, 5);
}

/// The tab that a click in the tab bar hits.
pub open spec fn clicked_tab(col: u16, tab_bar: Rect) -> Option<usize> {
    let inner = tab_bar.inside();
    if within(col as int, inner.x as int, inner.width as int) {
        tab_at(col - inner.x)
    } else {
        None
    }
}

/// The tab that a click in the bordered tab bar hits.
pub fn detect_tab_click(col: u16, tab_bar: Rect) -> (r: Option<usize>)
    ensures
        r == clicked_tab(col, tab_bar),
        r matches Some(i) ==> i < TAB_COUNT,
{
    let inner: Rect = tab_bar.inner();
    if !inner.has_column(col) {
        return None;
    }
    let rel: u16 = col - inner.x;
    proof {
        lemma_tab_ends();
    }
    if rel < 5 {
        Some(0)
    } else if rel < 16 {
        Some(1)
    } else if rel < 28 {
        Some(2)
    } else if rel < 41 {
        Some(3)
    } else {
        None
    }
}

/// A click inside the bar hits a tab if and only if it lies before the end of
/// the last label, and clicks further right never hit an earlier tab.
pub proof fn law_tab_clicks_in_order(a: u16, b: u16, tab_bar: Rect)
    requires
        a <= b,
    ensures
        clicked_tab(a, tab_bar) is Some <==> within(
            a as int,
            tab_bar.inside().x as int,
            tab_bar.inside().width as int,
        ) && a - tab_bar.inside().x < tab_end(TAB_COUNT - 1),
        clicked_tab(a, tab_bar) is Some && clicked_tab(b, tab_bar) is Some ==> clicked_tab(
            a,
            tab_bar,
        )->0 <= clicked_tab(b, tab_bar)->0,
{
    lemma_tab_ends();
}

/// The tab label of the detail view that a column of its bar belongs to: input,
/// timeline with its count, and output, with four columns between them.
pub open spec fn log_tab_at(rel: int, event_count: nat) -> Option<usize> {
    let timeline = 11 + text::dec(event_count).len();
    if within(rel, 2, 5) {
        Some(0)
    } else if within(rel, 11, timeline as int) {
        Some(1)
    } else if within(rel, 15 + timeline as int, 6) {
        Some(2)
    } else {
        None
    }
}

/// The tab label that a click in the bar of the detail view hits.
pub open spec fn clicked_log_tab(col: u16, row: u16, bar: Rect, event_count: nat) -> Option<usize> {
    if row == bar.y && within(col as int, bar.x as int, bar.width as int) {
        log_tab_at(col - bar.x, event_count)
    } else {
        None
    }
}

/// The tab label that a click in the bar of the detail view hits.
pub fn detect_log_tab_click(col: u16, row: u16, tab_rect: Rect, event_count: usize) -> (r: Option<
    usize,
>)
    ensures
        r == clicked_log_tab(col, row, tab_rect, event_count as nat),
{
    if row != tab_rect.y || !tab_rect.has_column(col) {
        return None;
    }
    let rel: usize = (col - tab_rect.x) as usize;
    let digits: usize = char_count(usize_text(event_count).as_str());
    let timeline: usize = digits.saturating_add(11);
    let output: usize = timeline.saturating_add(15);
    if rel >= 2 && rel < 7 {
        Some(0)
    } else if rel >= 11 && rel - 11 < timeline {
        Some(1)
    } else if rel >= output && rel - output < 6 {
        Some(2)
    } else {
        None
    }
}

// ── Lists ────────────────────────────────────────────────────────────────────

/// Where the entries of the Ops list stood when it was last drawn.
#[derive(Clone, Debug)]
pub struct OpsClickCache {
    /// First display row and height of each selectable slot.
    pub slot_geometry: Vec<(usize, usize)>,
    pub scroll: usize,
    pub list_rect: Rect,
}

/// Where the rows of the History table stood when it was last drawn.
#[derive(Clone, Debug)]
pub struct HistoryClickCache {
    /// The table row of each selectable slot.
    pub selectable_to_row: Vec<usize>,
    pub table_rect: Rect,
    pub scroll_offset: usize,
    pub header_rows: usize,
}

/// Rows of the banner that names the batch to which History is filtered.
pub const HISTORY_BANNER_ROWS: u16 = 2;

/// Rows of the titles of the History table.
pub const HISTORY_HEADER_ROWS: usize = 1;

/// The part of an area that the History table fills: all of it, or what is below
/// the banner of a filter.
pub open spec fn history_rect(area: Rect, filtered: bool) -> Rect {
    if filtered {
        area.below(HISTORY_BANNER_ROWS)
    } else {
        area
    }
}

/// Where the cards of the agents stood when they were last drawn.
#[derive(Clone, Debug)]
pub struct AgentsClickCache {
    /// First display row and height of each card.
    pub card_geometry: Vec<(usize, usize)>,
    pub list_rect: Rect,
}

/// The rectangle without cells.
#[verifier::allow_in_spec]
pub fn no_rect() -> Rect
    returns
        (Rect { x: 0, y: 0, width: 0, height: 0 }),
{
    Rect { x: 0, y: 0, width: 0, height: 0 }
}

/// The first slot that covers a display row.
pub open spec fn slot_at(geometry: Seq<(usize, usize)>, row: int) -> Option<usize>
    decreases geometry.len(),
{
    slot_from(geometry, row, 0)
}

/// The first slot from `i` on that covers a display row.
pub open spec fn slot_from(geometry: Seq<(usize, usize)>, row: int, i: int) -> Option<usize>
    decreases geometry.len() - i,
{
    if i >= geometry.len() {
        None
    } else if within(row, geometry[i].0 as int, geometry[i].1 as int) {
        Some(i as usize)
    } else {
        slot_from(geometry, row, i + 1)
    }
}

fn find_slot(geometry: &Vec<(usize, usize)>, row: u128) -> (r: Option<usize>)
    ensures
        r == slot_at(geometry@, row as int),
{
    let mut i: usize = 0;
    while i < geometry.len()
        invariant
            i <= geometry@.len(),
            slot_at(geometry@, row as int) == slot_from(geometry@, row as int, i as int),
        decreases geometry@.len() - i,
    {
        let (from, height): (usize, usize) = geometry[i];
        if row >= from as u128 && row - (from as u128) < height as u128 {
            return Some(i);
        }
        i += 1;
    }
    None
}

/// A slot that was found covers the row, and no earlier one does.
pub proof fn law_slot_covers_row(geometry: Seq<(usize, usize)>, row: int)
    requires
        geometry.len() <= usize::MAX,
    ensures
        match slot_at(geometry, row) {
            Some(s) => s < geometry.len() && within(
                row,
                geometry[s as int].0 as int,
                geometry[s as int].1 as int,
            ) && forall|k: int|
                0 <= k < s ==> !within(
                    row,
                    (#[trigger] geometry[k]).0 as int,
                    geometry[k].1 as int,
                ),
            None => forall|k: int|
                0 <= k < geometry.len() ==> !within(
                    row,
                    (#[trigger] geometry[k]).0 as int,
                    geometry[k].1 as int,
                ),
        },
{
    lemma_slot_from(geometry, row, 0);
}

proof fn lemma_slot_from(geometry: Seq<(usize, usize)>, row: int, i: int)
    requires
        geometry.len() <= usize::MAX,
        0 <= i,
    ensures
        match slot_from(geometry, row, i) {
            Some(s) => i <= s < geometry.len() && within(
                row,
                geometry[s as int].0 as int,
                geometry[s as int].1 as int,
            ) && forall|k: int|
                i <= k < s ==> !within(
                    row,
                    (#[trigger] geometry[k]).0 as int,
                    geometry[k].1 as int,
                ),
            None => forall|k: int|
                i <= k < geometry.len() ==> !within(
                    row,
                    (#[trigger] geometry[k]).0 as int,
                    geometry[k].1 as int,
                ),
        },
    decreases geometry.len() - i,
{
    if i < geometry.len() {
        lemma_slot_from(geometry, row, i + 1);
    }
}

impl OpsClickCache {
    /// Nothing was drawn yet.
    pub fn new() -> (r: OpsClickCache)
        ensures
            r.slot_geometry@.len() == 0,
            r.scroll == 0,
            r.list_rect == no_rect(),
    {
        OpsClickCache { slot_geometry: Vec::new(), scroll: 0, list_rect: no_rect() }
    }

    /// The slot that a click on a screen row hits.
    pub open spec fn hit(self, row: u16) -> Option<usize> {
        if within(row as int, self.list_rect.y as int, self.list_rect.height as int) {
            slot_at(self.slot_geometry@, row - self.list_rect.y + self.scroll)
        } else {
            None
        }
    }

    /// The slot that a click on a screen row hits.
    pub fn clicked_slot(&self, row: u16) -> (r: Option<usize>)
        ensures
            r == self.hit(row),
    {
        if !self.list_rect.has_row(row) {
            return None;
        }
        find_slot(&self.slot_geometry, (row - self.list_rect.y) as u128 + self.scroll as u128)
    }
}

impl AgentsClickCache {
    /// Nothing was drawn yet.
    pub fn new() -> (r: AgentsClickCache)
        ensures
            r.card_geometry@.len() == 0,
            r.list_rect == no_rect(),
    {
        AgentsClickCache { card_geometry: Vec::new(), list_rect: no_rect() }
    }

    /// The card that a click on a screen row hits.
    pub open spec fn hit(self, row: u16) -> Option<usize> {
        if within(row as int, self.list_rect.y as int, self.list_rect.height as int) {
            slot_at(self.card_geometry@, row - self.list_rect.y)
        } else {
            None
        }
    }

    /// The card that a click on a screen row hits.
    pub fn clicked_card(&self, row: u16) -> (r: Option<usize>)
        ensures
            r == self.hit(row),
    {
        if !self.list_rect.has_row(row) {
            return None;
        }
        find_slot(&self.card_geometry, (row - self.list_rect.y) as u128)
    }
}

/// The first slot from `i` on that stands on a table row.
pub open spec fn row_slot(rows: Seq<usize>, row: int, i: int) -> Option<usize>
    decreases rows.len() - i,
{
    if i >= rows.len() {
        None
    } else if rows[i] == row {
        Some(i as usize)
    } else {
        row_slot(rows, row, i + 1)
    }
}

impl HistoryClickCache {
    /// Nothing was drawn yet.
    pub fn new() -> (r: HistoryClickCache)
        ensures
            r.selectable_to_row@.len() == 0,
            r.table_rect == no_rect(),
            r.scroll_offset == 0,
            r.header_rows == 0,
    {
        HistoryClickCache {
            selectable_to_row: Vec::new(),
            table_rect: no_rect(),
            scroll_offset: 0,
            header_rows: 0,
        }
    }

    /// The table was drawn in an area, from the row `scroll_offset` on.
    pub fn drawn(
        selectable_to_row: Vec<usize>,
        area: Rect,
        filtered: bool,
        scroll_offset: usize,
    ) -> (r: HistoryClickCache)
        ensures
            r.selectable_to_row == selectable_to_row,
            r.table_rect == history_rect(area, filtered),
            r.scroll_offset == scroll_offset,
            r.header_rows == HISTORY_HEADER_ROWS,
    {
        let (_, below): (Rect, Rect) = area.split_top(HISTORY_BANNER_ROWS);
        HistoryClickCache {
            selectable_to_row,
            table_rect: if filtered {
                below
            } else {
                area
            },
            scroll_offset,
            header_rows: HISTORY_HEADER_ROWS,
        }
    }

    /// The slot that a click on a screen row hits. The header is no slot.
    pub open spec fn hit(self, row: u16) -> Option<usize> {
        let rel = row - self.table_rect.y;
        if within(row as int, self.table_rect.y as int, self.table_rect.height as int) && rel
            >= self.header_rows {
            row_slot(self.selectable_to_row@, rel - self.header_rows + self.scroll_offset, 0)
        } else {
            None
        }
    }

    /// The slot that a click on a screen row hits.
    pub fn clicked_slot(&self, row: u16) -> (r: Option<usize>)
        ensures
            r == self.hit(row),
    {
        if !self.table_rect.has_row(row) {
            return None;
        }
        let rel: usize = (row - self.table_rect.y) as usize;
        if rel < self.header_rows {
            return None;
        }
        let table_row: u128 = (rel - self.header_rows) as u128 + self.scroll_offset as u128;
        find_row(&self.selectable_to_row, table_row)
    }
}

fn find_row(rows: &Vec<usize>, row: u128) -> (r: Option<usize>)
    ensures
        r == row_slot(rows@, row as int, 0),
{
    let mut i: usize = 0;
    while i < rows.len()
        invariant
            i <= rows@.len(),
            row_slot(rows@, row as int, 0) == row_slot(rows@, row as int, i as int),
        decreases rows@.len() - i,
    {
        if rows[i] as u128 == row {
            return Some(i);
        }
        i += 1;
    }
    None
}

// ── Laws ─────────────────────────────────────────────────────────────────────

/// What is inside a frame lies one cell from each of its sides.
pub proof fn law_inside_of_a_frame(r: Rect)
    requires
        r.x < u16::MAX,
        r.y < u16::MAX,
    ensures
        r.width >= 2 && r.height >= 2 ==> {
            let i = r.inside();
            &&& i.x == r.x + 1 && i.y == r.y + 1
            &&& i.x + i.width + 1 == r.x + r.width
            &&& i.y + i.height + 1 == r.y + r.height
        },
        r.width < 2 || r.height < 2 ==> r.inside().width == 0 && r.inside().height == 0,
{
}

/// The footer is the last row, and what is above it the rest.
pub proof fn law_footer_is_the_last_row(r: Rect)
    requires
        r.height > 0,
        r.y + r.height <= u16::MAX,
    ensures
        r.footer() == (Rect { x: r.x, y: (r.y + r.height - 1) as u16, width: r.width, height: 1 }),
        r.above_footer() == (Rect {
            x: r.x,
            y: r.y,
            width: r.width,
            height: (r.height - 1) as u16,
        }),
{
}

/// The rows at the top and those below them make up the whole.
pub proof fn law_top_and_below(r: Rect, rows: u16)
    requires
        r.y + r.height <= u16::MAX,
    ensures
        r.top(rows).x == r.x && r.below(rows).x == r.x,
        r.top(rows).width == r.width && r.below(rows).width == r.width,
        r.top(rows).y == r.y,
        rows <= r.height ==> r.top(rows).height == rows && r.below(rows).y == r.y + rows,
        r.top(rows).height + r.below(rows).height == r.height,
        r.top(rows).height <= rows,
        r.below(rows).y + r.below(rows).height == r.y + r.height,
        history_rect(r, false) == r,
        r.height >= 2 ==> history_rect(r, true).y == r.y + 2 && history_rect(r, true).height
            == r.height - 2,
{
}

/// The names of the tabs, and the columns that a click on them hits.
pub proof fn law_tabs_and_their_columns(col: u16, tab_bar: Rect)
    requires
        tab_bar.width >= 43,
        tab_bar.height >= 2,
        tab_bar.x + tab_bar.width <= u16::MAX,
    ensures
        tab_label(0) == "Ops"@ && tab_label(1) == "Agents"@ && tab_label(2) == "History"@
            && tab_label(3) == "Settings"@,
        ({
            let rel = col - tab_bar.x - 1;
            &&& 0 <= rel < 5 ==> clicked_tab(col, tab_bar) == Some(0usize)
            &&& 5 <= rel < 16 ==> clicked_tab(col, tab_bar) == Some(1usize)
            &&& 16 <= rel < 28 ==> clicked_tab(col, tab_bar) == Some(2usize)
            &&& 28 <= rel < 41 ==> clicked_tab(col, tab_bar) == Some(3usize)
            &&& rel < 0 || rel >= 41 ==> clicked_tab(col, tab_bar) is None
        }),
{
    lemma_tab_ends();
}

/// The columns that a click on the tabs of the detail view hits: the input, the
/// timeline with its count of events, and the output.
pub proof fn law_detail_tabs_and_their_columns(col: u16, row: u16, bar: Rect, events: nat)
    ensures
        row != bar.y ==> clicked_log_tab(col, row, bar, events) is None,
        row == bar.y && bar.x <= col < bar.x + bar.width ==> {
            let rel = col - bar.x;
            let n = text::dec(events).len();
            &&& 2 <= rel < 7 ==> clicked_log_tab(col, row, bar, events) == Some(0usize)
            &&& 11 <= rel < 22 + n ==> clicked_log_tab(col, row, bar, events) == Some(1usize)
            &&& 26 + n <= rel < 32 + n ==> clicked_log_tab(col, row, bar, events) == Some(2usize)
            &&& rel < 2 || 7 <= rel < 11 || 22 + n <= rel < 26 + n || rel >= 32 + n
                ==> clicked_log_tab(col, row, bar, events) is None
        },
        col < bar.x || col >= bar.x + bar.width ==> clicked_log_tab(col, row, bar, events) is None,
{
}

/// A click on a list hits the entry that is drawn at that row: its position in
/// the list counts what was scrolled by.
pub proof fn law_clicks_hit_what_is_drawn(
    ops: OpsClickCache,
    agents: AgentsClickCache,
    row: u16,
)
    requires
        ops.slot_geometry@.len() <= usize::MAX,
        agents.card_geometry@.len() <= usize::MAX,
    ensures
        ops.hit(row) matches Some(s) ==> {
            let at = row - ops.list_rect.y + ops.scroll;
            &&& s < ops.slot_geometry@.len()
            &&& ops.list_rect.y <= row < ops.list_rect.y + ops.list_rect.height
            &&& ops.slot_geometry@[s as int].0 <= at < ops.slot_geometry@[s as int].0
                + ops.slot_geometry@[s as int].1
        },
        ops.hit(row) is None ==> (ops.list_rect.y <= row < ops.list_rect.y + ops.list_rect.height
            ==> forall|k: int|
            0 <= k < ops.slot_geometry@.len() ==> !within(
                row - ops.list_rect.y + ops.scroll,
                (#[trigger] ops.slot_geometry@[k]).0 as int,
                ops.slot_geometry@[k].1 as int,
            )),
        agents.hit(row) matches Some(s) ==> {
            let at = row - agents.list_rect.y;
            &&& s < agents.card_geometry@.len()
            &&& agents.list_rect.y <= row < agents.list_rect.y + agents.list_rect.height
            &&& agents.card_geometry@[s as int].0 <= at < agents.card_geometry@[s as int].0
                + agents.card_geometry@[s as int].1
        },
        agents.hit(row) is None ==> (agents.list_rect.y <= row < agents.list_rect.y
            + agents.list_rect.height ==> forall|k: int|
            0 <= k < agents.card_geometry@.len() ==> !within(
                row - agents.list_rect.y,
                (#[trigger] agents.card_geometry@[k]).0 as int,
                agents.card_geometry@[k].1 as int,
            )),
{
    law_slot_covers_row(ops.slot_geometry@, row - ops.list_rect.y + ops.scroll);
    law_slot_covers_row(agents.card_geometry@, row - agents.list_rect.y);
}

proof fn lemma_row_slot(rows: Seq<usize>, row: int, i: int)
    requires
        rows.len() <= usize::MAX,
        0 <= i <= rows.len(),
    ensures
        match row_slot(rows, row, i) {
            Some(s) => i <= s < rows.len() && rows[s as int] == row,
            None => forall|k: int| i <= k < rows.len() ==> #[trigger] rows[k] != row,
        },
    decreases rows.len() - i,
{
    if i < rows.len() && rows[i] != row {
        lemma_row_slot(rows, row, i + 1);
    }
}

/// A click on the History table hits the entry at that row, below the header and
/// with what was scrolled by.
pub proof fn law_history_clicks_hit_what_is_drawn(c: HistoryClickCache, row: u16)
    requires
        c.selectable_to_row@.len() <= usize::MAX,
    ensures
        c.hit(row) matches Some(s) ==> {
            &&& s < c.selectable_to_row@.len()
            &&& c.table_rect.y + c.header_rows <= row < c.table_rect.y + c.table_rect.height
            &&& c.selectable_to_row@[s as int] == row - c.table_rect.y - c.header_rows
                + c.scroll_offset
        },
        c.hit(row) is None && c.table_rect.y + c.header_rows <= row < c.table_rect.y
            + c.table_rect.height ==> forall|k: int|
            0 <= k < c.selectable_to_row@.len() ==> #[trigger] c.selectable_to_row@[k] != row
                - c.table_rect.y - c.header_rows + c.scroll_offset,
{
    lemma_row_slot(
        c.selectable_to_row@,
        row - c.table_rect.y - c.header_rows + c.scroll_offset,
        0,
    );
}

} // verus!
