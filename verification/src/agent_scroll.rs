//! Scrolling the agent panel.  Each entry of the panel takes as many rows
//! as its token rows (at least one), cut to the panel body; entries are
//! separated by the agent row gap.
use vstd::prelude::*;
use crate::geometry::Rect;
use crate::model::AppState;
use crate::layout::{agent_entry_gap, agent_panel_body_rect, rect_new, AGENT_PANEL_HEADER_ROWS};
use crate::scroll::{min_int, ScrollMetrics};

verus! {

/// Rows an entry with `row_count` token rows takes in a body `body_height`
/// rows tall: at least one, at most the body.
pub open spec fn agent_height(row_count: usize, body_height: u16) -> u16 {
    let rows = if row_count < 1 { 1 } else if row_count > u16::MAX { u16::MAX as int } else { row_count as int };
    (if rows < body_height { rows } else { body_height as int }) as u16
}

/// Rows an agent entry takes in the panel body.
pub fn agent_entry_height_in_body(row_count: usize, body_height: u16) -> (h: u16)
    ensures
        h == agent_height(row_count, body_height),
{
    let rows: u16 = if row_count < 1 { 1 } else if row_count > 65535 { u16::MAX } else { row_count as u16 };
    if rows < body_height { rows } else { body_height }
}

/// The body of the agent panel, without a scrollbar.
pub open spec fn panel_body(area: Rect) -> Rect {
    if area.width == 0 || area.height <= AGENT_PANEL_HEADER_ROWS {
        Rect::zero()
    } else {
        rect_new(area.x, (area.y + AGENT_PANEL_HEADER_ROWS) as u16, area.width, (area.height - AGENT_PANEL_HEADER_ROWS) as u16)
    }
}

/// The gap after entry `i` of `n`.
pub open spec fn agent_gap(gap: u16, i: int, n: int) -> u16 {
    if i + 1 < n { gap } else { 0 }
}

/// The number of entries, from `i` on, that fit below `used` of `height`
/// rows; the gap after an entry may run past the bottom.
pub open spec fn agent_fit_count(rows: Seq<usize>, gap: u16, height: u16, i: int, used: int) -> nat
    decreases rows.len() - i,
{
    if i < 0 || i >= rows.len() {
        0
    } else {
        let h = agent_height(rows[i], height);
        if used + h > height {
            0
        } else {
            1 + agent_fit_count(rows, gap, height, i + 1, min_int(used + h + agent_gap(gap, i, rows.len() as int), height as int))
        }
    }
}

/// Taking entries backwards from entry `i - 1`, each with its gap, while
/// they fit: the first entry taken, or `i` when the next one back does not
/// fit.
pub open spec fn agent_fit_start_back(rows: Seq<usize>, gap: u16, height: u16, i: int, used: int) -> int
    decreases i,
{
    if i <= 0 || i > rows.len() {
        if i <= 0 { 0 } else { i }
    } else {
        let needed = agent_height(rows[i - 1], height) + agent_gap(gap, i - 1, rows.len() as int);
        if used + needed > height {
            i
        } else {
            agent_fit_start_back(rows, gap, height, i - 1, used + needed)
        }
    }
}

/// The number of agent entries shown from `scroll` on.
pub open spec fn agent_visible(rows: Seq<usize>, gap: u16, area: Rect, scroll: int) -> nat {
    let body = panel_body(area);
    if body.width == 0 || body.height == 0 { 0 } else { agent_fit_count(rows, gap, body.height, scroll, 0) }
}

/// The first agent entry shown when the panel is scrolled to the bottom.
pub open spec fn agent_bottom(rows: Seq<usize>, gap: u16, area: Rect) -> int {
    let body = panel_body(area);
    min_int(agent_fit_start_back(rows, gap, body.height, rows.len() as int, 0),
        if rows.len() > 0 { rows.len() - 1 } else { 0 })
}

/// The number of agent entries shown from `scroll` on, for entries with the
/// given numbers of token rows.
pub fn agent_panel_visible_count_from(app: &AppState, rows: &Vec<usize>, area: Rect, scroll: usize) -> (n: usize)
    requires
        area.wf(),
    ensures
        n == agent_visible(rows@, app.agent_row_gap, area, scroll as int),
        n <= rows@.len(),
{
    let body = agent_panel_body_rect(area, false);
    if body.width == 0 || body.height == 0 {
        return 0;
    }
    let mut used: u16 = 0;
    let mut visible: usize = 0;
    let mut i = scroll;
    let mut stop = false;
    while !stop && i < rows.len()
        invariant
            body == panel_body(area),
            body.height < u16::MAX,
            used <= body.height,
            visible + agent_fit_count(rows@, app.agent_row_gap, body.height, i as int, used as int)
                == agent_fit_count(rows@, app.agent_row_gap, body.height, scroll as int, 0),
            i >= rows@.len() ==> agent_fit_count(rows@, app.agent_row_gap, body.height, i as int, used as int) == 0,
            stop ==> agent_fit_count(rows@, app.agent_row_gap, body.height, i as int, used as int) == 0,
            i >= scroll,
            visible == i - scroll,
            visible <= rows@.len(),
        decreases rows@.len() - i, if stop { 0int } else { 1int },
    {
        let height = agent_entry_height_in_body(rows[i], body.height);
        if used.saturating_add(height) > body.height {
            stop = true;
        } else {
            used = used + height;
            visible = visible + 1;
            let with_gap = used.saturating_add(agent_entry_gap(app, i, rows.len()));
            used = if with_gap < body.height { with_gap } else { body.height };
            i = i + 1;
        }
    }
    visible
}

/// The first agent entry shown when the panel is scrolled to the bottom.
pub fn agent_panel_bottom_start(app: &AppState, rows: &Vec<usize>, area: Rect) -> (start: usize)
    requires
        area.wf(),
    ensures
        start == agent_bottom(rows@, app.agent_row_gap, area),
{
    let body = agent_panel_body_rect(area, false);
    let mut used: u16 = 0;
    let mut i = rows.len();
    let mut stop = false;
    while !stop && i > 0
        invariant
            body == panel_body(area),
            body.height < u16::MAX,
            used <= body.height,
            i <= rows@.len(),
            agent_fit_start_back(rows@, app.agent_row_gap, body.height, i as int, used as int)
                == agent_fit_start_back(rows@, app.agent_row_gap, body.height, rows@.len() as int, 0),
            stop ==> agent_fit_start_back(rows@, app.agent_row_gap, body.height, i as int, used as int) == i,
        decreases i, if stop { 0int } else { 1int },
    {
        let gap = agent_entry_gap(app, i - 1, rows.len());
        let needed = agent_entry_height_in_body(rows[i - 1], body.height).saturating_add(gap);
        if used.saturating_add(needed) > body.height {
            stop = true;
        } else {
            used = used + needed;
            i = i - 1;
        }
    }
    let last = rows.len().saturating_sub(1);
    if i < last { i } else { last }
}

/// From `scroll` on, the first position at which `target` is shown, or
/// `target` itself when no earlier position shows it.
pub open spec fn reveal_from(rows: Seq<usize>, gap: u16, area: Rect, scroll: int, target: int) -> int
    decreases target - scroll,
{
    if scroll >= target {
        scroll
    } else {
        let visible = agent_visible(rows, gap, area, scroll);
        if visible > 0 && target < scroll + visible {
            scroll
        } else {
            reveal_from(rows, gap, area, scroll + 1, target)
        }
    }
}

/// The scroll position that brings agent entry `target` into view: going
/// up jumps straight to it; going down moves just far enough; never past
/// the bottom position.
pub open spec fn scroll_for_target(rows: Seq<usize>, gap: u16, area: Rect, current: int, target: int) -> int {
    let max_scroll = agent_bottom(rows, gap, area);
    if target < current {
        min_int(target, max_scroll)
    } else {
        min_int(reveal_from(rows, gap, area, min_int(current, max_scroll), target), max_scroll)
    }
}

/// The scroll position that brings agent entry `target` into view.
pub fn agent_panel_scroll_for_target(app: &AppState, rows: &Vec<usize>, area: Rect, current_scroll: usize, target: usize) -> (scroll: usize)
    requires
        area.wf(),
    ensures
        scroll == scroll_for_target(rows@, app.agent_row_gap, area, current_scroll as int, target as int),
{
    let max_scroll = agent_panel_bottom_start(app, rows, area);
    if target < current_scroll {
        return if target < max_scroll { target } else { max_scroll };
    }
    let mut scroll = if current_scroll < max_scroll { current_scroll } else { max_scroll };
    let ghost start = scroll;
    let mut found = false;
    while !found && scroll < target
        invariant
            start <= scroll,
            scroll <= target || scroll == start,
            max_scroll == agent_bottom(rows@, app.agent_row_gap, area),
            area.wf(),
            found ==> reveal_from(rows@, app.agent_row_gap, area, scroll as int, target as int) == scroll,
            reveal_from(rows@, app.agent_row_gap, area, scroll as int, target as int)
                == reveal_from(rows@, app.agent_row_gap, area, start as int, target as int),
        decreases target - scroll, if found { 0int } else { 1int },
    {
        let visible = agent_panel_visible_count_from(app, rows, area, scroll);
        if visible > 0 && target - scroll < visible {
            found = true;
        } else {
            scroll = scroll + 1;
        }
    }
    if scroll < max_scroll { scroll } else { max_scroll }
}

/// The metrics of the agent panel at its current scroll position.
pub fn agent_panel_scroll_metrics(app: &AppState, rows: &Vec<usize>, area: Rect) -> (m: ScrollMetrics)
    requires
        area.wf(),
    ensures
        ({
            let max_scroll = agent_bottom(rows@, app.agent_row_gap, area);
            let scroll = min_int(app.agent_panel_scroll as int, max_scroll);
            &&& m.max_offset_from_bottom == max_scroll
            &&& m.offset_from_bottom == max_scroll - scroll
            &&& m.viewport_rows == agent_visible(rows@, app.agent_row_gap, area, scroll)
        }),
{
    let max_scroll = agent_panel_bottom_start(app, rows, area);
    let scroll = if app.agent_panel_scroll < max_scroll { app.agent_panel_scroll } else { max_scroll };
    let viewport_rows = agent_panel_visible_count_from(app, rows, area, scroll);
    ScrollMetrics { offset_from_bottom: max_scroll - scroll, max_offset_from_bottom: max_scroll, viewport_rows }
}

/// The agent panel's scrollbar track, when the panel can scroll.
pub fn agent_panel_scrollbar_rect(app: &AppState, rows: &Vec<usize>, area: Rect) -> (r: Option<Rect>)
    requires
        area.wf(),
    ensures
        ({
            let body = agent_body_with_bar(area);
            r == if agent_bottom(rows@, app.agent_row_gap, area) > 0 && body.width > 0 && body.height > 0 {
                Some(rect_new((area.x + area.width - 1) as u16, body.y, 1, body.height))
            } else {
                None
            }
        }),
{
    let metrics = agent_panel_scroll_metrics(app, rows, area);
    let body = agent_panel_body_rect(area, true);
    if crate::scroll::should_show_scrollbar(metrics) && body.width > 0 && body.height > 0 {
        Some(Rect::new(area.x + area.width.saturating_sub(1), body.y, 1, body.height))
    } else {
        None
    }
}

/// The body of the agent panel beside a scrollbar.
pub open spec fn agent_body_with_bar(area: Rect) -> Rect {
    if area.width == 0 || area.height <= AGENT_PANEL_HEADER_ROWS {
        Rect::zero()
    } else {
        rect_new(area.x, (area.y + AGENT_PANEL_HEADER_ROWS) as u16, (area.width - 1) as u16, (area.height - AGENT_PANEL_HEADER_ROWS) as u16)
    }
}


proof fn lemma_reveal_between(rows: Seq<usize>, gap: u16, area: Rect, scroll: int, target: int)
    requires
        scroll <= target,
    ensures
        scroll <= reveal_from(rows, gap, area, scroll, target) <= target,
    decreases target - scroll,
{
    if scroll < target {
        lemma_reveal_between(rows, gap, area, scroll + 1, target);
    }
}

/// Bringing an entry into view never scrolls past the bottom position,
/// moves up straight to an entry above, and moves down no further than the
/// entry itself.
pub proof fn law_scroll_for_target_is_minimal(rows: Seq<usize>, gap: u16, area: Rect, current: int, target: int)
    ensures
        scroll_for_target(rows, gap, area, current, target) <= agent_bottom(rows, gap, area),
        target < current ==> scroll_for_target(rows, gap, area, current, target) == min_int(target, agent_bottom(rows, gap, area)),
        target >= current ==> scroll_for_target(rows, gap, area, current, target) <= target,
        target >= current ==> scroll_for_target(rows, gap, area, current, target) >= min_int(current, agent_bottom(rows, gap, area)),
{
    if target >= current {
        let max_scroll = agent_bottom(rows, gap, area);
        lemma_reveal_between(rows, gap, area, min_int(current, max_scroll), target);
    }
}
} // verus!
