//! Scrolling the session list: how many entries fit, the last useful
//! scroll position, the scrollbar, and the rectangles of the visible rows.
use vstd::prelude::*;
use crate::geometry::Rect;
use crate::model::AppState;
use crate::entries::{WorkspaceListEntry, is_list_of, law_show_more_iff_collapsed, lemma_session_list, session_list};
use crate::layout::{entry_dims, entry_height_and_gap, lemma_list_body_bounds, list_body, rect_new, sat_sub, sidebar_content, workspace_list_body_rect, workspace_list_rect};

verus! {

/// Where the list is scrolled to, counted in entries.
#[derive(Debug, Clone, Copy, PartialEq, Eq)]
pub struct ScrollMetrics {
    pub offset_from_bottom: usize,
    pub max_offset_from_bottom: usize,
    pub viewport_rows: usize,
}

/// The hit area of a visible session row.
#[derive(Debug, Clone, Copy, PartialEq, Eq)]
pub struct WorkspaceCardArea {
    pub ws_idx: usize,
    pub rect: Rect,
    pub indented: bool,
}

/// `min(a, b)`.
pub open spec fn min_int(a: int, b: int) -> int {
    if a < b { a } else { b }
}

/// The number of entries, from `i` on, that fit below `used` of the
/// `height` rows: entries are taken in order while the next one still fits,
/// and each is followed by its gap (the gap may run past the bottom).
pub open spec fn fit_count(app: AppState, e: Seq<WorkspaceListEntry>, height: u16, i: int, used: int) -> nat
    decreases e.len() - i,
{
    if i < 0 || i >= e.len() {
        0
    } else {
        let (h, g) = entry_dims(app, e, i, height);
        if used + h > height {
            0
        } else {
            1 + fit_count(app, e, height, i + 1, min_int(used + h + g, height as int))
        }
    }
}

/// Taking entries from the end backwards, from entry `i - 1` down, while
/// they fit below `used` of the `height` rows: the first entry taken, or `i`
/// when the next one back does not fit.
pub open spec fn fit_start_back(app: AppState, e: Seq<WorkspaceListEntry>, height: u16, i: int, used: int) -> int
    decreases i,
{
    if i <= 0 || i > e.len() {
        if i <= 0 { 0 } else { i }
    } else {
        let (h, g) = entry_dims(app, e, i - 1, height);
        if used + h > height {
            i
        } else {
            fit_start_back(app, e, height, i - 1, min_int(used + h + g, height as int))
        }
    }
}

/// The first entry of the list scrolled all the way down.
pub open spec fn bottom_start(app: AppState, e: Seq<WorkspaceListEntry>, area: Rect) -> int {
    let body = list_body(app, area, false);
    min_int(fit_start_back(app, e, body.height, e.len() as int, 0), sat_sub(e.len() as int, 1))
}

/// The number of entries shown from `scroll` on.
pub open spec fn visible_count(app: AppState, e: Seq<WorkspaceListEntry>, area: Rect, scroll: int) -> nat {
    let body = list_body(app, area, false);
    if body.width == 0 || body.height == 0 {
        0
    } else {
        fit_count(app, e, body.height, scroll, 0)
    }
}

fn visible_count_from(app: &AppState, entries: &Vec<WorkspaceListEntry>, body: Rect, scroll: usize) -> (n: usize)
    requires
        body.height < u16::MAX,
    ensures
        n == fit_count(*app, entries@, body.height, scroll as int, 0),
        n <= entries@.len(),
{
    let mut used: u16 = 0;
    let mut visible: usize = 0;
    let mut i = scroll;
    let mut stop = false;
    while !stop && i < entries.len()
        invariant
            body.height < u16::MAX,
            used <= body.height,
            visible + fit_count(*app, entries@, body.height, i as int, used as int)
                == fit_count(*app, entries@, body.height, scroll as int, 0),
            i >= entries@.len() ==> fit_count(*app, entries@, body.height, i as int, used as int) == 0,
            stop ==> fit_count(*app, entries@, body.height, i as int, used as int) == 0,
            visible <= entries@.len(),
            i >= scroll,
            visible == i - scroll,
        decreases entries@.len() - i, if stop { 0int } else { 1int },
    {
        let (row_height, gap) = entry_height_and_gap(app, entries, i, body);
        if used.saturating_add(row_height) > body.height {
            stop = true;
        } else {
            used = used + row_height;
            visible = visible + 1;
            let with_gap = used.saturating_add(gap);
            used = if with_gap < body.height { with_gap } else { body.height };
            i = i + 1;
        }
    }
    visible
}

/// The number of session list entries shown from `scroll` on.
pub fn workspace_list_visible_count(app: &AppState, area: Rect, scroll: usize) -> (n: usize)
    requires
        area.wf(),
    ensures
        n == visible_count(*app, session_list(*app), area, scroll as int),
{
    let body = workspace_list_body_rect(app, area, false);
    let entries = crate::entries::workspace_list_entries(app);
    if body.width == 0 || body.height == 0 {
        return 0;
    }
    visible_count_from(app, &entries, body, scroll)
}


fn bottom_start_of(app: &AppState, entries: &Vec<WorkspaceListEntry>, body: Rect) -> (start: usize)
    requires
        body.height < u16::MAX,
    ensures
        start == min_int(fit_start_back(*app, entries@, body.height, entries@.len() as int, 0), sat_sub(entries@.len() as int, 1)),
{
    let mut used: u16 = 0;
    let mut i = entries.len();
    let mut stop = false;
    while !stop && i > 0
        invariant
            body.height < u16::MAX,
            used <= body.height,
            i <= entries@.len(),
            fit_start_back(*app, entries@, body.height, i as int, used as int)
                == fit_start_back(*app, entries@, body.height, entries@.len() as int, 0),
            stop ==> fit_start_back(*app, entries@, body.height, i as int, used as int) == i,
        decreases i, if stop { 0int } else { 1int },
    {
        let (row_height, gap) = entry_height_and_gap(app, entries, i - 1, body);
        if used.saturating_add(row_height) > body.height {
            stop = true;
        } else {
            used = used + row_height;
            let with_gap = used.saturating_add(gap);
            used = if with_gap < body.height { with_gap } else { body.height };
            i = i - 1;
        }
    }
    let last = entries.len().saturating_sub(1);
    if i < last { i } else { last }
}

/// The first entry shown when the session list is scrolled to the bottom.
pub fn workspace_list_bottom_start(app: &AppState, area: Rect) -> (start: usize)
    requires
        area.wf(),
    ensures
        start == bottom_start(*app, session_list(*app), area),
{
    let body = workspace_list_body_rect(app, area, false);
    let entries = crate::entries::workspace_list_entries(app);
    bottom_start_of(app, &entries, body)
}

/// The scroll position clamped to the bottom: unchanged when the list has
/// no body, zero for an empty list.
pub fn normalized_workspace_scroll(app: &AppState, area: Rect, requested: usize) -> (scroll: usize)
    requires
        area.wf(),
    ensures
        ({
            let ws_area = sidebar_content(area);
            let body = list_body(*app, ws_area, false);
            scroll == if body.height == 0 {
                requested as int
            } else if session_list(*app).len() == 0 {
                0
            } else {
                min_int(requested as int, bottom_start(*app, session_list(*app), ws_area))
            }
        }),
{
    let ws_area = workspace_list_rect(area);
    let body = workspace_list_body_rect(app, ws_area, false);
    if body.height == 0 {
        return requested;
    }
    let entries = crate::entries::workspace_list_entries(app);
    if entries.len() == 0 {
        0
    } else {
        let bottom = workspace_list_bottom_start(app, ws_area);
        if requested < bottom { requested } else { bottom }
    }
}

/// The metrics of the session list at its current scroll position (the
/// position is clamped to the bottom).
pub open spec fn list_metrics(app: AppState, area: Rect) -> ScrollMetrics {
    let e = session_list(app);
    let max_scroll = bottom_start(app, e, area);
    let scroll = min_int(app.workspace_scroll as int, max_scroll);
    ScrollMetrics {
        offset_from_bottom: (max_scroll - scroll) as usize,
        max_offset_from_bottom: max_scroll as usize,
        viewport_rows: visible_count(app, e, area, scroll) as usize,
    }
}

/// Scroll metrics of the session list.
pub fn workspace_list_scroll_metrics(app: &AppState, area: Rect) -> (m: ScrollMetrics)
    requires
        area.wf(),
    ensures
        m == list_metrics(*app, area),
{
    let max_scroll = workspace_list_bottom_start(app, area);
    let scroll = if app.workspace_scroll < max_scroll { app.workspace_scroll } else { max_scroll };
    let viewport_rows = workspace_list_visible_count(app, area, scroll);
    ScrollMetrics { offset_from_bottom: max_scroll - scroll, max_offset_from_bottom: max_scroll, viewport_rows }
}

/// A scrollbar is shown when the list can scroll.
pub fn should_show_scrollbar(metrics: ScrollMetrics) -> (b: bool)
    ensures
        b == (metrics.max_offset_from_bottom > 0),
{
    metrics.max_offset_from_bottom > 0
}

/// The scrollbar track: the rightmost column beside the list body, when
/// the list can scroll and the body is not empty.
pub fn workspace_list_scrollbar_rect(app: &AppState, area: Rect) -> (r: Option<Rect>)
    requires
        area.wf(),
    ensures
        ({
            let body = list_body(*app, area, true);
            r == if list_metrics(*app, area).max_offset_from_bottom > 0 && body.width > 0 && body.height > 0 {
                Some(rect_new((area.x + area.width - 1) as u16, body.y, 1, body.height))
            } else {
                None
            }
        }),
{
    let metrics = workspace_list_scroll_metrics(app, area);
    let body = workspace_list_body_rect(app, area, true);
    if should_show_scrollbar(metrics) && body.width > 0 && body.height > 0 {
        Some(Rect::new(area.x + area.width.saturating_sub(1), body.y, 1, body.height))
    } else {
        None
    }
}

/// The hit areas of the visible session rows, walking the entries from
/// `i` with the next row at `row_y`, down to the body's bottom: each entry
/// takes its height and gap, and the walk stops at the first entry that
/// does not fit.
pub open spec fn cards_from(app: AppState, e: Seq<WorkspaceListEntry>, body: Rect, i: int, row_y: int) -> Seq<WorkspaceCardArea>
    decreases e.len() - i,
{
    if i < 0 || i >= e.len() {
        Seq::empty()
    } else {
        let (h, g) = entry_dims(app, e, i, body.height);
        let bottom = body.y + body.height;
        if row_y + h > bottom {
            Seq::empty()
        } else {
            let rest = cards_from(app, e, body, i + 1, min_int(row_y + h + g, bottom));
            match e[i] {
                WorkspaceListEntry::Workspace { ws_idx, indented } => seq![WorkspaceCardArea {
                    ws_idx,
                    rect: rect_new(body.x, row_y as u16, body.width, h),
                    indented,
                }] + rest,
                _ => rest,
            }
        }
    }
}

/// The hit areas of the visible session rows of the list in `area`.
pub open spec fn list_cards(app: AppState, area: Rect) -> Seq<WorkspaceCardArea> {
    let ws_area = sidebar_content(area);
    let body = list_body(app, ws_area, list_metrics(app, ws_area).max_offset_from_bottom > 0);
    if ws_area == Rect::zero() || body.width == 0 || body.height == 0 {
        Seq::empty()
    } else {
        cards_from(app, session_list(app), body, app.workspace_scroll as int, body.y as int)
    }
}

fn cards_of(app: &AppState, entries: &Vec<WorkspaceListEntry>, body: Rect, scroll: usize) -> (cards: Vec<WorkspaceCardArea>)
    requires
        body.height > 0,
        body.y + body.height < u16::MAX,
    ensures
        cards@ == cards_from(*app, entries@, body, scroll as int, body.y as int),
{
    let mut row_y = body.y;
    let body_bottom = body.y + body.height;
    let mut cards: Vec<WorkspaceCardArea> = Vec::new();
    let mut i = scroll;
    let mut stop = false;
    while !stop && i < entries.len()
        invariant
            body_bottom == body.y + body.height,
            body.y + body.height < u16::MAX,
            body.y <= row_y <= body_bottom,
            i >= scroll,
            cards@ + cards_from(*app, entries@, body, i as int, row_y as int)
                == cards_from(*app, entries@, body, scroll as int, body.y as int),
            stop ==> cards_from(*app, entries@, body, i as int, row_y as int) == Seq::<WorkspaceCardArea>::empty(),
        decreases entries@.len() - i, if stop { 0int } else { 1int },
    {
        let (row_height, gap) = entry_height_and_gap(app, entries, i, body);
        if row_y.saturating_add(row_height) > body_bottom {
            stop = true;
        } else {
            let ghost rest = cards_from(*app, entries@, body, i + 1, min_int(row_y + row_height + gap, body_bottom as int));
            match &entries[i] {
                WorkspaceListEntry::Workspace { ws_idx, indented } => {
                    let card = WorkspaceCardArea {
                        ws_idx: *ws_idx,
                        rect: Rect::new(body.x, row_y, body.width, row_height),
                        indented: *indented,
                    };
                    let ghost before = cards@;
                    cards.push(card);
                    assert(cards_from(*app, entries@, body, i as int, row_y as int) == seq![card] + rest);
                    assert(cards@ + rest == before + (seq![card] + rest));
                },
                _ => {},
            }
            let next = row_y.saturating_add(row_height).saturating_add(gap);
            row_y = if next < body_bottom { next } else { body_bottom };
            i = i + 1;
        }
    }
    proof {
        if !stop {
            assert(cards_from(*app, entries@, body, i as int, row_y as int) == Seq::<WorkspaceCardArea>::empty());
        }
    }
    assert(cards@ + Seq::<WorkspaceCardArea>::empty() == cards@);
    cards
}

/// The hit areas of the visible session rows, and of the group headers
/// (sessions have none).
pub fn compute_workspace_list_areas(app: &AppState, area: Rect) -> (areas: (Vec<WorkspaceCardArea>, Vec<()>))
    requires
        area.wf(),
    ensures
        areas.0@ == list_cards(*app, area),
        areas.1@.len() == 0,
{
    let ws_area = workspace_list_rect(area);
    if ws_area == Rect::default() {
        return (Vec::new(), Vec::new());
    }
    let metrics = workspace_list_scroll_metrics(app, ws_area);
    let body = workspace_list_body_rect(app, ws_area, should_show_scrollbar(metrics));
    if body.width == 0 || body.height == 0 {
        return (Vec::new(), Vec::new());
    }
    let entries = crate::entries::workspace_list_entries(app);
    let cards = cards_of(app, &entries, body, app.workspace_scroll);
    (cards, Vec::new())
}

/// The hit areas of the visible session rows.
pub fn compute_workspace_card_areas(app: &AppState, area: Rect) -> (cards: Vec<WorkspaceCardArea>)
    requires
        area.wf(),
    ensures
        cards@ == list_cards(*app, area),
{
    compute_workspace_list_areas(app, area).0
}

/// Every card of `cards` lies in the rows `top..bottom` of the body's
/// columns, and each ends before the next begins.
pub open spec fn stacked_in(cards: Seq<WorkspaceCardArea>, body: Rect, top: int) -> bool {
    &&& forall|k: int| 0 <= k < cards.len() ==> {
        &&& (#[trigger] cards[k]).rect.x == body.x
        &&& cards[k].rect.width == rect_new(body.x, body.y, body.width, 1).width
        &&& top <= cards[k].rect.y
        &&& cards[k].rect.y + cards[k].rect.height <= body.y + body.height
    }
    &&& forall|k: int, l: int| 0 <= k < l < cards.len() ==> #[trigger] cards[k].rect.y + cards[k].rect.height <= #[trigger] cards[l].rect.y
}

proof fn lemma_cards_stacked(app: AppState, e: Seq<WorkspaceListEntry>, body: Rect, i: int, row_y: int)
    requires
        body.y <= row_y <= body.y + body.height,
        body.y + body.height < u16::MAX,
    ensures
        stacked_in(cards_from(app, e, body, i, row_y), body, row_y),
    decreases e.len() - i,
{
    if 0 <= i < e.len() {
        let (h, g) = entry_dims(app, e, i, body.height);
        let bottom = body.y + body.height;
        if row_y + h <= bottom {
            let next = min_int(row_y + h + g, bottom);
            lemma_cards_stacked(app, e, body, i + 1, next);
            let rest = cards_from(app, e, body, i + 1, next);
            let cards = cards_from(app, e, body, i, row_y);
            if e[i] is Workspace {
                assert(cards == seq![cards[0]] + rest);
                assert forall|k: int, l: int| 0 <= k < l < cards.len() implies #[trigger] cards[k].rect.y + cards[k].rect.height <= #[trigger] cards[l].rect.y by {
                    if k > 0 {
                        assert(cards[k] == rest[k - 1]);
                        assert(cards[l] == rest[l - 1]);
                    } else {
                        assert(cards[l] == rest[l - 1]);
                    }
                }
                assert forall|k: int| 0 <= k < cards.len() implies {
                    &&& (#[trigger] cards[k]).rect.x == body.x
                    &&& cards[k].rect.width == rect_new(body.x, body.y, body.width, 1).width
                    &&& row_y <= cards[k].rect.y
                    &&& cards[k].rect.y + cards[k].rect.height <= body.y + body.height
                } by {
                    if k > 0 {
                        assert(cards[k] == rest[k - 1]);
                    }
                }
            }
        }
    }
}

/// The hit areas of visible session rows lie inside the list body, top to
/// bottom in list order, without overlapping.
pub proof fn law_cards_inside_body(app: AppState, area: Rect)
    requires
        area.wf(),
    ensures
        ({
            let ws_area = sidebar_content(area);
            let body = list_body(app, ws_area, list_metrics(app, ws_area).max_offset_from_bottom > 0);
            stacked_in(list_cards(app, area), body, body.y as int)
        }),
{
    let ws_area = sidebar_content(area);
    let body = list_body(app, ws_area, list_metrics(app, ws_area).max_offset_from_bottom > 0);
    if !(ws_area == Rect::zero() || body.width == 0 || body.height == 0) {
        assert(ws_area.wf());
        lemma_list_body_bounds(app, ws_area, list_metrics(app, ws_area).max_offset_from_bottom > 0);
        lemma_cards_stacked(app, session_list(app), body, app.workspace_scroll as int, body.y as int);
    }
}

/// Walking the entries from `i` with the next row at `row_y`: the row of
/// the "show more" entry, if it is reached before an entry fails to fit.
pub open spec fn show_more_from(app: AppState, e: Seq<WorkspaceListEntry>, body: Rect, i: int, row_y: int) -> Option<Rect>
    decreases e.len() - i,
{
    if i < 0 || i >= e.len() {
        None
    } else {
        let (h, g) = entry_dims(app, e, i, body.height);
        let bottom = body.y + body.height;
        if min_int(row_y + h, u16::MAX as int) > bottom {
            None
        } else if e[i] == WorkspaceListEntry::SettledShowMore {
            Some(rect_new(body.x, row_y as u16, body.width, 1))
        } else {
            show_more_from(app, e, body, i + 1, min_int(row_y + h + g, bottom))
        }
    }
}

/// Click target of the "+ Show N more" row of the list in `area`, when the
/// archive is collapsed and that row is on screen.
pub open spec fn show_more_target(app: AppState, area: Rect) -> Option<Rect> {
    let metrics = list_metrics(app, area);
    let body = list_body(app, area, metrics.max_offset_from_bottom > 0);
    if area.width == 0 || area.height == 0 || app.settled_expanded || body == Rect::zero() {
        None
    } else {
        show_more_from(app, session_list(app), body,
            min_int(app.workspace_scroll as int, metrics.max_offset_from_bottom as int), body.y as int)
    }
}

fn show_more_of(app: &AppState, entries: &Vec<WorkspaceListEntry>, body: Rect, scroll: usize) -> (r: Option<Rect>)
    requires
        body.wf(),
    ensures
        r == show_more_from(*app, entries@, body, scroll as int, body.y as int),
{
    let mut row_y = body.y;
    let body_bottom = body.y + body.height;
    let mut i = scroll;
    while i < entries.len()
        invariant
            body_bottom == body.y + body.height,
            body.wf(),
            body.y <= row_y <= body_bottom,
            show_more_from(*app, entries@, body, i as int, row_y as int)
                == show_more_from(*app, entries@, body, scroll as int, body.y as int),
        decreases entries@.len() - i,
    {
        let (row_height, gap) = entry_height_and_gap(app, entries, i, body);
        if row_y.saturating_add(row_height) > body_bottom {
            return None;
        }
        if entries[i] == WorkspaceListEntry::SettledShowMore {
            return Some(Rect::new(body.x, row_y, body.width, 1));
        }
        let next = row_y.saturating_add(row_height).saturating_add(gap);
        row_y = if next < body_bottom { next } else { body_bottom };
        i = i + 1;
    }
    None
}

/// Click target for the "+ Show N more" row in the settled section.
pub fn settled_show_more_rect(app: &AppState, area: Rect) -> (r: Option<Rect>)
    requires
        area.wf(),
    ensures
        r == show_more_target(*app, area),
{
    if area.width == 0 || area.height == 0 || app.settled_expanded {
        return None;
    }
    let metrics = workspace_list_scroll_metrics(app, area);
    let body = workspace_list_body_rect(app, area, should_show_scrollbar(metrics));
    if body == Rect::default() {
        return None;
    }
    let entries = crate::entries::workspace_list_entries(app);
    let scroll = if app.workspace_scroll < metrics.max_offset_from_bottom {
        app.workspace_scroll
    } else {
        metrics.max_offset_from_bottom
    };
    show_more_of(app, &entries, body, scroll)
}

/// The collapse chevron of a group's card: the top-right cell of the card.
pub fn workspace_group_chevron_rect(card: &WorkspaceCardArea) -> (r: Rect)
    requires
        card.rect.wf(),
    ensures
        r == (if card.rect.width == 0 || card.rect.height == 0 { Rect::zero() } else {
            rect_new((card.rect.x + card.rect.width - 1) as u16, card.rect.y, 1, 1)
        }),
{
    if card.rect.width == 0 || card.rect.height == 0 {
        return Rect::default();
    }
    Rect::new(card.rect.x + card.rect.width.saturating_sub(1), card.rect.y, 1, 1)
}

/// A scroll position is never past the bottom position, and the bottom
/// position is an entry of the list (or zero for an empty list).
pub proof fn law_scroll_stays_in_list(app: AppState, area: Rect)
    requires
        area.wf(),
        session_list(app).len() <= usize::MAX,
    ensures
        0 <= bottom_start(app, session_list(app), area),
        session_list(app).len() > 0 ==> bottom_start(app, session_list(app), area) < session_list(app).len(),
        list_metrics(app, area).offset_from_bottom <= list_metrics(app, area).max_offset_from_bottom,
        list_metrics(app, area).viewport_rows <= session_list(app).len(),
{
    let e = session_list(app);
    let body = list_body(app, area, false);
    lemma_fit_start_back_range(app, e, body.height, e.len() as int, 0);
    let max_scroll = bottom_start(app, e, area);
    let scroll = min_int(app.workspace_scroll as int, max_scroll);
    lemma_fit_count_bound(app, e, body.height, scroll, 0);
}

proof fn lemma_fit_start_back_range(app: AppState, e: Seq<WorkspaceListEntry>, height: u16, i: int, used: int)
    requires
        0 <= i <= e.len(),
    ensures
        0 <= fit_start_back(app, e, height, i, used) <= i,
    decreases i,
{
    if i > 0 {
        let (h, g) = entry_dims(app, e, i - 1, height);
        if used + h <= height {
            lemma_fit_start_back_range(app, e, height, i - 1, min_int(used + h + g, height as int));
        }
    }
}

proof fn lemma_fit_count_bound(app: AppState, e: Seq<WorkspaceListEntry>, height: u16, i: int, used: int)
    requires
        0 <= i,
    ensures
        fit_count(app, e, height, i, used) <= if i < e.len() { e.len() - i } else { 0 },
    decreases e.len() - i,
{
    if i < e.len() {
        let (h, g) = entry_dims(app, e, i, height);
        lemma_fit_count_bound(app, e, height, i + 1, min_int(used + h + g, height as int));
    }
}

/// Walking the entries from `i` with the next row at `row_y`: each entry
/// that is drawn, with its first row, until an entry does not fit above the
/// body's bottom.
pub open spec fn rows_from(app: AppState, e: Seq<WorkspaceListEntry>, body: Rect, i: int, row_y: int) -> Seq<(usize, u16)>
    decreases e.len() - i,
{
    if i < 0 || i >= e.len() {
        Seq::empty()
    } else {
        let (h, g) = entry_dims(app, e, i, body.height);
        let bottom = body.y + body.height;
        if min_int(row_y + h, u16::MAX as int) > bottom {
            Seq::empty()
        } else {
            seq![(i as usize, row_y as u16)] + rows_from(app, e, body, i + 1, min_int(row_y + h + g, bottom))
        }
    }
}

/// The body the list in `area` is drawn in, beside its scrollbar when it
/// can scroll.
pub open spec fn drawn_body(app: AppState, area: Rect) -> Rect {
    list_body(app, area, list_metrics(app, area).max_offset_from_bottom > 0)
}

/// The entries the list in `area` draws, each with its first row: from the
/// scroll position (clamped to the bottom) down while entries fit.
pub open spec fn drawn_rows(app: AppState, area: Rect) -> Seq<(usize, u16)> {
    let body = drawn_body(app, area);
    if body == Rect::zero() {
        Seq::empty()
    } else {
        rows_from(app, session_list(app), body,
            min_int(app.workspace_scroll as int, list_metrics(app, area).max_offset_from_bottom as int), body.y as int)
    }
}

fn rows_of(app: &AppState, entries: &Vec<WorkspaceListEntry>, body: Rect, scroll: usize) -> (rows: Vec<(usize, u16)>)
    requires
        body.wf(),
    ensures
        rows@ == rows_from(*app, entries@, body, scroll as int, body.y as int),
{
    let mut rows: Vec<(usize, u16)> = Vec::new();
    let mut row_y = body.y;
    let body_bottom = body.y + body.height;
    let mut i = scroll;
    let mut stop = false;
    while !stop && i < entries.len()
        invariant
            body_bottom == body.y + body.height,
            body.wf(),
            body.y <= row_y <= body_bottom,
            i >= scroll,
            rows@ + rows_from(*app, entries@, body, i as int, row_y as int)
                == rows_from(*app, entries@, body, scroll as int, body.y as int),
            stop ==> rows_from(*app, entries@, body, i as int, row_y as int) == Seq::<(usize, u16)>::empty(),
        decreases entries@.len() - i, if stop { 0int } else { 1int },
    {
        let (row_height, gap) = entry_height_and_gap(app, entries, i, body);
        if row_y.saturating_add(row_height) > body_bottom {
            stop = true;
        } else {
            let ghost before = rows@;
            let ghost rest = rows_from(*app, entries@, body, i + 1, min_int(row_y + row_height + gap, body_bottom as int));
            rows.push((i, row_y));
            assert(rows@ + rest == before + (seq![(i, row_y)] + rest));
            let next = row_y.saturating_add(row_height).saturating_add(gap);
            row_y = if next < body_bottom { next } else { body_bottom };
            i = i + 1;
        }
    }
    assert(rows@ + Seq::<(usize, u16)>::empty() == rows@);
    rows
}

/// The entries the session list in `area` draws, each with its first row.
pub fn visible_rows(app: &AppState, area: Rect) -> (rows: Vec<(usize, u16)>)
    requires
        area.wf(),
    ensures
        rows@ == drawn_rows(*app, area),
{
    let metrics = workspace_list_scroll_metrics(app, area);
    let body = workspace_list_body_rect(app, area, should_show_scrollbar(metrics));
    if body == Rect::default() {
        return Vec::new();
    }
    let entries = crate::entries::workspace_list_entries(app);
    let scroll = if app.workspace_scroll < metrics.max_offset_from_bottom {
        app.workspace_scroll
    } else {
        metrics.max_offset_from_bottom
    };
    rows_of(app, &entries, body, scroll)
}

/// The row of the first of `rows` from `k` on whose entry is "show more".
pub open spec fn show_more_row(e: Seq<WorkspaceListEntry>, rows: Seq<(usize, u16)>, k: int) -> Option<u16>
    decreases rows.len() - k,
{
    if k < 0 || k >= rows.len() {
        None
    } else if 0 <= rows[k].0 < e.len() && e[rows[k].0 as int] == WorkspaceListEntry::SettledShowMore {
        Some(rows[k].1)
    } else {
        show_more_row(e, rows, k + 1)
    }
}

proof fn lemma_show_more_walk(app: AppState, e: Seq<WorkspaceListEntry>, body: Rect, i: int, row_y: int)
    requires
        0 <= i,
        e.len() <= usize::MAX,
        body.y <= row_y <= body.y + body.height,
    ensures
        show_more_from(app, e, body, i, row_y) == match show_more_row(e, rows_from(app, e, body, i, row_y), 0) {
            Some(y) => Some(rect_new(body.x, y, body.width, 1)),
            None => None,
        },
    decreases e.len() - i,
{
    if i < e.len() {
        let (h, g) = entry_dims(app, e, i, body.height);
        let bottom = body.y + body.height;
        if min_int(row_y + h, u16::MAX as int) <= bottom {
            let next = min_int(row_y + h + g, bottom);
            lemma_show_more_walk(app, e, body, i + 1, next);
            let rest = rows_from(app, e, body, i + 1, next);
            let rows = rows_from(app, e, body, i, row_y);
            assert(rows == seq![(i as usize, row_y as u16)] + rest);
            lemma_show_more_row_shift(e, seq![(i as usize, row_y as u16)], rest, 0);
        }
    }
}

proof fn lemma_show_more_row_shift(e: Seq<WorkspaceListEntry>, front: Seq<(usize, u16)>, back: Seq<(usize, u16)>, k: int)
    requires
        front.len() == 1,
        0 <= k <= back.len(),
    ensures
        show_more_row(e, front + back, k + 1) == show_more_row(e, back, k),
    decreases back.len() - k,
{
    let all = front + back;
    if k < back.len() {
        assert(all[k + 1] == back[k]);
        lemma_show_more_row_shift(e, front, back, k + 1);
    }
}

/// The click target of "+ Show N more" is the row on which the list draws
/// that entry: `settled_show_more_rect` gives the body-wide row of the first
/// drawn "show more" entry of `visible_rows`, and nothing when that entry is
/// not drawn.
pub proof fn law_show_more_target_is_drawn_row(app: AppState, area: Rect, e: Seq<WorkspaceListEntry>)
    requires
        area.wf(),
        is_list_of(app, e),
        app.workspaces@.len() <= usize::MAX,
        e.len() <= usize::MAX,
    ensures
        show_more_target(app, area) == match show_more_row(session_list(app), drawn_rows(app, area), 0) {
            Some(y) => Some(rect_new(drawn_body(app, area).x, y, drawn_body(app, area).width, 1)),
            None => None,
        },
{
    lemma_session_list(app, e);
    let body = drawn_body(app, area);
    let metrics = list_metrics(app, area);
    lemma_list_body_bounds(app, area, metrics.max_offset_from_bottom > 0);
    law_show_more_iff_collapsed(app, e);
    if !(area.width == 0 || area.height == 0 || body == Rect::zero()) {
        let start = min_int(app.workspace_scroll as int, metrics.max_offset_from_bottom as int);
        lemma_show_more_walk(app, e, body, start, body.y as int);
        if app.settled_expanded {
            let rows = rows_from(app, e, body, start, body.y as int);
            lemma_no_show_more_row(app, e, body, start, body.y as int);
        }
    } else if area.width == 0 || area.height == 0 {
        assert(body == Rect::zero());
    }
}

proof fn lemma_no_show_more_row(app: AppState, e: Seq<WorkspaceListEntry>, body: Rect, i: int, row_y: int)
    requires
        !e.contains(WorkspaceListEntry::SettledShowMore),
        0 <= i,
        e.len() <= usize::MAX,
    ensures
        show_more_row(e, rows_from(app, e, body, i, row_y), 0) is None,
    decreases e.len() - i,
{
    if i < e.len() {
        let (h, g) = entry_dims(app, e, i, body.height);
        let bottom = body.y + body.height;
        if min_int(row_y + h, u16::MAX as int) <= bottom {
            let next = min_int(row_y + h + g, bottom);
            lemma_no_show_more_row(app, e, body, i + 1, next);
            let rest = rows_from(app, e, body, i + 1, next);
            assert(rows_from(app, e, body, i, row_y) == seq![(i as usize, row_y as u16)] + rest);
            lemma_show_more_row_shift(e, seq![(i as usize, row_y as u16)], rest, 0);
            assert(e[i] != WorkspaceListEntry::SettledShowMore);
        }
    }
}

/// The hit areas of the session rows among `rows`: one card per drawn
/// session row, at its row, as tall as the entry, across the body.
pub open spec fn cards_of_rows(app: AppState, e: Seq<WorkspaceListEntry>, body: Rect, rows: Seq<(usize, u16)>) -> Seq<WorkspaceCardArea>
    decreases rows.len(),
{
    if rows.len() == 0 {
        Seq::empty()
    } else {
        let (i, y) = rows[0];
        let rest = cards_of_rows(app, e, body, rows.drop_first());
        match e[i as int] {
            WorkspaceListEntry::Workspace { ws_idx, indented } => seq![WorkspaceCardArea {
                ws_idx,
                rect: rect_new(body.x, y, body.width, entry_dims(app, e, i as int, body.height).0),
                indented,
            }] + rest,
            _ => rest,
        }
    }
}

proof fn lemma_cards_walk(app: AppState, e: Seq<WorkspaceListEntry>, body: Rect, i: int, row_y: int)
    requires
        0 <= i,
        e.len() <= usize::MAX,
        body.y <= row_y <= body.y + body.height,
        body.y + body.height < u16::MAX,
    ensures
        cards_from(app, e, body, i, row_y) == cards_of_rows(app, e, body, rows_from(app, e, body, i, row_y)),
    decreases e.len() - i,
{
    if i < e.len() {
        let (h, g) = entry_dims(app, e, i, body.height);
        let bottom = body.y + body.height;
        if row_y + h <= bottom {
            let next = min_int(row_y + h + g, bottom);
            lemma_cards_walk(app, e, body, i + 1, next);
            let rest = rows_from(app, e, body, i + 1, next);
            let rows = rows_from(app, e, body, i, row_y);
            assert(rows == seq![(i as usize, row_y as u16)] + rest);
            assert(rows.drop_first() == rest);
        }
    }
}

/// The hit areas of the session list are the session rows it draws: when
/// the stored scroll position is within the list and the body is not
/// empty, `compute_workspace_card_areas` gives one card for each session
/// row of `visible_rows`, at that row.
pub proof fn law_cards_are_drawn_session_rows(app: AppState, area: Rect, e: Seq<WorkspaceListEntry>)
    requires
        area.wf(),
        is_list_of(app, e),
        e.len() <= usize::MAX,
        app.workspace_scroll <= list_metrics(app, sidebar_content(area)).max_offset_from_bottom,
    ensures
        ({
            let ws_area = sidebar_content(area);
            let body = drawn_body(app, ws_area);
            body.width > 0 && body.height > 0 ==>
                list_cards(app, area) == cards_of_rows(app, session_list(app), body, drawn_rows(app, ws_area))
        }),
{
    lemma_session_list(app, e);
    let ws_area = sidebar_content(area);
    let body = drawn_body(app, ws_area);
    assert(ws_area.wf());
    lemma_list_body_bounds(app, ws_area, list_metrics(app, ws_area).max_offset_from_bottom > 0);
    if body.width > 0 && body.height > 0 {
        assert(ws_area != Rect::zero());
        lemma_cards_walk(app, e, body, app.workspace_scroll as int, body.y as int);
    }
}

/// The scrollbar's offset from the bottom is the distance still to scroll:
/// with the scroll position (clamped to the bottom) it makes up the whole
/// range, so it falls as the list is scrolled down, is the whole range at
/// the top and zero at the bottom.
pub proof fn law_offset_counts_down_to_bottom(app: AppState, area: Rect)
    requires
        area.wf(),
        session_list(app).len() <= usize::MAX,
    ensures
        ({
            let m = list_metrics(app, area);
            &&& m.offset_from_bottom + min_int(app.workspace_scroll as int, m.max_offset_from_bottom as int) == m.max_offset_from_bottom
            &&& app.workspace_scroll >= m.max_offset_from_bottom ==> m.offset_from_bottom == 0
            &&& app.workspace_scroll == 0 ==> m.offset_from_bottom == m.max_offset_from_bottom
        }),
{
    law_scroll_stays_in_list(app, area);
}

} // verus!
