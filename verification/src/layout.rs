//! Where the parts of the sidebar stand: the session list area, its body
//! below the header and the focused-session card, the toggle button, and
//! the (now empty) agent detail area.
use vstd::prelude::*;
use crate::geometry::Rect;
use crate::model::{AgentPanelSort, AgentState, AppState, Workspace};
use crate::entries::WorkspaceListEntry;

verus! {

/// Rows above the session list body: the " sessions" title and a blank row.
pub const WORKSPACE_SECTION_HEADER_ROWS: u16 = 2;
/// Rows above the agent panel body.
pub const AGENT_PANEL_HEADER_ROWS: u16 = 3;
/// Every session renders as two rows: goal line and branch line.
pub const SESSION_ROW_HEIGHT: u16 = 2;

/// What `Rect::new(x, y, width, height)` gives.
pub open spec fn rect_new(x: u16, y: u16, width: u16, height: u16) -> Rect {
    Rect {
        x,
        y,
        width: if width > u16::MAX - x { (u16::MAX - x) as u16 } else { width },
        height: if height > u16::MAX - y { (u16::MAX - y) as u16 } else { height },
    }
}

/// `a - b`, or zero when `b` is larger.
pub open spec fn sat_sub(a: int, b: int) -> int {
    if a > b { a - b } else { 0 }
}

/// The sidebar without its one-column separator, or the empty rectangle
/// when nothing is left.
pub open spec fn sidebar_content(area: Rect) -> Rect {
    let content = rect_new(area.x, area.y, sat_sub(area.width as int, 1) as u16, area.height);
    if content.width == 0 || content.height == 0 { Rect::zero() } else { content }
}

/// The expanded sidebar is a single session list: the list takes the whole
/// content area and the agent detail area is empty.
pub fn expanded_sidebar_sections(area: Rect) -> (sections: (Rect, Rect))
    ensures
        sections.0 == sidebar_content(area),
        sections.1 == Rect::zero(),
{
    let content = Rect::new(area.x, area.y, area.width.saturating_sub(1), area.height);
    if content.width == 0 || content.height == 0 {
        return (Rect::default(), Rect::default());
    }
    (content, Rect::default())
}

/// The list and the detail area are never split, so there is no divider.
pub fn sidebar_section_divider_rect(_area: Rect) -> (r: Rect)
    ensures
        r == Rect::zero(),
{
    Rect::default()
}

/// The collapsed sidebar is a single strip of session rows: no divider and
/// no detail section.
pub fn collapsed_sidebar_sections(area: Rect) -> (sections: (Rect, Option<u16>, Rect))
    ensures
        sections.0 == sidebar_content(area),
        sections.1 is None,
        sections.2 == Rect::zero(),
{
    let content = Rect::new(area.x, area.y, area.width.saturating_sub(1), area.height);
    if content.width == 0 || content.height == 0 {
        return (Rect::default(), None, Rect::default());
    }
    (content, None, Rect::default())
}

/// The list area of the expanded sidebar.
pub fn workspace_list_rect(area: Rect) -> (r: Rect)
    ensures
        r == sidebar_content(area),
{
    let (ws_area, _) = expanded_sidebar_sections(area);
    ws_area
}

/// The toggle of the collapsed sidebar: one cell on the bottom row, in the
/// middle of the content columns.
pub fn collapsed_sidebar_toggle_rect(area: Rect) -> (r: Rect)
    requires
        area.wf(),
    ensures
        r == (if area.width <= 1 || area.height == 0 { Rect::zero() } else {
            rect_new((area.x + (area.width - 1) / 2) as u16, (area.y + area.height - 1) as u16, 1, 1)
        }),
{
    let bottom_y = area.y + area.height.saturating_sub(1);
    let content_w = area.width.saturating_sub(1);
    if content_w == 0 || area.height == 0 {
        return Rect::default();
    }
    let x = area.x + content_w / 2;
    Rect::new(x, bottom_y, 1, 1)
}

/// The toggle of the expanded sidebar: the cell left of the separator on
/// the bottom row.
pub fn expanded_sidebar_toggle_rect(area: Rect) -> (r: Rect)
    requires
        area.wf(),
    ensures
        r == (if area.width <= 1 || area.height == 0 { Rect::zero() } else {
            rect_new((area.x + area.width - 2) as u16, (area.y + area.height - 1) as u16, 1, 1)
        }),
{
    if area.width <= 1 || area.height == 0 {
        return Rect::default();
    }
    Rect::new(area.x + area.width.saturating_sub(2), area.y + area.height.saturating_sub(1), 1, 1)
}

/// The label of the agent panel's sort toggle.
pub open spec fn sort_label(sort: AgentPanelSort) -> Seq<char> {
    match sort {
        AgentPanelSort::Spaces => seq!['g', 'r', 'o', 'u', 'p', 'e', 'd'],
        AgentPanelSort::Priority => seq!['p', 'r', 'i', 'o', 'r', 'i', 't', 'y'],
    }
}

/// The label of the agent panel's sort toggle.
pub fn agent_panel_sort_label(sort: AgentPanelSort) -> (label: &'static str)
    ensures
        label@ == sort_label(sort),
{
    match sort {
        AgentPanelSort::Spaces => {
            proof { reveal_strlit("grouped"); }
            "grouped"
        },
        AgentPanelSort::Priority => {
            proof { reveal_strlit("priority"); }
            "priority"
        },
    }
}

/// The number of terminal columns `s` occupies, as `unicode-width`
/// (through ratatui) measures it.
pub uninterp spec fn display_width(s: Seq<char>) -> nat;

/// Calls ratatui's `Span::width`, the display width of the span's text.
#[verifier::external_body]
fn span_width(s: &str) -> (w: usize)
    ensures
        w == display_width(s@),
{
    ratatui::text::Span::raw(s).width()
}

/// The display width of `s`.
pub fn str_width(s: &str) -> (w: usize)
    ensures
        w == display_width(s@),
{
    span_width(s)
}

/// The display width of `s`, at most `u16::MAX`.
pub fn display_width_u16(s: &str) -> (w: u16)
    ensures
        w == (if display_width(s@) > u16::MAX { u16::MAX as nat } else { display_width(s@) }),
{
    let w = span_width(s);
    if w > 65535 { u16::MAX } else { w as u16 }
}

/// A label right-aligned on the second row of `area`, cut to its width.
pub fn agent_panel_header_label_rect(area: Rect, label: &str) -> (r: Rect)
    requires
        area.wf(),
    ensures
        area.width == 0 || area.height < 2 ==> r == Rect::zero(),
        area.width > 0 && area.height >= 2 ==> {
            let w = if display_width(label@) > area.width { area.width as int } else { display_width(label@) as int };
            r == rect_new((area.x + area.width - w) as u16, (area.y + 1) as u16, w as u16, 1)
        },
{
    if area.width == 0 || area.height < 2 {
        return Rect::default();
    }
    let label_width = display_width_u16(label);
    let width = if label_width < area.width { label_width } else { area.width };
    Rect::new(area.x + area.width.saturating_sub(width), area.y + 1, width, 1)
}

/// Where the agent panel's sort toggle is.
pub fn agent_panel_toggle_rect(area: Rect, sort: AgentPanelSort) -> (r: Rect)
    requires
        area.wf(),
    ensures
        area.width == 0 || area.height < 2 ==> r == Rect::zero(),
        area.width > 0 && area.height >= 2 ==> {
            let w = if display_width(sort_label(sort)) > area.width { area.width as int } else { display_width(sort_label(sort)) as int };
            r == rect_new((area.x + area.width - w) as u16, (area.y + 1) as u16, w as u16, 1)
        },
{
    agent_panel_header_label_rect(area, agent_panel_sort_label(sort))
}

/// The body of the agent panel, below its header rows, less the scrollbar.
pub fn agent_panel_body_rect(area: Rect, has_scrollbar: bool) -> (r: Rect)
    requires
        area.wf(),
    ensures
        area.width == 0 || area.height <= AGENT_PANEL_HEADER_ROWS ==> r == Rect::zero(),
        area.width > 0 && area.height > AGENT_PANEL_HEADER_ROWS ==> r == rect_new(
            area.x,
            (area.y + AGENT_PANEL_HEADER_ROWS) as u16,
            (area.width - if has_scrollbar { 1int } else { 0int }) as u16,
            (area.height - AGENT_PANEL_HEADER_ROWS) as u16,
        ),
{
    if area.width == 0 || area.height <= AGENT_PANEL_HEADER_ROWS {
        return Rect::default();
    }
    let body_y = area.y.saturating_add(AGENT_PANEL_HEADER_ROWS);
    let body_height = (area.y + area.height).saturating_sub(body_y);
    let body_width = area.width.saturating_sub(if has_scrollbar { 1 } else { 0 });
    Rect::new(area.x, body_y, body_width, body_height)
}

/// The session the card and the list treat as focused: the active one, or
/// the selected one when none is active.
pub open spec fn focused_index(app: AppState) -> usize {
    match app.active {
        Some(i) => i,
        None => app.selected,
    }
}

/// Some terminal of the session runs an agent.
pub open spec fn has_agents(ws: Workspace) -> bool {
    exists|i: int| 0 <= i < ws.terminal_agent_names@.len() && ws.terminal_agent_names@[i] is Some
}

/// Height of the focused-session card: nothing when the focused session is
/// missing or settled; otherwise two border rows, the goal row and the
/// branch row, and an agent chips row when the session has agents.
pub open spec fn card_height(app: AppState) -> u16 {
    let f = focused_index(app);
    if f >= app.workspaces@.len() || app.workspaces@[f as int].is_settled_spec() {
        0
    } else if has_agents(app.workspaces@[f as int]) {
        5
    } else {
        4
    }
}

/// Whether some terminal of the session runs an agent.
pub fn session_has_agents(ws: &Workspace) -> (b: bool)
    ensures
        b == has_agents(*ws),
{
    let mut i: usize = 0;
    while i < ws.terminal_agent_names.len()
        invariant
            i <= ws.terminal_agent_names@.len(),
            forall|j: int| 0 <= j < i ==> ws.terminal_agent_names@[j] is None,
        decreases ws.terminal_agent_names@.len() - i,
    {
        if ws.terminal_agent_names[i].is_some() {
            return true;
        }
        i = i + 1;
    }
    false
}

/// Height of the focused-session card.
pub fn focused_card_height(app: &AppState) -> (h: u16)
    ensures
        h == card_height(*app),
{
    let focused = match app.active {
        Some(i) => i,
        None => app.selected,
    };
    if focused >= app.workspaces.len() {
        return 0;
    }
    let ws = &app.workspaces[focused];
    if ws.is_settled() {
        return 0;
    }
    if session_has_agents(ws) { 5 } else { 4 }
}

/// The body of the session list: below the title rows and the focused
/// card, above the footer row, less the scrollbar column.
pub open spec fn list_body(app: AppState, area: Rect, has_scrollbar: bool) -> Rect {
    if area.width == 0 || area.height <= WORKSPACE_SECTION_HEADER_ROWS {
        Rect::zero()
    } else {
        let body_y = if area.y + WORKSPACE_SECTION_HEADER_ROWS + card_height(app) > u16::MAX {
            u16::MAX as int
        } else {
            area.y + WORKSPACE_SECTION_HEADER_ROWS + card_height(app)
        };
        let footer_y = area.y + area.height - 1;
        rect_new(
            area.x,
            body_y as u16,
            sat_sub(area.width as int, if has_scrollbar { 1int } else { 0int }) as u16,
            sat_sub(footer_y, body_y) as u16,
        )
    }
}

/// The body of the session list.
pub fn workspace_list_body_rect(app: &AppState, area: Rect, has_scrollbar: bool) -> (r: Rect)
    requires
        area.wf(),
    ensures
        r == list_body(*app, area, has_scrollbar),
        r.wf(),
        r.height < u16::MAX,
        r.height > 0 ==> r.y + r.height < u16::MAX,
{
    if area.width == 0 || area.height <= WORKSPACE_SECTION_HEADER_ROWS {
        return Rect::default();
    }
    let body_y = area.y.saturating_add(WORKSPACE_SECTION_HEADER_ROWS).saturating_add(focused_card_height(app));
    let footer_y = area.y + area.height.saturating_sub(1);
    let body_height = footer_y.saturating_sub(body_y);
    let body_width = area.width.saturating_sub(if has_scrollbar { 1 } else { 0 });
    Rect::new(area.x, body_y, body_width, body_height)
}

/// Height of a session row in a body `body_height` rows tall.
pub open spec fn row_height(body_height: u16) -> u16 {
    if SESSION_ROW_HEIGHT < body_height { SESSION_ROW_HEIGHT } else { body_height }
}

/// Height of a session row: two rows, cut to the body.
pub fn workspace_row_height_in_body(_app: &AppState, _workspace: &Workspace, _indented: bool, body_height: u16) -> (h: u16)
    ensures
        h == row_height(body_height),
{
    if SESSION_ROW_HEIGHT < body_height { SESSION_ROW_HEIGHT } else { body_height }
}

/// Blank rows after entry `idx`: the configured gap, except after the last
/// entry and before an indented session row.
pub open spec fn entry_gap(app: AppState, entries: Seq<WorkspaceListEntry>, idx: int) -> u16 {
    if idx + 1 < entries.len() && !(entries[idx + 1] matches WorkspaceListEntry::Workspace { indented: true, .. }) {
        app.sidebar_spaces.row_gap
    } else {
        0
    }
}

/// Blank rows after entry `entry_idx` of the session list.
pub fn workspace_entry_gap(app: &AppState, entries: &Vec<WorkspaceListEntry>, entry_idx: usize) -> (gap: u16)
    ensures
        gap == entry_gap(*app, entries@, entry_idx as int),
{
    if entries.len() > 0 && entry_idx < entries.len() - 1
        && !crate::entries::next_entry_is_indented_workspace(entries, entry_idx) {
        app.sidebar_spaces.row_gap
    } else {
        0
    }
}

/// Height and following gap of entry `idx`: a session row is two rows cut
/// to the body (nothing for an unknown session); the settled header and
/// the "show more" row are one row with no gap.
pub open spec fn entry_dims(app: AppState, entries: Seq<WorkspaceListEntry>, idx: int, body_height: u16) -> (u16, u16) {
    match entries[idx] {
        WorkspaceListEntry::Workspace { ws_idx, .. } => {
            if ws_idx < app.workspaces@.len() {
                (row_height(body_height), entry_gap(app, entries, idx))
            } else {
                (0, 0)
            }
        },
        _ => (1, 0),
    }
}

/// Height and following gap of entry `entry_idx`.
pub fn entry_height_and_gap(app: &AppState, entries: &Vec<WorkspaceListEntry>, entry_idx: usize, body: Rect) -> (dims: (u16, u16))
    requires
        entry_idx < entries@.len(),
    ensures
        dims == entry_dims(*app, entries@, entry_idx as int, body.height),
{
    match &entries[entry_idx] {
        WorkspaceListEntry::Workspace { ws_idx, indented } => {
            if *ws_idx >= app.workspaces.len() {
                return (0, 0);
            }
            let ws = &app.workspaces[*ws_idx];
            (
                workspace_row_height_in_body(app, ws, *indented, body.height),
                workspace_entry_gap(app, entries, entry_idx),
            )
        },
        WorkspaceListEntry::SettledHeader | WorkspaceListEntry::SettledShowMore => (1, 0),
    }
}

/// The status key of an agent state: an idle agent whose work has not been
/// seen is `done`.
pub open spec fn status_key(state: AgentState, seen: bool) -> Seq<char> {
    match state {
        AgentState::Idle => if seen { seq!['i', 'd', 'l', 'e'] } else { seq!['d', 'o', 'n', 'e'] },
        AgentState::Working => seq!['w', 'o', 'r', 'k', 'i', 'n', 'g'],
        AgentState::Blocked => seq!['b', 'l', 'o', 'c', 'k', 'e', 'd'],
        AgentState::Unknown => seq!['u', 'n', 'k', 'n', 'o', 'w', 'n'],
    }
}

/// The status key of an agent state, which custom state labels are keyed by.
pub fn agent_panel_status_key(state: AgentState, seen: bool) -> (key: &'static str)
    ensures
        key@ == status_key(state, seen),
{
    match state {
        AgentState::Idle => if seen {
            proof { reveal_strlit("idle"); }
            "idle"
        } else {
            proof { reveal_strlit("done"); }
            "done"
        },
        AgentState::Working => {
            proof { reveal_strlit("working"); }
            "working"
        },
        AgentState::Blocked => {
            proof { reveal_strlit("blocked"); }
            "blocked"
        },
        AgentState::Unknown => {
            proof { reveal_strlit("unknown"); }
            "unknown"
        },
    }
}

/// Blank rows after agent entry `entry_idx` of `entry_count`: the agent
/// gap, except after the last entry.
pub fn agent_entry_gap(app: &AppState, entry_idx: usize, entry_count: usize) -> (gap: u16)
    ensures
        gap == (if entry_idx + 1 < entry_count { app.agent_row_gap } else { 0 }),
{
    if entry_count > 0 && entry_idx < entry_count - 1 {
        app.agent_row_gap
    } else {
        0
    }
}


/// A non-empty list body ends above the last row of the coordinate space.
pub proof fn lemma_list_body_bounds(app: AppState, area: Rect, has_scrollbar: bool)
    requires
        area.wf(),
    ensures
        list_body(app, area, has_scrollbar).wf(),
        list_body(app, area, has_scrollbar).height > 0 ==>
            list_body(app, area, has_scrollbar).y + list_body(app, area, has_scrollbar).height < u16::MAX,
{
}

/// A session has agents exactly when some terminal of it, whichever it is,
/// runs one.
pub proof fn law_any_terminal_agent_counts(ws: Workspace, i: int)
    ensures
        0 <= i < ws.terminal_agent_names@.len() && ws.terminal_agent_names@[i] is Some ==> has_agents(ws),
        (forall|j: int| 0 <= j < ws.terminal_agent_names@.len() ==> ws.terminal_agent_names@[j] is None) ==> !has_agents(ws),
{
}

/// The focused card of an active session is five rows tall when any of the
/// session's terminals runs an agent (the chips row), and four rows when
/// none does.
pub proof fn law_card_has_chips_row_for_agents(app: AppState, i: int)
    requires
        focused_index(app) < app.workspaces@.len(),
        !app.workspaces@[focused_index(app) as int].is_settled_spec(),
    ensures
        ({
            let names = app.workspaces@[focused_index(app) as int].terminal_agent_names@;
            &&& 0 <= i < names.len() && names[i] is Some ==> card_height(app) == 5
            &&& (forall|j: int| 0 <= j < names.len() ==> names[j] is None) ==> card_height(app) == 4
        }),
{
    law_any_terminal_agent_counts(app.workspaces@[focused_index(app) as int], i);
}

} // verus!
