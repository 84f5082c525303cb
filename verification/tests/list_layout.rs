use sessionr_sidebar::drop::{workspace_drop_indicator_row, workspace_drop_slots, WorkspaceDropTarget};
use sessionr_sidebar::entries::{workspace_list_entries, workspace_list_entries_expanded, WorkspaceListEntry};
use sessionr_sidebar::geometry::Rect;
use sessionr_sidebar::layout::{
    agent_panel_body_rect, agent_panel_status_key, agent_panel_toggle_rect, collapsed_sidebar_sections,
    collapsed_sidebar_toggle_rect, display_width_u16, focused_card_height, sidebar_section_divider_rect,
    workspace_entry_gap, workspace_list_body_rect, workspace_list_rect, workspace_row_height_in_body,
};
use sessionr_sidebar::model::{AgentPanelSort, AgentState, AppState, Workspace};
use sessionr_sidebar::scroll::{
    compute_workspace_card_areas, compute_workspace_list_areas, normalized_workspace_scroll, settled_show_more_rect,
    should_show_scrollbar, workspace_group_chevron_rect, workspace_list_bottom_start, workspace_list_scroll_metrics,
    workspace_list_scrollbar_rect, workspace_list_visible_count, ScrollMetrics, WorkspaceCardArea,
};

fn app_of(specs: &[(&str, Option<i64>, Option<i64>)]) -> AppState {
    let workspaces = specs
        .iter()
        .map(|(name, activity, settled)| {
            let mut ws = Workspace::new(name.to_string());
            ws.last_activity = *activity;
            ws.settled = *settled;
            ws
        })
        .collect();
    AppState::new(workspaces)
}

fn ws_rows(entries: &[WorkspaceListEntry]) -> Vec<usize> {
    entries
        .iter()
        .filter_map(|entry| match entry {
            WorkspaceListEntry::Workspace { ws_idx, .. } => Some(*ws_idx),
            _ => None,
        })
        .collect()
}

#[test]
fn rect_new_clamps_to_the_coordinate_space() {
    let r = Rect::new(65_530, 65_000, 10, 1_000);
    assert_eq!((r.x, r.y, r.width, r.height), (65_530, 65_000, 5, 535));
    let r = Rect::new(3, 4, 10, 2);
    assert_eq!((r.x, r.y, r.width, r.height), (3, 4, 10, 2));
}

#[test]
fn equal_activity_keeps_session_order_and_missing_stamps_sort_last() {
    let state = app_of(&[("a", Some(5), None), ("b", None, None), ("c", Some(5), None), ("d", Some(9), None)]);
    assert_eq!(ws_rows(&workspace_list_entries(&state)), vec![3, 0, 2, 1]);
}

#[test]
fn settled_ties_break_by_activity_then_position() {
    let mut state = app_of(&[
        ("s1", Some(10), Some(50)),
        ("s2", Some(20), Some(50)),
        ("s3", Some(20), Some(50)),
        ("active", None, None),
    ]);
    state.settled_expanded = true;
    let entries = workspace_list_entries(&state);
    assert_eq!(
        entries,
        vec![
            WorkspaceListEntry::Workspace { ws_idx: 3, indented: false },
            WorkspaceListEntry::SettledHeader,
            WorkspaceListEntry::Workspace { ws_idx: 1, indented: false },
            WorkspaceListEntry::Workspace { ws_idx: 2, indented: false },
            WorkspaceListEntry::Workspace { ws_idx: 0, indented: false },
        ]
    );
    assert_eq!(workspace_list_entries_expanded(&state), entries);
}

#[test]
fn no_settled_sessions_means_no_header() {
    let state = app_of(&[("a", Some(1), None), ("b", Some(2), None)]);
    let entries = workspace_list_entries(&state);
    assert!(!entries.contains(&WorkspaceListEntry::SettledHeader));
    assert_eq!(entries.len(), 2);
    let empty = app_of(&[]);
    assert!(workspace_list_entries(&empty).is_empty());
}

#[test]
fn collapsed_sidebar_has_no_divider_or_detail() {
    let (content, divider, detail) = collapsed_sidebar_sections(Rect::new(2, 3, 8, 10));
    assert_eq!(content, Rect::new(2, 3, 7, 10));
    assert_eq!(divider, None);
    assert_eq!(detail, Rect::default());
    let (content, _, _) = collapsed_sidebar_sections(Rect::new(2, 3, 1, 10));
    assert_eq!(content, Rect::default());
    assert_eq!(sidebar_section_divider_rect(Rect::new(0, 0, 20, 20)), Rect::default());
    assert_eq!(workspace_list_rect(Rect::new(0, 0, 30, 12)), Rect::new(0, 0, 29, 12));
}

#[test]
fn collapsed_toggle_sits_mid_bottom() {
    assert_eq!(collapsed_sidebar_toggle_rect(Rect::new(0, 0, 8, 10)), Rect::new(3, 9, 1, 1));
    assert_eq!(collapsed_sidebar_toggle_rect(Rect::new(0, 0, 1, 10)), Rect::default());
}

#[test]
fn agent_panel_toggle_is_right_aligned_on_second_row() {
    let area = Rect::new(0, 0, 20, 5);
    assert_eq!(agent_panel_toggle_rect(area, AgentPanelSort::Spaces), Rect::new(13, 1, 7, 1));
    assert_eq!(agent_panel_toggle_rect(area, AgentPanelSort::Priority), Rect::new(12, 1, 8, 1));
    assert_eq!(agent_panel_toggle_rect(Rect::new(0, 0, 5, 5), AgentPanelSort::Priority), Rect::new(0, 1, 5, 1));
    assert_eq!(agent_panel_toggle_rect(Rect::new(0, 0, 20, 1), AgentPanelSort::Spaces), Rect::default());
    assert_eq!(display_width_u16("⎇ main"), 6);
    assert_eq!(display_width_u16("日本"), 4);
}

#[test]
fn agent_panel_body_sits_below_header() {
    assert_eq!(agent_panel_body_rect(Rect::new(0, 10, 20, 8), true), Rect::new(0, 13, 19, 5));
    assert_eq!(agent_panel_body_rect(Rect::new(0, 10, 20, 3), false), Rect::default());
}

#[test]
fn status_keys_distinguish_unseen_idle() {
    assert_eq!(agent_panel_status_key(AgentState::Idle, false), "done");
    assert_eq!(agent_panel_status_key(AgentState::Idle, true), "idle");
    assert_eq!(agent_panel_status_key(AgentState::Working, false), "working");
    assert_eq!(agent_panel_status_key(AgentState::Blocked, true), "blocked");
    assert_eq!(agent_panel_status_key(AgentState::Unknown, true), "unknown");
}

#[test]
fn card_height_depends_on_focus_and_agents() {
    let mut state = app_of(&[("a", Some(1), None), ("b", Some(2), Some(3))]);
    assert_eq!(focused_card_height(&state), 4);
    state.workspaces[1].terminal_agent_names = vec![None, Some("helper".to_string())];
    assert_eq!(focused_card_height(&state), 4);
    state.workspaces[0].terminal_agent_names = vec![None, Some("helper".to_string())];
    assert_eq!(focused_card_height(&state), 5);
    state.active = Some(1);
    assert_eq!(focused_card_height(&state), 0);
    state.active = None;
    state.selected = 7;
    assert_eq!(focused_card_height(&state), 0);
}

#[test]
fn gaps_and_row_heights() {
    let mut state = app_of(&[("a", Some(1), None), ("b", Some(2), None)]);
    state.sidebar_spaces.row_gap = 1;
    let ws = Workspace::new("x".to_string());
    assert_eq!(workspace_row_height_in_body(&state, &ws, false, 1), 1);
    assert_eq!(workspace_row_height_in_body(&state, &ws, false, 9), 2);
    let entries = vec![
        WorkspaceListEntry::Workspace { ws_idx: 0, indented: false },
        WorkspaceListEntry::Workspace { ws_idx: 1, indented: true },
        WorkspaceListEntry::SettledHeader,
    ];
    assert_eq!(workspace_entry_gap(&state, &entries, 0), 0);
    assert_eq!(workspace_entry_gap(&state, &entries, 1), 1);
    assert_eq!(workspace_entry_gap(&state, &entries, 2), 0);
}

fn three_active() -> AppState {
    app_of(&[("a", Some(300), None), ("b", Some(200), None), ("c", Some(100), None)])
}

#[test]
fn list_body_sits_below_title_and_card() {
    let state = three_active();
    assert_eq!(workspace_list_body_rect(&state, Rect::new(0, 0, 29, 12), false), Rect::new(0, 6, 29, 5));
    assert_eq!(workspace_list_body_rect(&state, Rect::new(0, 0, 29, 12), true), Rect::new(0, 6, 28, 5));
    assert_eq!(workspace_list_body_rect(&state, Rect::new(0, 0, 29, 2), false), Rect::default());
}

#[test]
fn scroll_metrics_count_fitting_rows() {
    let state = three_active();
    let ws_area = Rect::new(0, 0, 29, 12);
    assert_eq!(workspace_list_visible_count(&state, ws_area, 0), 2);
    assert_eq!(workspace_list_visible_count(&state, ws_area, 2), 1);
    assert_eq!(workspace_list_bottom_start(&state, ws_area), 1);
    assert_eq!(
        workspace_list_scroll_metrics(&state, ws_area),
        ScrollMetrics { offset_from_bottom: 1, max_offset_from_bottom: 1, viewport_rows: 2 }
    );
    assert!(should_show_scrollbar(workspace_list_scroll_metrics(&state, ws_area)));
    assert!(!should_show_scrollbar(ScrollMetrics { offset_from_bottom: 0, max_offset_from_bottom: 0, viewport_rows: 3 }));
    assert_eq!(workspace_list_scrollbar_rect(&state, ws_area), Some(Rect::new(28, 6, 1, 5)));
    assert_eq!(normalized_workspace_scroll(&state, Rect::new(0, 0, 30, 12), 5), 1);
    assert_eq!(normalized_workspace_scroll(&state, Rect::new(0, 0, 30, 12), 0), 0);
}

#[test]
fn card_areas_stack_inside_the_body() {
    let state = three_active();
    let area = Rect::new(0, 0, 30, 12);
    let (cards, headers) = compute_workspace_list_areas(&state, area);
    assert!(headers.is_empty());
    assert_eq!(
        cards,
        vec![
            WorkspaceCardArea { ws_idx: 0, rect: Rect::new(0, 6, 28, 2), indented: false },
            WorkspaceCardArea { ws_idx: 1, rect: Rect::new(0, 8, 28, 2), indented: false },
        ]
    );
    assert_eq!(compute_workspace_card_areas(&state, area), cards);
    assert_eq!(workspace_group_chevron_rect(&cards[1]), Rect::new(27, 8, 1, 1));
}

#[test]
fn drop_slots_sit_between_visible_blocks() {
    let state = three_active();
    let area = Rect::new(0, 0, 29, 12);
    let cards = compute_workspace_card_areas(&state, Rect::new(0, 0, 30, 12));
    let slots = workspace_drop_slots(&state, &cards, area);
    assert_eq!(
        slots,
        vec![
            (WorkspaceDropTarget::Before(0), 5),
            (WorkspaceDropTarget::Before(1), 7),
            (WorkspaceDropTarget::Before(2), 10),
        ]
    );
    assert_eq!(workspace_drop_indicator_row(&state, &cards, area, WorkspaceDropTarget::Before(1)), Some(7));
    assert_eq!(workspace_drop_indicator_row(&state, &cards, area, WorkspaceDropTarget::End), None);
    assert!(workspace_drop_slots(&state, &Vec::new(), area).is_empty());
}

#[test]
fn drop_after_last_session_targets_end() {
    let state = app_of(&[("a", Some(2), None), ("b", Some(1), None)]);
    let cards = compute_workspace_card_areas(&state, Rect::new(0, 0, 30, 20));
    let slots = workspace_drop_slots(&state, &cards, Rect::new(0, 0, 29, 20));
    assert_eq!(
        slots,
        vec![
            (WorkspaceDropTarget::Before(0), 5),
            (WorkspaceDropTarget::Before(1), 7),
            (WorkspaceDropTarget::End, 10),
        ]
    );
}

#[test]
fn show_more_target_follows_the_settled_preview() {
    let state = app_of(&[
        ("active", Some(100), None),
        ("s1", Some(10), Some(50)),
        ("s2", Some(10), Some(40)),
        ("s3", Some(10), Some(30)),
        ("s4", Some(10), Some(20)),
        ("s5", Some(10), Some(10)),
    ]);
    assert_eq!(settled_show_more_rect(&state, Rect::new(0, 0, 30, 40)), Some(Rect::new(0, 15, 30, 1)));
    let mut expanded = state;
    expanded.settled_expanded = true;
    assert_eq!(settled_show_more_rect(&expanded, Rect::new(0, 0, 30, 40)), None);
}

use sessionr_sidebar::agent_scroll::{
    agent_entry_height_in_body, agent_panel_bottom_start, agent_panel_scroll_for_target, agent_panel_scroll_metrics,
    agent_panel_scrollbar_rect, agent_panel_visible_count_from,
};

#[test]
fn agent_entries_take_their_token_rows() {
    assert_eq!(agent_entry_height_in_body(0, 5), 1);
    assert_eq!(agent_entry_height_in_body(3, 5), 3);
    assert_eq!(agent_entry_height_in_body(7, 5), 5);
    assert_eq!(agent_entry_height_in_body(70_000, u16::MAX), u16::MAX);
}

#[test]
fn agent_panel_scrolls_to_reveal_targets() {
    let state = app_of(&[("a", Some(1), None)]);
    let rows = vec![1, 2, 1, 3];
    let area = Rect::new(0, 0, 20, 8);
    assert_eq!(agent_panel_visible_count_from(&state, &rows, area, 0), 3);
    assert_eq!(agent_panel_visible_count_from(&state, &rows, area, 1), 2);
    assert_eq!(agent_panel_bottom_start(&state, &rows, area), 2);
    assert_eq!(agent_panel_scroll_for_target(&state, &rows, area, 0, 3), 2);
    assert_eq!(agent_panel_scroll_for_target(&state, &rows, area, 3, 1), 1);
    assert_eq!(agent_panel_scroll_for_target(&state, &rows, area, 0, 1), 0);
    assert_eq!(
        agent_panel_scroll_metrics(&state, &rows, area),
        ScrollMetrics { offset_from_bottom: 2, max_offset_from_bottom: 2, viewport_rows: 3 }
    );
    assert_eq!(agent_panel_scrollbar_rect(&state, &rows, area), Some(Rect::new(19, 3, 1, 5)));
    let mut gapped = app_of(&[("a", Some(1), None)]);
    gapped.agent_row_gap = 1;
    assert_eq!(agent_panel_visible_count_from(&gapped, &vec![1, 1], area, 0), 2);
    assert_eq!(agent_panel_visible_count_from(&gapped, &vec![2, 2, 1], area, 0), 2);
    assert_eq!(agent_panel_scrollbar_rect(&state, &vec![1], area), None);
}

use sessionr_sidebar::scroll::visible_rows;

#[test]
fn visible_rows_walk_the_drawn_entries() {
    let state = three_active();
    let ws_area = Rect::new(0, 0, 29, 12);
    assert_eq!(visible_rows(&state, ws_area), vec![(0, 6), (1, 8)]);
    let mut scrolled = three_active();
    scrolled.workspace_scroll = 9;
    assert_eq!(visible_rows(&scrolled, ws_area), vec![(1, 6), (2, 8)]);
    let settled = app_of(&[
        ("active", Some(100), None),
        ("s1", Some(10), Some(50)),
        ("s2", Some(10), Some(40)),
        ("s3", Some(10), Some(30)),
        ("s4", Some(10), Some(20)),
        ("s5", Some(10), Some(10)),
    ]);
    let rows = visible_rows(&settled, Rect::new(0, 0, 30, 40));
    assert_eq!(rows, vec![(0, 6), (1, 8), (2, 9), (3, 11), (4, 13), (5, 15)]);
    assert_eq!(settled_show_more_rect(&settled, Rect::new(0, 0, 30, 40)), Some(Rect::new(0, 15, 30, 1)));
}
