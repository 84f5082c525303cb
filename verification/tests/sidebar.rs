use sessionr_sidebar::age::relative_time;
use sessionr_sidebar::entries::{workspace_list_entries, WorkspaceListEntry};
use sessionr_sidebar::geometry::Rect;
use sessionr_sidebar::layout::{expanded_sidebar_sections, expanded_sidebar_toggle_rect};
use sessionr_sidebar::model::{AppState, Workspace};

fn session_app(specs: &[(&str, Option<i64>, Option<i64>)]) -> AppState {
    // (name, last_activity, settled)
    let workspaces = specs
        .iter()
        .map(|(name, activity, settled)| {
            let mut ws = Workspace::new(name.to_string());
            ws.last_activity = *activity;
            ws.settled = *settled;
            ws
        })
        .collect();
    let mut state = AppState::new(workspaces);
    state.active = Some(0);
    state.selected = 0;
    state
}

#[test]
fn relative_time_buckets_cover_reference_styles() {
    let now = 1_000_000;
    assert_eq!(relative_time(now, now), "now");
    assert_eq!(relative_time(now, now - 59), "now");
    assert_eq!(relative_time(now, now - 60), "1m");
    assert_eq!(relative_time(now, now - 3_540), "59m");
    assert_eq!(relative_time(now, now - 3_600), "1h");
    assert_eq!(relative_time(now, now - 82_800), "23h");
    assert_eq!(relative_time(now, now - 86_400), "1d");
    assert_eq!(relative_time(now, now - 604_800), "1w");
    assert_eq!(relative_time(now, now - 2_678_400), "1mo");
}

#[test]
fn session_entries_sort_active_by_recency_desc() {
    let state = session_app(&[
        ("older", Some(100), None),
        ("newest", Some(300), None),
        ("middle", Some(200), None),
    ]);
    let entries = workspace_list_entries(&state);
    let ws_indices: Vec<usize> = entries
        .iter()
        .filter_map(|entry| match entry {
            WorkspaceListEntry::Workspace { ws_idx, .. } => Some(*ws_idx),
            _ => None,
        })
        .collect();
    assert_eq!(ws_indices, vec![1, 2, 0]);
}

#[test]
fn settled_sessions_trail_header_and_collapse_to_show_more() {
    let state = session_app(&[
        ("active", Some(100), None),
        ("s1", Some(10), Some(50)),
        ("s2", Some(10), Some(40)),
        ("s3", Some(10), Some(30)),
        ("s4", Some(10), Some(20)),
        ("s5", Some(10), Some(10)),
    ]);
    // Default settled_preview collapses to 3 preview rows.
    assert_eq!(state.sidebar_spaces.settled_preview, 3);
    let entries = workspace_list_entries(&state);
    assert_eq!(entries[0], WorkspaceListEntry::Workspace { ws_idx: 0, indented: false });
    assert_eq!(entries[1], WorkspaceListEntry::SettledHeader);
    assert_eq!(entries[2], WorkspaceListEntry::Workspace { ws_idx: 1, indented: false });
    assert_eq!(entries[3], WorkspaceListEntry::Workspace { ws_idx: 2, indented: false });
    assert_eq!(entries[4], WorkspaceListEntry::Workspace { ws_idx: 3, indented: false });
    assert_eq!(entries[5], WorkspaceListEntry::SettledShowMore);
    assert_eq!(entries.len(), 6);

    let mut expanded = state;
    expanded.settled_expanded = true;
    let entries = workspace_list_entries(&expanded);
    assert!(!entries.contains(&WorkspaceListEntry::SettledShowMore));
    assert_eq!(
        entries
            .iter()
            .filter(|entry| matches!(entry, WorkspaceListEntry::Workspace { .. }))
            .count(),
        6
    );
    assert_eq!(entries.len(), 7);
}

#[test]
fn settled_preview_is_read_from_config() {
    let mut state = session_app(&[
        ("active", Some(100), None),
        ("s1", Some(10), Some(50)),
        ("s2", Some(10), Some(40)),
        ("s3", Some(10), Some(30)),
        ("s4", Some(10), Some(20)),
        ("s5", Some(10), Some(10)),
    ]);
    state.sidebar_spaces.settled_preview = 2;

    let entries = workspace_list_entries(&state);
    assert_eq!(entries[0], WorkspaceListEntry::Workspace { ws_idx: 0, indented: false });
    assert_eq!(entries[1], WorkspaceListEntry::SettledHeader);
    assert_eq!(entries[2], WorkspaceListEntry::Workspace { ws_idx: 1, indented: false });
    assert_eq!(entries[3], WorkspaceListEntry::Workspace { ws_idx: 2, indented: false });
    assert_eq!(entries[4], WorkspaceListEntry::SettledShowMore);
    assert_eq!(entries.len(), 5);

    // A preview at least as large as the settled count never collapses.
    state.sidebar_spaces.settled_preview = 10;
    let entries = workspace_list_entries(&state);
    assert!(!entries.contains(&WorkspaceListEntry::SettledShowMore));
    assert_eq!(
        entries
            .iter()
            .filter(|entry| matches!(entry, WorkspaceListEntry::Workspace { .. }))
            .count(),
        6
    );
}

#[test]
fn expanded_sidebar_sections_return_full_content_without_detail_area() {
    let (ws_area, detail_area) = expanded_sidebar_sections(Rect::new(0, 0, 20, 5));
    assert_eq!(ws_area, Rect::new(0, 0, 19, 5));
    assert_eq!(detail_area, Rect::default());
}

#[test]
fn expanded_sidebar_toggle_sits_inside_sidebar_content() {
    let area = Rect::new(0, 0, 26, 20);
    let toggle = expanded_sidebar_toggle_rect(area);

    assert_eq!(toggle.x, area.x + area.width - 2);
    assert_eq!(toggle.y, area.y + area.height - 1);
}
