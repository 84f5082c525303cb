use sessionr_sidebar::age::{now_unix_secs, relative_time, session_row_age, session_row_age_at};
use sessionr_sidebar::agents::{all_agent_panel_entries, collect_agent_panel_entries_with_runtimes, AgentPanelEntry};
use sessionr_sidebar::groups::{grouped_child_display_label, workspace_parent_group_state};
use sessionr_sidebar::layout::{agent_entry_gap, agent_panel_sort_label};
use sessionr_sidebar::model::{AgentPanelSort, AgentState, AppState, PaneDetail, Workspace, WorktreeSpace};
use sessionr_sidebar::rows::{
    collapsed_row_view, focused_card_chips, focused_card_view, session_row_view, settled_show_more_label,
    sidebar_toggle_view, visible_workspace_order, RowBackground, RowMark, Tone,
};
use sessionr_sidebar::session::{run_session_command, session_help_lines, worktree_goal_request, SessionCommand};

fn ws(name: &str, activity: Option<i64>, settled: Option<i64>) -> Workspace {
    let mut ws = Workspace::new(name.to_string());
    ws.last_activity = activity;
    ws.settled = settled;
    ws
}

#[test]
fn relative_time_reads_larger_units_and_future() {
    assert_eq!(relative_time(100, 200), "now");
    assert_eq!(relative_time(10_000_000, 10_000_000 - 7 * 86_400), "1w");
    assert_eq!(relative_time(10_000_000, 10_000_000 - 6 * 86_400), "6d");
    assert_eq!(relative_time(100_000_000, 100_000_000 - 4 * 2_678_400 - 5), "4mo");
    assert_eq!(relative_time(100_000_000, 100_000_000 - 123 * 2_678_400), "123mo");
}

#[test]
fn row_age_prefers_the_settled_stamp() {
    let w = ws("x", Some(100), Some(1_000));
    assert_eq!(session_row_age_at(&w, 1_000 + 3 * 3_600), Some("3h".to_string()));
    let w = ws("x", Some(100), None);
    assert_eq!(session_row_age_at(&w, 220), Some("2m".to_string()));
    assert_eq!(session_row_age_at(&ws("x", None, None), 220), None);
    let now = now_unix_secs();
    assert!(now > 1_600_000_000);
    assert_eq!(session_row_age(&ws("x", Some(now - 120), None)).as_deref(), Some("2m"));
}

fn row_app() -> AppState {
    let mut w = ws("repo-work", Some(1_000 - 120), None);
    w.goal = Some("fix billing bug".to_string());
    w.branch = Some("main".to_string());
    let mut state = AppState::new(vec![w, ws("done-thing", Some(10), Some(995))]);
    state.active = None;
    state.selected = 0;
    state
}

#[test]
fn session_row_shows_goal_age_branch_and_repo() {
    let state = row_app();
    let view = session_row_view(&state, 0, false, 1_000);
    assert_eq!(view.title, "fix billing bug");
    assert_eq!(view.age, "2m");
    assert_eq!(view.branch_text, "⎇ main");
    assert_eq!(view.repo.as_deref(), Some("repo-work"));
    assert_eq!(view.mark, RowMark::NoAgents);
    assert_eq!(view.background, RowBackground::Plain);
    assert_eq!(view.title_tone, Tone::Normal);
    assert!(!view.dim);
    let view = session_row_view(&state, 0, true, 1_000);
    assert_eq!(view.background, RowBackground::Selection);
    assert_eq!(view.title_tone, Tone::Bright);
}

#[test]
fn settled_row_is_dim_with_dot() {
    let state = row_app();
    let view = session_row_view(&state, 1, false, 1_000);
    assert_eq!(view.mark, RowMark::Settled);
    assert!(view.dim);
    assert_eq!(view.title_tone, Tone::Dim);
    assert_eq!(view.title, "done-thing");
    assert_eq!(view.age, "now");
    assert_eq!(view.branch_text, "⎇ main");
    assert_eq!(view.repo, None);
}

#[test]
fn repo_uses_worktree_label_unless_it_is_the_branch() {
    let mut w = ws("name", Some(1), None);
    w.branch = Some("herdr".to_string());
    w.worktree_space = Some(WorktreeSpace { key: "k".to_string(), label: "herdr".to_string(), is_linked_worktree: false });
    let state = AppState::new(vec![w]);
    let view = session_row_view(&state, 0, false, 1);
    assert_eq!(view.repo, None);
    assert_eq!(view.background, RowBackground::Active);
}

#[test]
fn focused_card_shows_goal_and_branch() {
    let mut w = ws("cardy", Some(5), None);
    w.goal = Some("refund idempotency".to_string());
    w.branch = Some("worktree/fix-refunds".to_string());
    let mut state = AppState::new(vec![w, ws("other", None, None)]);
    state.workspaces[0].terminal_agent_names = vec![Some("helper".to_string())];
    let card = focused_card_view(&state).expect("card");
    assert_eq!(card.ws_idx, 0);
    assert_eq!(card.height, 5);
    assert_eq!(card.title, "refund idempotency");
    assert_eq!(card.branch_text, "⎇ worktree/fix-refunds");
    state.active = Some(1);
    let card = focused_card_view(&state).expect("card");
    assert_eq!(card.title, "other");
    assert_eq!(card.branch_text, "⎇ no branch");
    state.workspaces[1].settled = Some(3);
    assert!(focused_card_view(&state).is_none());
}

fn pane(tab_idx: usize, pane_id: u64, agent: &str, kind: Option<&str>, state: AgentState) -> PaneDetail {
    PaneDetail {
        tab_idx,
        pane_id,
        tab_label: format!("tab{tab_idx}"),
        pane_label: None,
        terminal_title: Some("title".to_string()),
        terminal_title_stripped: None,
        agent_label: agent.to_string(),
        agent_kind_label: kind.map(str::to_string),
        agent: kind.map(|k| format!("{k}-agent")),
        state,
        seen: true,
        last_agent_state_change_seq: Some(pane_id),
        state_labels: vec![("done".to_string(), "finished".to_string())],
        tokens: Vec::new(),
    }
}

fn agents_app() -> AppState {
    let mut a = ws("alpha", Some(2), None);
    a.panes = vec![
        pane(0, 1, "critic", Some("kindling"), AgentState::Working),
        pane(0, 2, "shell", None, AgentState::Idle),
    ];
    let mut b = ws("beta", Some(1), None);
    b.tab_auto_named = vec![true, false];
    b.panes = vec![pane(1, 3, "helper", Some("helper"), AgentState::Blocked)];
    AppState::new(vec![a, b])
}

#[test]
fn agent_entries_list_every_pane_in_session_order() {
    let state = agents_app();
    let entries: Vec<AgentPanelEntry> = collect_agent_panel_entries_with_runtimes(&state);
    assert_eq!(entries.len(), 3);
    assert_eq!(entries.iter().map(|e| e.pane_id).collect::<Vec<_>>(), vec![1, 2, 3]);
    assert_eq!(entries[0].primary_label, "alpha");
    assert_eq!(entries[0].primary_tab_label, None);
    assert_eq!(entries[0].agent_label.as_deref(), Some("critic"));
    assert_eq!(entries[2].ws_idx, 1);
    assert_eq!(entries[2].primary_label, "beta");
    assert_eq!(entries[2].primary_tab_label.as_deref(), Some("tab1"));
    assert_eq!(entries[2].state, AgentState::Blocked);
    assert_eq!(entries[0].agent.as_deref(), Some("kindling-agent"));
    assert_eq!(entries[1].agent, None);
    assert_eq!(entries[2].agent.as_deref(), Some("helper-agent"));
    assert_eq!(entries[1].state_labels, vec![("done".to_string(), "finished".to_string())]);
    assert_eq!(all_agent_panel_entries(&state).len(), 3);
    assert_eq!(agent_entry_gap(&state, 0, 3), 0);
    let mut gapped = agents_app();
    gapped.agent_row_gap = 2;
    assert_eq!(agent_entry_gap(&gapped, 1, 3), 2);
    assert_eq!(agent_entry_gap(&gapped, 2, 3), 0);
}

#[test]
fn chips_take_the_first_three_agents_of_the_focused_session() {
    let mut state = agents_app();
    state.workspaces[0].panes.push(pane(0, 4, "third", None, AgentState::Idle));
    state.workspaces[0].panes.push(pane(0, 5, "fourth", None, AgentState::Idle));
    let entries = collect_agent_panel_entries_with_runtimes(&state);
    let chips = focused_card_chips(&entries, 0);
    assert_eq!(chips.iter().map(|c| c.kind.as_str()).collect::<Vec<_>>(), vec!["kindling", "shell", "third"]);
    assert_eq!(chips[0].state, AgentState::Working);
    let chips = focused_card_chips(&entries, 1);
    assert_eq!(chips.len(), 1);
    assert_eq!(chips[0].kind, "helper");
    assert!(focused_card_chips(&entries, 9).is_empty());
}

#[test]
fn collapsed_rows_number_in_display_order() {
    let mut state = AppState::new(vec![ws("oldest", Some(10), None), ws("newest", Some(300), None), ws("settled-one", Some(5), Some(100))]);
    state.active = None;
    assert_eq!(visible_workspace_order(&state), vec![1, 0, 2]);
    let row = collapsed_row_view(&state, 0, 1, false);
    assert_eq!(row.number, "1 ");
    assert_eq!(row.mark, RowMark::NoAgents);
    assert_eq!(row.number_tone, Tone::Dim);
    let row = collapsed_row_view(&state, 2, 2, false);
    assert_eq!(row.number, "3 ");
    assert_eq!(row.mark, RowMark::Settled);
    assert_eq!(collapsed_row_view(&state, 9, 0, true).number, "10");
    assert_eq!(collapsed_row_view(&state, 9, 0, true).number_tone, Tone::Subtle);
    assert_eq!(collapsed_row_view(&state, 9, 0, true).background, RowBackground::Selection);
}

#[test]
fn show_more_label_counts_hidden_settled_sessions() {
    let state = AppState::new(vec![
        ws("active", Some(100), None),
        ws("s1", Some(10), Some(50)),
        ws("s2", Some(10), Some(40)),
        ws("s3", Some(10), Some(30)),
        ws("s4", Some(10), Some(20)),
        ws("s5", Some(10), Some(10)),
    ]);
    assert_eq!(settled_show_more_label(&state), " + Show 2 more");
}

#[test]
fn toggle_icons() {
    assert_eq!(sidebar_toggle_view(false, true), ("«", false));
    assert_eq!(sidebar_toggle_view(true, true), ("»", true));
    assert_eq!(sidebar_toggle_view(true, false), ("»", false));
    assert_eq!(agent_panel_sort_label(AgentPanelSort::Spaces), "grouped");
    assert_eq!(agent_panel_sort_label(AgentPanelSort::Priority), "priority");
}

#[test]
fn worktree_groups_report_main_checkout_with_members() {
    let space = |linked: bool| Some(WorktreeSpace { key: "repo".to_string(), label: "repo".to_string(), is_linked_worktree: linked });
    let mut main = ws("main", Some(1), None);
    main.worktree_space = space(false);
    let mut linked = ws("linked", Some(1), None);
    linked.worktree_space = space(true);
    let mut state = AppState::new(vec![main, linked, ws("plain", None, None)]);
    assert_eq!(workspace_parent_group_state(&state, 0), Some(("repo".to_string(), false)));
    assert_eq!(workspace_parent_group_state(&state, 1), None);
    assert_eq!(workspace_parent_group_state(&state, 2), None);
    assert_eq!(workspace_parent_group_state(&state, 7), None);
    state.collapsed_space_keys = vec!["other".to_string(), "repo".to_string()];
    assert_eq!(workspace_parent_group_state(&state, 0), Some(("repo".to_string(), true)));
    state.workspaces[1].worktree_space = None;
    assert_eq!(workspace_parent_group_state(&state, 0), None);
}

#[test]
fn grouped_labels_strip_worktree_prefix() {
    assert_eq!(grouped_child_display_label("label", Some("worktree/fix-refunds"), false), "fix-refunds");
    assert_eq!(grouped_child_display_label("label", Some("feature/x"), false), "feature/x");
    assert_eq!(grouped_child_display_label("label", Some("worktree/x"), true), "label");
    assert_eq!(grouped_child_display_label("label", None, false), "label");
}

fn args(list: &[&str]) -> Vec<String> {
    list.iter().map(|s| s.to_string()).collect()
}

#[test]
fn session_create_reads_options() {
    match run_session_command(&args(&["create", "--goal", "fix billing bug", "--focus", "--label", "a", "--label", "b"])) {
        SessionCommand::CreateWorkspace { options } => {
            assert_eq!(options.goal.as_deref(), Some("fix billing bug"));
            assert_eq!(options.label.as_deref(), Some("b"));
            assert!(options.focus);
            assert!(!options.worktree);
            assert_eq!(options.cwd, None);
        }
        other => panic!("unexpected {other:?}"),
    }
    match run_session_command(&args(&["create", "--worktree", "--branch", "fix", "--focus", "--no-focus", "--cwd", "/tmp"])) {
        SessionCommand::CreateWorktree { options } => {
            assert_eq!(options.branch.as_deref(), Some("fix"));
            assert_eq!(options.cwd.as_deref(), Some("/tmp"));
            assert!(!options.focus);
        }
        other => panic!("unexpected {other:?}"),
    }
}

fn usage(list: &[&str]) -> String {
    match run_session_command(&args(list)) {
        SessionCommand::Usage { message } => message,
        other => panic!("unexpected {other:?}"),
    }
}

#[test]
fn session_create_refusals() {
    assert_eq!(usage(&["create", "--worktree"]), "--worktree requires --branch or --base");
    assert_eq!(usage(&["create", "--cwd"]), "missing value for --cwd");
    assert_eq!(usage(&["create", "--bogus"]), "unknown option: --bogus");
    assert!(matches!(run_session_command(&args(&["create", "--worktree", "--base", "main"])), SessionCommand::CreateWorktree { .. }));
}

#[test]
fn session_subcommands() {
    assert!(matches!(run_session_command(&args(&[])), SessionCommand::Help { code: 2 }));
    assert!(matches!(run_session_command(&args(&["nope"])), SessionCommand::Help { code: 2 }));
    assert!(matches!(run_session_command(&args(&["-h"])), SessionCommand::Help { code: 0 }));
    assert!(matches!(run_session_command(&args(&["help"])), SessionCommand::Help { code: 0 }));
    assert!(matches!(run_session_command(&args(&["list"])), SessionCommand::List));
    assert_eq!(usage(&["list", "x"]), "usage: sessionr session list");
    match run_session_command(&args(&["focus", "w1"])) {
        SessionCommand::Focus { workspace_id } => assert_eq!(workspace_id, "w1"),
        other => panic!("unexpected {other:?}"),
    }
    assert_eq!(usage(&["focus"]), "usage: sessionr session focus <session_id>");
    match run_session_command(&args(&["goal", "w1", "ship it"])) {
        SessionCommand::SetGoal { workspace_id, goal } => {
            assert_eq!(workspace_id, "w1");
            assert_eq!(goal, "ship it");
        }
        other => panic!("unexpected {other:?}"),
    }
    assert_eq!(usage(&["goal", "w1", ""]), "usage: sessionr session goal <session_id> <text>");
    assert_eq!(usage(&["settle"]), "usage: sessionr session settle <session_id>");
    assert_eq!(usage(&["unsettle", "a", "b"]), "usage: sessionr session unsettle <session_id>");
    match run_session_command(&args(&["unsettle", "w2"])) {
        SessionCommand::SetSettled { workspace_id, settled } => {
            assert_eq!(workspace_id, "w2");
            assert!(!settled);
        }
        other => panic!("unexpected {other:?}"),
    }
    assert!(matches!(run_session_command(&args(&["settle", "w2"])), SessionCommand::SetSettled { settled: true, .. }));
    assert!(matches!(run_session_command(&args(&["stop", "x"])), SessionCommand::Instance));
    assert_eq!(session_help_lines().len(), 7);
    assert_eq!(session_help_lines()[2], "  sessionr session list");
}

#[test]
fn worktree_goal_follows_only_with_id_and_goal() {
    assert_eq!(
        worktree_goal_request(Some("w3".to_string()), Some("g".to_string())),
        Some(("w3".to_string(), "g".to_string()))
    );
    assert_eq!(worktree_goal_request(None, Some("g".to_string())), None);
    assert_eq!(worktree_goal_request(Some("w3".to_string()), None), None);
}

use sessionr_sidebar::age::clamp_unix_secs;
use sessionr_sidebar::line::{row_line_layout, truncate_end};
use sessionr_sidebar::rows::mark_glyph;

#[test]
fn marks_follow_agents_and_settling() {
    let mut w = ws("x", Some(1), None);
    w.terminal_agent_names = vec![None, Some("helper".to_string())];
    w.agent_state = AgentState::Working;
    w.agent_seen = false;
    let state = AppState::new(vec![w, ws("y", Some(1), None), ws("z", Some(1), Some(2))]);
    assert_eq!(session_row_view(&state, 0, false, 5).mark, RowMark::Agent(AgentState::Working, false));
    assert_eq!(session_row_view(&state, 1, false, 5).mark, RowMark::NoAgents);
    assert_eq!(session_row_view(&state, 2, false, 5).mark, RowMark::Settled);
    assert_eq!(mark_glyph(RowMark::Agent(AgentState::Working, true)), ("⟳", false));
    assert_eq!(mark_glyph(RowMark::Agent(AgentState::Blocked, true)), ("●", false));
    assert_eq!(mark_glyph(RowMark::Agent(AgentState::Idle, false)), ("✓", false));
    assert_eq!(mark_glyph(RowMark::Agent(AgentState::Idle, true)), ("·", false));
    assert_eq!(mark_glyph(RowMark::NoAgents), ("·", true));
    assert_eq!(mark_glyph(RowMark::Settled), ("·", true));
}

#[test]
fn truncation_keeps_what_fits_with_an_ellipsis() {
    assert_eq!(truncate_end("fix billing bug", 20), "fix billing bug");
    assert_eq!(truncate_end("fix billing bug", 15), "fix billing bug");
    assert_eq!(truncate_end("fix billing bug", 8), "fix bil…");
    assert_eq!(truncate_end("fix billing bug", 1), "…");
    assert_eq!(truncate_end("fix billing bug", 0), "");
    assert_eq!(truncate_end("日本語", 4), "日…");
}

#[test]
fn row_layout_right_aligns_age_and_repo() {
    let state = row_app();
    let view = session_row_view(&state, 0, false, 1_000);
    // Width 30: the age "2m" takes 2 columns, so the title may use 25.
    let layout = row_line_layout(&view, 30);
    assert_eq!(layout.title, "fix billing bug");
    // " · fix billing bug" is 18 columns; the age starts at column 28.
    assert_eq!(layout.title_pad, 10);
    // "  ⎇ main" is 8 columns and "repo-work" 9: 13 spaces fill 30.
    assert_eq!(layout.repo_pad, 13);
    let narrow = row_line_layout(&view, 12);
    assert_eq!(narrow.title, "fix bi…");
    assert_eq!(narrow.title, truncate_end("fix billing bug", 7));
    assert_eq!(narrow.title_pad, 0);
    let settled = session_row_view(&state, 1, false, 1_000);
    assert_eq!(row_line_layout(&settled, 30).repo_pad, 0);
}

#[test]
fn clock_seconds_are_capped() {
    assert_eq!(clamp_unix_secs(5), 5);
    assert_eq!(clamp_unix_secs(u64::MAX), i64::MAX);
    assert_eq!(clamp_unix_secs(i64::MAX as u64), i64::MAX);
}

use sessionr_sidebar::agents::custom_state_label;
use sessionr_sidebar::session::same_text;

#[test]
fn custom_state_labels_are_found_by_status_key() {
    let state = agents_app();
    let entries = collect_agent_panel_entries_with_runtimes(&state);
    // Entry 1 is idle and seen: its key is "idle", which has no custom label.
    assert_eq!(custom_state_label(&entries[1]), None);
    let mut unseen = agents_app();
    unseen.workspaces[0].panes[1].seen = false;
    let entries = collect_agent_panel_entries_with_runtimes(&unseen);
    assert_eq!(custom_state_label(&entries[1]).as_deref(), Some("finished"));
    let mut labelled = agents_app();
    labelled.workspaces[0].panes[0].state_labels = vec![
        ("idle".to_string(), "resting".to_string()),
        ("working".to_string(), "busy".to_string()),
    ];
    let entries = collect_agent_panel_entries_with_runtimes(&labelled);
    assert_eq!(custom_state_label(&entries[0]).as_deref(), Some("busy"));
    assert!(same_text("abc", "abc"));
    assert!(!same_text("abc", "abd"));
}
