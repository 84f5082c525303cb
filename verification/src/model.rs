//! The data the sidebar reads: sessions (workspaces with a goal, a recency
//! stamp and a settled stamp) and the sidebar's own settings.
use vstd::prelude::*;

verus! {

/// Lifecycle state of an agent, or the rolled-up state of a session.
#[derive(Debug, Clone, Copy, PartialEq, Eq, Structural)]
pub enum AgentState {
    Idle,
    Working,
    Blocked,
    Unknown,
}

/// How the agent panel orders its entries.
#[derive(Debug, Clone, Copy, PartialEq, Eq, Structural)]
pub enum AgentPanelSort {
    Spaces,
    Priority,
}

/// The git space a session belongs to.
#[derive(Debug)]
pub struct WorktreeSpace {
    /// Identity of the space shared by the main checkout and its worktrees.
    pub key: String,
    /// Name shown on the branch line (the repository).
    pub label: String,
    /// Whether this session is a linked worktree rather than the main checkout.
    pub is_linked_worktree: bool,
}

/// One pane of a session, as the agent panel lists it.
#[derive(Debug)]
pub struct PaneDetail {
    pub tab_idx: usize,
    pub pane_id: u64,
    pub tab_label: String,
    pub pane_label: Option<String>,
    pub terminal_title: Option<String>,
    pub terminal_title_stripped: Option<String>,
    pub agent_label: String,
    pub agent_kind_label: Option<String>,
    /// The agent detected in the pane, by name, if any.
    pub agent: Option<String>,
    pub state: AgentState,
    pub seen: bool,
    pub last_agent_state_change_seq: Option<u64>,
    /// Custom state labels, keyed by status key.
    pub state_labels: Vec<(String, String)>,
    /// Row tokens, keyed by token name.
    pub tokens: Vec<(String, String)>,
}

/// No two pairs share a key: the pairs stand for a map from key to value.
pub open spec fn keys_unique(pairs: Seq<(String, String)>) -> bool {
    forall|i: int, j: int|
        0 <= i < pairs.len() && 0 <= j < pairs.len() && i != j ==> pairs[i].0@ != pairs[j].0@
}

impl PaneDetail {
    /// The custom state labels and the row tokens are maps: each key occurs
    /// once.
    pub open spec fn wf(&self) -> bool {
        keys_unique(self.state_labels@) && keys_unique(self.tokens@)
    }
}

/// A session: a workspace with a goal, recency and settled stamps.
#[derive(Debug)]
pub struct Workspace {
    /// The name shown when the session has no goal.
    pub display_name: String,
    /// The title the user gave the session.
    pub goal: Option<String>,
    /// Wall-clock seconds of the last activity.
    pub last_activity: Option<i64>,
    /// `None` while active; the wall-clock seconds it was settled otherwise.
    pub settled: Option<i64>,
    /// The checked-out branch, when the session is in a git repository.
    pub branch: Option<String>,
    pub worktree_space: Option<WorktreeSpace>,
    /// Rolled-up state of the agents in the session, and whether it was seen.
    pub agent_state: AgentState,
    pub agent_seen: bool,
    /// For each tab, whether its name was chosen automatically.
    pub tab_auto_named: Vec<bool>,
    pub panes: Vec<PaneDetail>,
    /// For each terminal of the session, the name of the agent running in
    /// it, if any.
    pub terminal_agent_names: Vec<Option<String>>,
}

/// The sessions section of the sidebar configuration.
#[derive(Debug, Clone, Copy)]
pub struct SessionsConfig {
    /// Blank rows between two session rows.
    pub row_gap: u16,
    /// Settled rows shown before the rest collapse behind "Show N more".
    pub settled_preview: usize,
}

/// What the sidebar reads of the application.
#[derive(Debug)]
pub struct AppState {
    pub workspaces: Vec<Workspace>,
    /// The session shown in the main area, if any.
    pub active: Option<usize>,
    /// The session under the navigation cursor.
    pub selected: usize,
    /// Whether the settled archive is fully expanded.
    pub settled_expanded: bool,
    pub sidebar_spaces: SessionsConfig,
    /// Blank rows between two agent panel rows.
    pub agent_row_gap: u16,
    /// Worktree spaces the user has collapsed.
    pub collapsed_space_keys: Vec<String>,
    /// First visible entry of the session list.
    pub workspace_scroll: usize,
    /// First visible entry of the agent panel.
    pub agent_panel_scroll: usize,
}

impl Workspace {
    /// Whether the session has been settled (archived).
    pub open spec fn is_settled_spec(&self) -> bool {
        self.settled is Some
    }

    /// Whether the session has been settled (archived).
    #[verifier::when_used_as_spec(is_settled_spec)]
    pub fn is_settled(&self) -> (b: bool)
        ensures
            b == self.settled is Some,
    {
        self.settled.is_some()
    }

    /// A fresh active session with the given display name and no history.
    pub fn new(display_name: String) -> (ws: Workspace)
        ensures
            ws.display_name == display_name,
            ws.goal is None,
            ws.last_activity is None,
            ws.settled is None,
            ws.branch is None,
            ws.worktree_space is None,
            ws.agent_state == AgentState::Idle,
            ws.agent_seen,
            ws.tab_auto_named@ == seq![true],
            ws.panes@.len() == 0,
            ws.terminal_agent_names@.len() == 0,
    {
        let mut tabs = Vec::new();
        tabs.push(true);
        Workspace {
            display_name,
            goal: None,
            last_activity: None,
            settled: None,
            branch: None,
            worktree_space: None,
            agent_state: AgentState::Idle,
            agent_seen: true,
            tab_auto_named: tabs,
            panes: Vec::new(),
            terminal_agent_names: Vec::new(),
        }
    }
}

impl AppState {
    /// An application state over the given sessions, with the first one
    /// active and selected and the default sidebar settings.
    pub fn new(workspaces: Vec<Workspace>) -> (app: AppState)
        ensures
            app.workspaces@ == workspaces@,
            app.active == (if workspaces@.len() > 0 { Some(0usize) } else { None }),
            app.selected == 0,
            !app.settled_expanded,
            app.sidebar_spaces.settled_preview == 3,
            app.sidebar_spaces.row_gap == 0,
            app.agent_row_gap == 0,
            app.collapsed_space_keys@.len() == 0,
            app.workspace_scroll == 0,
            app.agent_panel_scroll == 0,
    {
        let active = if workspaces.len() > 0 { Some(0usize) } else { None };
        AppState {
            workspaces,
            active,
            selected: 0,
            settled_expanded: false,
            sidebar_spaces: SessionsConfig { row_gap: 0, settled_preview: 3 },
            agent_row_gap: 0,
            collapsed_space_keys: Vec::new(),
            workspace_scroll: 0,
            agent_panel_scroll: 0,
        }
    }
}

} // verus!
