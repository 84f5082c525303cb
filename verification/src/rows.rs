//! What each sidebar row shows: the session rows of the list, the focused
//! session's card, the numbered rows of the collapsed sidebar, the "show
//! more" row and the toggle.  Drawing them is the terminal front end's job.
use vstd::prelude::*;
use crate::model::{AgentState, AppState, Workspace};
use crate::entries::{WorkspaceListEntry, session_list, settled_count};
use crate::age::{age_label, decimal, lemma_decimal_shape, push_decimal, row_stamp, session_row_age_at};
use crate::agents::AgentPanelEntry;
use crate::layout::{card_height, focused_card_height, focused_index, has_agents, sat_sub, session_has_agents};

verus! {

/// The gutter mark of a row.
#[derive(Debug, Clone, Copy, PartialEq, Eq, Structural)]
pub enum RowMark {
    /// A settled session: a dim dot.
    Settled,
    /// An active session without agents: a dim dot.
    NoAgents,
    /// The rolled-up state of the session's agents, and whether it was seen.
    Agent(AgentState, bool),
}

/// The background of a row.
#[derive(Debug, Clone, Copy, PartialEq, Eq, Structural)]
pub enum RowBackground {
    Plain,
    /// The row under the navigation cursor.
    Selection,
    /// The session shown in the main area.
    Active,
}

/// How prominent a row's text is.
#[derive(Debug, Clone, Copy, PartialEq, Eq, Structural)]
pub enum Tone {
    /// Dimmed: a settled session that is neither active nor selected, and
    /// the number of a plain row of the collapsed sidebar.
    Dim,
    /// Highlighted: the active or the selected session.
    Bright,
    /// Everything else.
    Normal,
    /// The number of the selected row in the collapsed sidebar.
    Subtle,
}

/// The contents of a session row of the expanded sidebar.
#[derive(Debug)]
pub struct SessionRowView {
    pub mark: RowMark,
    pub background: RowBackground,
    pub title_tone: Tone,
    /// Whether the age, branch and repository are dimmed.
    pub dim: bool,
    /// The goal, or the session's name when it has none.
    pub title: String,
    /// The relative age, empty when the session has no stamp.
    pub age: String,
    /// The branch line: the branch mark and the branch (`main` by default).
    pub branch_text: String,
    /// The repository shown at the right of the branch line, when it
    /// differs from the branch.
    pub repo: Option<String>,
}

/// The row is under the navigation cursor.
pub open spec fn is_selected_row(app: AppState, ws_idx: usize, is_navigating: bool) -> bool {
    ws_idx == app.selected && is_navigating
}

/// The row is the session shown in the main area.
pub open spec fn is_active_row(app: AppState, ws_idx: usize) -> bool {
    app.active == Some(ws_idx)
}

/// The background of a row: the selection wins over the active highlight.
pub open spec fn row_background(app: AppState, ws_idx: usize, is_navigating: bool) -> RowBackground {
    if is_selected_row(app, ws_idx, is_navigating) {
        RowBackground::Selection
    } else if is_active_row(app, ws_idx) {
        RowBackground::Active
    } else {
        RowBackground::Plain
    }
}

/// The mark of a session: a dim dot once settled, its agents' state otherwise.
pub open spec fn row_mark(ws: Workspace) -> RowMark {
    if ws.is_settled_spec() {
        RowMark::Settled
    } else if !has_agents(ws) {
        RowMark::NoAgents
    } else {
        RowMark::Agent(ws.agent_state, ws.agent_seen)
    }
}

/// The glyph of a gutter mark, and whether it is drawn dim: `⟳` working,
/// `●` blocked, `✓` done (idle, not yet seen), `·` idle; a dim `·` for a
/// settled session or one without agents.  An agent whose state is unknown
/// shows the plain `·`.
pub open spec fn mark_glyph_spec(mark: RowMark) -> (Seq<char>, bool) {
    match mark {
        RowMark::Settled => (seq!['\u{b7}'], true),
        RowMark::NoAgents => (seq!['\u{b7}'], true),
        RowMark::Agent(AgentState::Working, _) => (seq!['\u{27f3}'], false),
        RowMark::Agent(AgentState::Blocked, _) => (seq!['\u{25cf}'], false),
        RowMark::Agent(AgentState::Idle, false) => (seq!['\u{2713}'], false),
        RowMark::Agent(_, _) => (seq!['\u{b7}'], false),
    }
}

/// The glyph of a gutter mark, and whether it is drawn dim.
pub fn mark_glyph(mark: RowMark) -> (glyph: (&'static str, bool))
    ensures
        glyph.0@ == mark_glyph_spec(mark).0,
        glyph.1 == mark_glyph_spec(mark).1,
{
    proof {
        reveal_strlit("\u{b7}");
        reveal_strlit("\u{27f3}");
        reveal_strlit("\u{25cf}");
        reveal_strlit("\u{2713}");
    }
    match mark {
        RowMark::Settled => ("\u{b7}", true),
        RowMark::NoAgents => ("\u{b7}", true),
        RowMark::Agent(AgentState::Working, _) => ("\u{27f3}", false),
        RowMark::Agent(AgentState::Blocked, _) => ("\u{25cf}", false),
        RowMark::Agent(AgentState::Idle, false) => ("\u{2713}", false),
        RowMark::Agent(_, _) => ("\u{b7}", false),
    }
}

/// A settled session that is neither active nor selected is dimmed.
pub open spec fn row_dim(app: AppState, ws_idx: usize, is_navigating: bool) -> bool {
    app.workspaces@[ws_idx as int].is_settled_spec() && !is_active_row(app, ws_idx) && !is_selected_row(app, ws_idx, is_navigating)
}

/// The title of a session: its goal, or its name.
pub open spec fn row_title(ws: Workspace) -> Seq<char> {
    match ws.goal {
        Some(g) => g@,
        None => ws.display_name@,
    }
}

/// The branch mark followed by a space.
pub open spec fn branch_mark() -> Seq<char> {
    seq!['\u{2387}', ' ']
}

/// The branch shown on the branch line.
pub open spec fn row_branch(ws: Workspace) -> Seq<char> {
    match ws.branch {
        Some(b) => b@,
        None => seq!['m', 'a', 'i', 'n'],
    }
}

/// The repository shown on the branch line: the worktree space's label, or
/// the session's name when it has a branch but no space; nothing when that
/// is the branch itself.
pub open spec fn row_repo(ws: Workspace) -> Option<Seq<char>> {
    let repo = match ws.worktree_space {
        Some(space) => Some(space.label@),
        None => match ws.branch {
            Some(_) => Some(ws.display_name@),
            None => None,
        },
    };
    match repo {
        Some(r) => if r == row_branch(ws) { None } else { Some(r) },
        None => None,
    }
}

fn mark_of(ws: &Workspace) -> (m: RowMark)
    ensures
        m == row_mark(*ws),
{
    if ws.is_settled() {
        RowMark::Settled
    } else if !session_has_agents(ws) {
        RowMark::NoAgents
    } else {
        RowMark::Agent(ws.agent_state, ws.agent_seen)
    }
}

fn background_of(app: &AppState, ws_idx: usize, is_navigating: bool) -> (b: RowBackground)
    ensures
        b == row_background(*app, ws_idx, is_navigating),
{
    let selected = ws_idx == app.selected && is_navigating;
    let is_active = match app.active {
        Some(a) => a == ws_idx,
        None => false,
    };
    if selected {
        RowBackground::Selection
    } else if is_active {
        RowBackground::Active
    } else {
        RowBackground::Plain
    }
}

/// The contents of the row of session `ws_idx` at `now_secs`.
pub fn session_row_view(app: &AppState, ws_idx: usize, is_navigating: bool, now_secs: i64) -> (view: SessionRowView)
    requires
        ws_idx < app.workspaces@.len(),
        row_stamp(app.workspaces@[ws_idx as int]) matches Some(t) ==> i64::MIN <= now_secs - t <= i64::MAX,
    ensures
        ({
            let ws = app.workspaces@[ws_idx as int];
            let dim = row_dim(*app, ws_idx, is_navigating);
            &&& view.mark == row_mark(ws)
            &&& view.background == row_background(*app, ws_idx, is_navigating)
            &&& view.dim == dim
            &&& view.title_tone == if dim { Tone::Dim } else if is_active_row(*app, ws_idx) || is_selected_row(*app, ws_idx, is_navigating) { Tone::Bright } else { Tone::Normal }
            &&& view.title@ == row_title(ws)
            &&& view.age@ == match row_stamp(ws) { Some(t) => age_label(now_secs as int, t as int), None => Seq::empty() }
            &&& view.branch_text@ == branch_mark() + row_branch(ws)
            &&& match row_repo(ws) { Some(r) => view.repo matches Some(s) && s@ == r, None => view.repo is None }
        }),
{
    let ws = &app.workspaces[ws_idx];
    let selected = ws_idx == app.selected && is_navigating;
    let is_active = match app.active {
        Some(a) => a == ws_idx,
        None => false,
    };
    let dim = ws.is_settled() && !is_active && !selected;
    let title_tone = if dim { Tone::Dim } else if is_active || selected { Tone::Bright } else { Tone::Normal };
    let title = match &ws.goal {
        Some(goal) => goal.clone(),
        None => ws.display_name.clone(),
    };
    let age = match session_row_age_at(ws, now_secs) {
        Some(age) => age,
        None => String::new(),
    };
    proof { reveal_strlit("main"); reveal_strlit("\u{2387} "); }
    let branch = match &ws.branch {
        Some(b) => b.clone(),
        None => String::from_str("main"),
    };
    let repo = match &ws.worktree_space {
        Some(space) => Some(space.label.clone()),
        None => match &ws.branch {
            Some(_) => Some(ws.display_name.clone()),
            None => None,
        },
    };
    assert(branch@ == row_branch(*ws));
    let repo = match repo {
        Some(r) => {
            let same = r == branch;
            assert(same == (r@ == branch@));
            if same { None } else { Some(r) }
        },
        None => None,
    };
    let mut branch_text = String::from_str("\u{2387} ");
    branch_text.append(branch.as_str());
    SessionRowView {
        mark: mark_of(ws),
        background: background_of(app, ws_idx, is_navigating),
        title_tone,
        dim,
        title,
        age,
        branch_text,
        repo,
    }
}

/// The sessions of the list's session rows, in list order.
pub open spec fn workspace_order(e: Seq<WorkspaceListEntry>) -> Seq<usize>
    decreases e.len(),
{
    if e.len() == 0 {
        Seq::empty()
    } else {
        let rest = workspace_order(e.drop_last());
        match e.last() {
            WorkspaceListEntry::Workspace { ws_idx, .. } => rest.push(ws_idx),
            _ => rest,
        }
    }
}

/// The sessions in display order: the sessions of the list's rows.
pub fn visible_workspace_order(app: &AppState) -> (order: Vec<usize>)
    ensures
        order@ == workspace_order(session_list(*app)),
{
    let entries = crate::entries::workspace_list_entries(app);
    let mut order: Vec<usize> = Vec::new();
    let mut i: usize = 0;
    while i < entries.len()
        invariant
            i <= entries@.len(),
            order@ == workspace_order(entries@.take(i as int)),
        decreases entries@.len() - i,
    {
        assert(entries@.take(i + 1).drop_last() == entries@.take(i as int));
        match &entries[i] {
            WorkspaceListEntry::Workspace { ws_idx, .. } => order.push(*ws_idx),
            _ => {},
        }
        i = i + 1;
    }
    assert(entries@.take(entries@.len() as int) == entries@);
    order
}

/// A row of the collapsed sidebar.
#[derive(Debug)]
pub struct CollapsedRowView {
    /// The row's number, left-aligned in two columns.
    pub number: String,
    pub mark: RowMark,
    pub background: RowBackground,
    pub number_tone: Tone,
}

/// `n` in decimal, padded with spaces on the right to two columns.
pub open spec fn number_label(n: nat) -> Seq<char> {
    if decimal(n).len() < 2 { decimal(n) + seq![' '] } else { decimal(n) }
}

/// The row at `position` of the collapsed sidebar, showing session `ws_idx`.
pub fn collapsed_row_view(app: &AppState, position: usize, ws_idx: usize, is_navigating: bool) -> (view: CollapsedRowView)
    requires
        ws_idx < app.workspaces@.len(),
        position < u64::MAX,
    ensures
        ({
            let ws = app.workspaces@[ws_idx as int];
            &&& view.number@ == number_label((position + 1) as nat)
            &&& view.mark == row_mark(ws)
            &&& view.background == row_background(*app, ws_idx, is_navigating)
            &&& view.number_tone == if ws.is_settled_spec() { Tone::Dim }
                else if is_selected_row(*app, ws_idx, is_navigating) { Tone::Subtle }
                else if is_active_row(*app, ws_idx) { Tone::Bright }
                else { Tone::Dim }
        }),
{
    let ws = &app.workspaces[ws_idx];
    let selected = ws_idx == app.selected && is_navigating;
    let is_active = match app.active {
        Some(a) => a == ws_idx,
        None => false,
    };
    let number_tone = if ws.is_settled() { Tone::Dim } else if selected { Tone::Subtle } else if is_active { Tone::Bright } else { Tone::Dim };
    let mut number = String::new();
    let n = (position as u64) + 1;
    push_decimal(&mut number, n);
    proof { lemma_decimal_shape(n as nat); reveal_strlit(" "); }
    if n < 10 {
        number.append(" ");
    }
    CollapsedRowView { number, mark: mark_of(ws), background: background_of(app, ws_idx, is_navigating), number_tone }
}

/// The number of settled sessions hidden behind "Show N more".
pub open spec fn hidden_settled(app: AppState) -> int {
    sat_sub(settled_count(app.workspaces@) as int, app.sidebar_spaces.settled_preview as int)
}

fn count_settled(wss: &Vec<Workspace>) -> (n: usize)
    ensures
        n == settled_count(wss@),
{
    let mut n: usize = 0;
    let mut i: usize = 0;
    while i < wss.len()
        invariant
            i <= wss@.len(),
            n == settled_count(wss@.take(i as int)),
            n <= i,
        decreases wss@.len() - i,
    {
        assert(wss@.take(i + 1).drop_last() == wss@.take(i as int));
        if wss[i].is_settled() {
            n = n + 1;
        }
        i = i + 1;
    }
    assert(wss@.take(wss@.len() as int) == wss@);
    n
}

/// The text of the "show more" row: ` + Show N more`, where N is the number
/// of settled sessions beyond the preview.
pub fn settled_show_more_label(app: &AppState) -> (label: String)
    ensures
        label@ == seq![' ', '+', ' ', 'S', 'h', 'o', 'w', ' '] + decimal(hidden_settled(*app) as nat) + seq![' ', 'm', 'o', 'r', 'e'],
{
    let settled = count_settled(&app.workspaces);
    let hidden = settled.saturating_sub(app.sidebar_spaces.settled_preview);
    proof { reveal_strlit(" + Show "); reveal_strlit(" more"); }
    let mut label = String::from_str(" + Show ");
    push_decimal(&mut label, hidden as u64);
    label.append(" more");
    label
}

/// The focused session's card.
#[derive(Debug)]
pub struct FocusedCardView {
    pub ws_idx: usize,
    /// Rows taken by the card, borders included.
    pub height: u16,
    /// The goal, or the session's name.
    pub title: String,
    /// The branch mark and the branch, or `no branch`.
    pub branch_text: String,
}

/// The card of the focused session, unless it is missing or settled.
pub fn focused_card_view(app: &AppState) -> (card: Option<FocusedCardView>)
    ensures
        card_height(*app) == 0 <==> card is None,
        card matches Some(c) ==> {
            let f = focused_index(*app);
            let ws = app.workspaces@[f as int];
            &&& c.ws_idx == f
            &&& c.height == card_height(*app)
            &&& c.title@ == row_title(ws)
            &&& c.branch_text@ == branch_mark() + match ws.branch {
                Some(b) => b@,
                None => seq!['n', 'o', ' ', 'b', 'r', 'a', 'n', 'c', 'h'],
            }
        },
{
    let height = focused_card_height(app);
    if height == 0 {
        return None;
    }
    let focused = match app.active {
        Some(i) => i,
        None => app.selected,
    };
    let ws = &app.workspaces[focused];
    let title = match &ws.goal {
        Some(goal) => goal.clone(),
        None => ws.display_name.clone(),
    };
    proof { reveal_strlit("\u{2387} "); reveal_strlit("no branch"); }
    let mut branch_text = String::from_str("\u{2387} ");
    match &ws.branch {
        Some(b) => branch_text.append(b.as_str()),
        None => branch_text.append("no branch"),
    }
    Some(FocusedCardView { ws_idx: focused, height, title, branch_text })
}

/// An agent chip of the focused card.
#[derive(Debug)]
pub struct AgentChip {
    /// The agent's kind, or its name, or `agent`.
    pub kind: String,
    pub state: AgentState,
    pub seen: bool,
}

/// The kind shown on an agent's chip.
pub open spec fn chip_kind(e: AgentPanelEntry) -> Seq<char> {
    match e.agent_kind_label {
        Some(k) => k@,
        None => match e.agent_label {
            Some(l) => l@,
            None => seq!['a', 'g', 'e', 'n', 't'],
        },
    }
}

/// The chip of entry `e`.
pub open spec fn chip_matches(e: AgentPanelEntry, chip: AgentChip) -> bool {
    chip.kind@ == chip_kind(e) && chip.state == e.state && chip.seen == e.seen
}

/// The entries of session `focused`, in order: `picks` are their positions.
pub open spec fn focused_positions(entries: Seq<AgentPanelEntry>, focused: usize, upto: int) -> Seq<int>
    decreases upto,
{
    if upto <= 0 || upto > entries.len() {
        Seq::empty()
    } else {
        let rest = focused_positions(entries, focused, upto - 1);
        if entries[upto - 1].ws_idx == focused { rest.push(upto - 1) } else { rest }
    }
}

/// The chips of the focused card: the first three agents of the focused
/// session, in the order of `entries`.
pub fn focused_card_chips(entries: &Vec<AgentPanelEntry>, focused: usize) -> (chips: Vec<AgentChip>)
    ensures
        ({
            let picks = focused_positions(entries@, focused, entries@.len() as int);
            let n = if picks.len() < 3 { picks.len() as int } else { 3 };
            &&& chips@.len() == n
            &&& forall|k: int| 0 <= k < n ==> chip_matches(entries@[picks[k]], #[trigger] chips@[k])
        }),
{
    let mut chips: Vec<AgentChip> = Vec::new();
    let mut i: usize = 0;
    while i < entries.len() && chips.len() < 3
        invariant
            i <= entries@.len(),
            chips@.len() <= 3,
            chips@.len() == focused_positions(entries@, focused, i as int).len(),
            forall|k: int| 0 <= k < chips@.len() ==> chip_matches(entries@[focused_positions(entries@, focused, i as int)[k]], #[trigger] chips@[k]),
        decreases entries@.len() - i,
    {
        let entry = &entries[i];
        let ghost before = focused_positions(entries@, focused, i as int);
        assert(forall|k: int| 0 <= k < before.len() ==> #[trigger] focused_positions(entries@, focused, i + 1)[k] == before[k]);
        if entry.ws_idx == focused {
            proof { reveal_strlit("agent"); }
            let kind = match &entry.agent_kind_label {
                Some(k) => k.clone(),
                None => match &entry.agent_label {
                    Some(l) => l.clone(),
                    None => {
                        let a = String::from_str("agent");
                        assert(a@ == seq!['a', 'g', 'e', 'n', 't']);
                        a
                    },
                },
            };
            assert(*entry == entries@[i as int]);
            let chip = AgentChip { kind, state: entry.state, seen: entry.seen };
            assert(chip_matches(entries@[i as int], chip));
            let ghost old_chips = chips@;
            chips.push(chip);
            assert(focused_positions(entries@, focused, i + 1) == before.push(i as int));
            assert forall|k: int| 0 <= k < chips@.len() implies chip_matches(entries@[focused_positions(entries@, focused, i + 1)[k]], #[trigger] chips@[k]) by {
                if k < old_chips.len() {
                    assert(chips@[k] == old_chips[k]);
                }
            }
        } else {
            assert(focused_positions(entries@, focused, i + 1) == before);
        }
        i = i + 1;
    }
    proof {
        lemma_positions_prefix(entries@, focused, i as int, entries@.len() as int);
    }
    chips
}

proof fn lemma_positions_prefix(entries: Seq<AgentPanelEntry>, focused: usize, a: int, b: int)
    requires
        0 <= a <= b <= entries.len(),
    ensures
        focused_positions(entries, focused, a).len() <= focused_positions(entries, focused, b).len(),
        forall|k: int| 0 <= k < focused_positions(entries, focused, a).len()
            ==> #[trigger] focused_positions(entries, focused, b)[k] == focused_positions(entries, focused, a)[k],
    decreases b - a,
{
    if a < b {
        lemma_positions_prefix(entries, focused, a, b - 1);
    }
}

/// The sidebar toggle: `»` to expand the collapsed sidebar, `«` to
/// collapse the expanded one; accented when collapsed and the menu asks for
/// attention.
pub fn sidebar_toggle_view(collapsed: bool, attention: bool) -> (view: (&'static str, bool))
    ensures
        view.0@ == (if collapsed { seq!['\u{bb}'] } else { seq!['\u{ab}'] }),
        view.1 == (collapsed && attention),
{
    proof { reveal_strlit("\u{bb}"); reveal_strlit("\u{ab}"); }
    if collapsed { ("\u{bb}", attention) } else { ("\u{ab}", false) }
}


/// An active session with an agent in any of its terminals is marked by its
/// agents' rolled-up state; one with none gets the no-agents mark.
pub proof fn law_mark_shows_agents(ws: Workspace, i: int)
    requires
        !ws.is_settled_spec(),
    ensures
        0 <= i < ws.terminal_agent_names@.len() && ws.terminal_agent_names@[i] is Some
            ==> row_mark(ws) == RowMark::Agent(ws.agent_state, ws.agent_seen),
        (forall|j: int| 0 <= j < ws.terminal_agent_names@.len() ==> ws.terminal_agent_names@[j] is None)
            ==> row_mark(ws) == RowMark::NoAgents,
{
    crate::layout::law_any_terminal_agent_counts(ws, i);
}

/// The branch line names the session's git space (or, for a session on a
/// branch outside any space, the session itself) at its right, unless that
/// name is the branch shown; a session with neither a space nor a branch
/// names nothing there, and the name shown is never the branch.
pub proof fn law_repo_names_the_space(ws: Workspace)
    ensures
        ({
            let branch = match ws.branch { Some(b) => b@, None => "main"@ };
            &&& ws.worktree_space is Some && ws.worktree_space->0.label@ != branch
                ==> row_repo(ws) == Some(ws.worktree_space->0.label@)
            &&& ws.worktree_space is None && ws.branch is Some && ws.display_name@ != branch
                ==> row_repo(ws) == Some(ws.display_name@)
            &&& ws.worktree_space is None && ws.branch is None ==> row_repo(ws) is None
            &&& row_repo(ws) is Some ==> row_repo(ws)->0 != branch
        }),
{
    reveal_strlit("main");
    assert("main"@ =~= seq!['m', 'a', 'i', 'n']);
}

} // verus!
