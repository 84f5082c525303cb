//! The agent panel entries: one per pane of every session, labelled with
//! the session's name and, where it tells panes apart, the tab's name.
use vstd::prelude::*;
use crate::model::{keys_unique, AgentState, AppState, PaneDetail, Workspace};
use crate::layout::{agent_panel_status_key, status_key};
use crate::session::same_text;

verus! {

/// A pane as the agent panel lists it.
#[derive(Debug)]
pub struct AgentPanelEntry {
    pub ws_idx: usize,
    pub tab_idx: usize,
    pub pane_id: u64,
    pub primary_label: String,
    pub primary_tab_label: Option<String>,
    pub pane_label: Option<String>,
    pub terminal_title: Option<String>,
    pub terminal_title_stripped: Option<String>,
    pub agent_label: Option<String>,
    pub agent_kind_label: Option<String>,
    /// The agent detected in the pane, by name, if any.
    pub agent: Option<String>,
    pub state: AgentState,
    pub seen: bool,
    pub last_agent_state_change_seq: Option<u64>,
    pub state_labels: Vec<(String, String)>,
    pub tokens: Vec<(String, String)>,
}

impl AgentPanelEntry {
    /// The custom state labels and the row tokens are maps: each key occurs
    /// once.
    pub open spec fn wf(&self) -> bool {
        keys_unique(self.state_labels@) && keys_unique(self.tokens@)
    }
}

/// The tab name is shown when the session has several tabs or the pane's
/// tab was named by hand.
pub open spec fn shows_tab(ws: Workspace, tab_idx: usize) -> bool {
    ws.tab_auto_named@.len() > 1 || (tab_idx < ws.tab_auto_named@.len() && !ws.tab_auto_named@[tab_idx as int])
}

/// The entry of pane `d` of session `ws_idx`.
pub open spec fn entry_matches(app: AppState, ws_idx: usize, d: PaneDetail, entry: AgentPanelEntry) -> bool {
    let ws = app.workspaces@[ws_idx as int];
    &&& entry.ws_idx == ws_idx
    &&& entry.tab_idx == d.tab_idx
    &&& entry.pane_id == d.pane_id
    &&& entry.primary_label == ws.display_name
    &&& entry.primary_tab_label == if shows_tab(ws, d.tab_idx) { Some(d.tab_label) } else { None }
    &&& entry.pane_label == d.pane_label
    &&& entry.terminal_title == d.terminal_title
    &&& entry.terminal_title_stripped == d.terminal_title_stripped
    &&& entry.agent_label == Some(d.agent_label)
    &&& entry.agent_kind_label == d.agent_kind_label
    &&& entry.agent == d.agent
    &&& entry.state == d.state
    &&& entry.seen == d.seen
    &&& entry.last_agent_state_change_seq == d.last_agent_state_change_seq
    &&& entry.state_labels@ == d.state_labels@
    &&& entry.tokens@ == d.tokens@
}

/// The number of panes of sessions `w..`.
pub open spec fn panes_from(wss: Seq<Workspace>, w: int) -> nat
    decreases wss.len() - w,
{
    if w < 0 || w >= wss.len() { 0 } else { wss[w].panes@.len() + panes_from(wss, w + 1) }
}

/// The panes of the sessions `w..` in order: `entries` lists, session by
/// session and pane by pane, the entry of each.
pub open spec fn lists_panes_from(app: AppState, w: int, entries: Seq<AgentPanelEntry>) -> bool
    decreases app.workspaces@.len() - w,
{
    if w < 0 || w >= app.workspaces@.len() {
        entries.len() == 0
    } else {
        let n = app.workspaces@[w].panes@.len() as int;
        &&& entries.len() >= n
        &&& forall|j: int| 0 <= j < n ==> entry_matches(app, w as usize, #[trigger] app.workspaces@[w].panes@[j], entries[j])
        &&& lists_panes_from(app, w + 1, entries.skip(n))
    }
}

fn clone_opt(s: &Option<String>) -> (r: Option<String>)
    ensures
        r == *s,
{
    match s {
        Some(s) => Some(s.clone()),
        None => None,
    }
}

fn clone_pairs(v: &Vec<(String, String)>) -> (r: Vec<(String, String)>)
    ensures
        r@ == v@,
{
    let mut r: Vec<(String, String)> = Vec::new();
    let mut i: usize = 0;
    while i < v.len()
        invariant
            i <= v@.len(),
            r@ == v@.take(i as int),
        decreases v@.len() - i,
    {
        let pair = (v[i].0.clone(), v[i].1.clone());
        r.push(pair);
        assert(v@.take(i + 1) == v@.take(i as int).push(v@[i as int]));
        i = i + 1;
    }
    assert(v@.take(v@.len() as int) == v@);
    r
}

fn pane_entry(app: &AppState, ws_idx: usize, d: &PaneDetail) -> (entry: AgentPanelEntry)
    requires
        ws_idx < app.workspaces@.len(),
    ensures
        entry_matches(*app, ws_idx, *d, entry),
{
    let ws = &app.workspaces[ws_idx];
    let multi_tab = ws.tab_auto_named.len() > 1;
    let show_tab = multi_tab || (d.tab_idx < ws.tab_auto_named.len() && !ws.tab_auto_named[d.tab_idx]);
    AgentPanelEntry {
        ws_idx,
        tab_idx: d.tab_idx,
        pane_id: d.pane_id,
        primary_label: ws.display_name.clone(),
        primary_tab_label: if show_tab { Some(d.tab_label.clone()) } else { None },
        pane_label: clone_opt(&d.pane_label),
        terminal_title: clone_opt(&d.terminal_title),
        terminal_title_stripped: clone_opt(&d.terminal_title_stripped),
        agent_label: Some(d.agent_label.clone()),
        agent_kind_label: clone_opt(&d.agent_kind_label),
        agent: clone_opt(&d.agent),
        state: d.state,
        seen: d.seen,
        last_agent_state_change_seq: d.last_agent_state_change_seq,
        state_labels: clone_pairs(&d.state_labels),
        tokens: clone_pairs(&d.tokens),
    }
}

proof fn lemma_lists_panes_append(app: AppState, w: int, front: Seq<AgentPanelEntry>, back: Seq<AgentPanelEntry>)
    requires
        0 <= w < app.workspaces@.len(),
        front.len() == app.workspaces@[w].panes@.len(),
        forall|j: int| 0 <= j < front.len() ==> entry_matches(app, w as usize, #[trigger] app.workspaces@[w].panes@[j], front[j]),
        lists_panes_from(app, w + 1, back),
    ensures
        lists_panes_from(app, w, front + back),
{
    let all = front + back;
    assert(all.skip(front.len() as int) == back);
    assert forall|j: int| 0 <= j < front.len() implies entry_matches(app, w as usize, #[trigger] app.workspaces@[w].panes@[j], all[j]) by {
        assert(all[j] == front[j]);
    }
}

/// One entry per pane of every session, sessions in order and panes in
/// order within each session.  (The terminal runtimes only affect session
/// display names, which the sessions already carry.)
pub fn collect_agent_panel_entries_with_runtimes(app: &AppState) -> (entries: Vec<AgentPanelEntry>)
    ensures
        lists_panes_from(*app, 0, entries@),
        (forall|v: int, j: int| 0 <= v < app.workspaces@.len() && 0 <= j < app.workspaces@[v].panes@.len()
            ==> (#[trigger] app.workspaces@[v].panes@[j]).wf())
            ==> forall|k: int| 0 <= k < entries@.len() ==> (#[trigger] entries@[k]).wf(),
{
    let n = app.workspaces.len();
    let mut blocks: Vec<Vec<AgentPanelEntry>> = Vec::new();
    let mut w: usize = 0;
    while w < n
        invariant
            n == app.workspaces@.len(),
            w <= n,
            blocks@.len() == w,
            forall|b: int| 0 <= b < w ==> (#[trigger] blocks@[b])@.len() == app.workspaces@[b].panes@.len()
                && forall|j: int| 0 <= j < blocks@[b]@.len() ==> entry_matches(*app, b as usize, #[trigger] app.workspaces@[b].panes@[j], blocks@[b]@[j]),
        decreases n - w,
    {
        let ws = &app.workspaces[w];
        let mut block: Vec<AgentPanelEntry> = Vec::new();
        let mut j: usize = 0;
        while j < ws.panes.len()
            invariant
                w < n,
                n == app.workspaces@.len(),
                *ws == app.workspaces@[w as int],
                j <= ws.panes@.len(),
                block@.len() == j,
                forall|k: int| 0 <= k < j ==> entry_matches(*app, w, #[trigger] app.workspaces@[w as int].panes@[k], block@[k]),
            decreases ws.panes@.len() - j,
        {
            let entry = pane_entry(app, w, &ws.panes[j]);
            block.push(entry);
            j = j + 1;
        }
        blocks.push(block);
        w = w + 1;
    }

    // Concatenate the blocks from the last session back to the first.
    let mut entries: Vec<AgentPanelEntry> = Vec::new();
    let mut b = n;
    while b > 0
        invariant
            n == app.workspaces@.len(),
            b <= n,
            blocks@.len() <= n,
            forall|c: int| 0 <= c < b ==> (#[trigger] blocks@[c])@.len() == app.workspaces@[c].panes@.len()
                && forall|j: int| 0 <= j < blocks@[c]@.len() ==> entry_matches(*app, c as usize, #[trigger] app.workspaces@[c].panes@[j], blocks@[c]@[j]),
            blocks@.len() == b,
            lists_panes_from(*app, b as int, entries@),
        decreases b,
    {
        let mut block = blocks.pop().unwrap();
        let ghost front = block@;
        let ghost back = entries@;
        block.append(&mut entries);
        entries = block;
        proof {
            lemma_lists_panes_append(*app, b - 1, front, back);
        }
        b = b - 1;
    }
    proof {
        if forall|v: int, j: int| 0 <= v < app.workspaces@.len() && 0 <= j < app.workspaces@[v].panes@.len()
            ==> (#[trigger] app.workspaces@[v].panes@[j]).wf() {
            law_entries_keep_unique_keys(*app, 0, entries@);
        }
    }
    entries
}

/// Every pane of every session, as the agent panel lists it.
pub fn all_agent_panel_entries(app: &AppState) -> (entries: Vec<AgentPanelEntry>)
    ensures
        lists_panes_from(*app, 0, entries@),
        (forall|v: int, j: int| 0 <= v < app.workspaces@.len() && 0 <= j < app.workspaces@[v].panes@.len()
            ==> (#[trigger] app.workspaces@[v].panes@[j]).wf())
            ==> forall|k: int| 0 <= k < entries@.len() ==> (#[trigger] entries@[k]).wf(),
{
    collect_agent_panel_entries_with_runtimes(app)
}


/// The agent panel has exactly one entry per pane.
pub proof fn law_one_entry_per_pane(app: AppState, w: int, entries: Seq<AgentPanelEntry>)
    requires
        lists_panes_from(app, w, entries),
        0 <= w,
    ensures
        entries.len() == panes_from(app.workspaces@, w),
    decreases app.workspaces@.len() - w,
{
    if w < app.workspaces@.len() {
        let n = app.workspaces@[w].panes@.len() as int;
        law_one_entry_per_pane(app, w + 1, entries.skip(n));
    }
}

/// The first label of `labels` from `i` on whose key is `key`.
pub open spec fn label_for(labels: Seq<(String, String)>, key: Seq<char>, i: int) -> Option<Seq<char>>
    decreases labels.len() - i,
{
    if i < 0 || i >= labels.len() {
        None
    } else if labels[i].0@ == key {
        Some(labels[i].1@)
    } else {
        label_for(labels, key, i + 1)
    }
}

/// The entry's custom label for its status (keyed by its status key), if
/// the user configured one; the default label applies otherwise.
pub fn custom_state_label(entry: &AgentPanelEntry) -> (label: Option<String>)
    requires
        entry.wf(),
    ensures
        match label_for(entry.state_labels@, status_key(entry.state, entry.seen), 0) {
            Some(l) => label matches Some(s) && s@ == l,
            None => label is None,
        },
{
    let key = agent_panel_status_key(entry.state, entry.seen);
    let mut i: usize = 0;
    while i < entry.state_labels.len()
        invariant
            i <= entry.state_labels@.len(),
            key@ == status_key(entry.state, entry.seen),
            label_for(entry.state_labels@, key@, i as int) == label_for(entry.state_labels@, key@, 0),
        decreases entry.state_labels@.len() - i,
    {
        let pair = &entry.state_labels[i];
        if same_text(pair.0.as_str(), key) {
            return Some(pair.1.clone());
        }
        i = i + 1;
    }
    None
}

proof fn lemma_label_from(labels: Seq<(String, String)>, key: Seq<char>, start: int, i: int)
    requires
        keys_unique(labels),
        0 <= start <= i < labels.len(),
        labels[i].0@ == key,
    ensures
        label_for(labels, key, start) == Some(labels[i].1@),
    decreases i - start,
{
    if start < i {
        lemma_label_from(labels, key, start + 1, i);
    }
}

/// Where each key occurs once, the label found for a key is the one paired
/// with it, wherever the pair stands: the pairs behave as a map.
pub proof fn law_label_is_the_keyed_one(labels: Seq<(String, String)>, key: Seq<char>, i: int)
    requires
        keys_unique(labels),
        0 <= i < labels.len(),
        labels[i].0@ == key,
    ensures
        label_for(labels, key, 0) == Some(labels[i].1@),
{
    lemma_label_from(labels, key, 0, i);
}

/// Entries made from panes whose labels and tokens are maps have maps for
/// labels and tokens too.
pub proof fn law_entries_keep_unique_keys(app: AppState, w: int, entries: Seq<AgentPanelEntry>)
    requires
        lists_panes_from(app, w, entries),
        0 <= w,
        forall|v: int, j: int| 0 <= v < app.workspaces@.len() && 0 <= j < app.workspaces@[v].panes@.len()
            ==> (#[trigger] app.workspaces@[v].panes@[j]).wf(),
    ensures
        forall|k: int| 0 <= k < entries.len() ==> (#[trigger] entries[k]).wf(),
    decreases app.workspaces@.len() - w,
{
    if w < app.workspaces@.len() {
        let n = app.workspaces@[w].panes@.len() as int;
        law_entries_keep_unique_keys(app, w + 1, entries.skip(n));
        assert forall|k: int| 0 <= k < entries.len() implies (#[trigger] entries[k]).wf() by {
            if k < n {
                assert(entry_matches(app, w as usize, app.workspaces@[w].panes@[k], entries[k]));
                assert(app.workspaces@[w].panes@[k].wf());
            } else {
                assert(entries[k] == entries.skip(n)[k - n]);
            }
        }
    }
}
} // verus!
