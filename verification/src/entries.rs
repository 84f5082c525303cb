//! The order of rows in the session list: active sessions by recency, then
//! the settled archive behind its header, collapsed to a preview.
use vstd::prelude::*;
use crate::model::{AppState, Workspace};

verus! {

/// A row of the session list.
#[derive(Debug, Clone, PartialEq, Eq, Structural)]
pub enum WorkspaceListEntry {
    Workspace { ws_idx: usize, indented: bool },
    SettledHeader,
    SettledShowMore,
}

/// `a` is more recent than `b`; a missing stamp is older than any stamp.
pub open spec fn stamp_newer(a: Option<i64>, b: Option<i64>) -> bool {
    match (a, b) {
        (Some(x), Some(y)) => x > y,
        (Some(_), None) => true,
        _ => false,
    }
}

/// Active session `a` is listed before active session `b`: more recent
/// activity first, and on equal activity the earlier session first.
pub open spec fn active_before(wss: Seq<Workspace>, a: int, b: int) -> bool {
    ||| stamp_newer(wss[a].last_activity, wss[b].last_activity)
    ||| (wss[a].last_activity == wss[b].last_activity && a < b)
}

/// Settled session `a` is listed before settled session `b`: settled more
/// recently first, then more recent activity, then the earlier session.
pub open spec fn settled_before(wss: Seq<Workspace>, a: int, b: int) -> bool {
    ||| stamp_newer(wss[a].settled, wss[b].settled)
    ||| (wss[a].settled == wss[b].settled && stamp_newer(wss[a].last_activity, wss[b].last_activity))
    ||| (wss[a].settled == wss[b].settled && wss[a].last_activity == wss[b].last_activity && a < b)
}

/// Within its part of the list (the archive when `settled`, the active
/// sessions otherwise), session `a` is listed before session `b`.
pub open spec fn listed_before(wss: Seq<Workspace>, settled: bool, a: int, b: int) -> bool {
    if settled { settled_before(wss, a, b) } else { active_before(wss, a, b) }
}

/// `order` lists once each session of `wss` that is settled when `settled`
/// and active otherwise, in list order.
pub open spec fn is_part_order(wss: Seq<Workspace>, settled: bool, order: Seq<usize>) -> bool {
    &&& forall|i: int| 0 <= i < order.len() ==> #[trigger] order[i] < wss.len() && wss[order[i] as int].is_settled_spec() == settled
    &&& forall|i: int, j: int| 0 <= i < j < order.len() ==> listed_before(wss, settled, #[trigger] order[i] as int, #[trigger] order[j] as int)
    &&& forall|k: int| 0 <= k < wss.len() && (#[trigger] wss[k]).is_settled_spec() == settled ==> order.contains(k as usize)
}

/// `order` lists every active session of `wss` once, in list order.
pub open spec fn is_active_order(wss: Seq<Workspace>, order: Seq<usize>) -> bool {
    is_part_order(wss, false, order)
}

/// `order` lists every settled session of `wss` once, in archive order.
pub open spec fn is_settled_order(wss: Seq<Workspace>, order: Seq<usize>) -> bool {
    is_part_order(wss, true, order)
}

/// The archive is collapsed behind "Show N more".
pub open spec fn settled_collapsed(n_settled: nat, preview: usize, expanded: bool) -> bool {
    !expanded && n_settled > preview
}

/// Session rows for the given indices.
pub open spec fn workspace_rows(order: Seq<usize>) -> Seq<WorkspaceListEntry> {
    order.map_values(|k: usize| WorkspaceListEntry::Workspace { ws_idx: k, indented: false })
}

/// The list: active rows; then, when anything is settled, the header, the
/// settled rows (only the first `preview` when collapsed) and, when
/// collapsed, the "show more" row.
pub open spec fn list_rows(active: Seq<usize>, settled: Seq<usize>, preview: usize, expanded: bool) -> Seq<WorkspaceListEntry> {
    if settled.len() == 0 {
        workspace_rows(active)
    } else {
        let collapsed = settled_collapsed(settled.len(), preview, expanded);
        let shown = if collapsed { settled.take(preview as int) } else { settled };
        workspace_rows(active) + seq![WorkspaceListEntry::SettledHeader] + workspace_rows(shown)
            + if collapsed { seq![WorkspaceListEntry::SettledShowMore] } else { Seq::empty() }
    }
}

/// What `workspace_list_entries` returns for `app`.
pub open spec fn is_list_of(app: AppState, entries: Seq<WorkspaceListEntry>) -> bool {
    exists|active: Seq<usize>, settled: Seq<usize>|
        #![trigger is_active_order(app.workspaces@, active), is_settled_order(app.workspaces@, settled)]
        is_active_order(app.workspaces@, active) && is_settled_order(app.workspaces@, settled)
            && entries == list_rows(active, settled, app.sidebar_spaces.settled_preview, app.settled_expanded)
}

fn stamp_newer_exec(a: Option<i64>, b: Option<i64>) -> (r: bool)
    ensures
        r == stamp_newer(a, b),
{
    match (a, b) {
        (Some(x), Some(y)) => x > y,
        (Some(_), None) => true,
        _ => false,
    }
}

fn active_before_exec(wss: &Vec<Workspace>, a: usize, b: usize) -> (r: bool)
    requires
        a < wss@.len(),
        b < wss@.len(),
    ensures
        r == active_before(wss@, a as int, b as int),
{
    let la = wss[a].last_activity;
    let lb = wss[b].last_activity;
    stamp_newer_exec(la, lb) || (la == lb && a < b)
}

fn settled_before_exec(wss: &Vec<Workspace>, a: usize, b: usize) -> (r: bool)
    requires
        a < wss@.len(),
        b < wss@.len(),
    ensures
        r == settled_before(wss@, a as int, b as int),
{
    let sa = wss[a].settled;
    let sb = wss[b].settled;
    let la = wss[a].last_activity;
    let lb = wss[b].last_activity;
    stamp_newer_exec(sa, sb) || (sa == sb && stamp_newer_exec(la, lb)) || (sa == sb && la == lb && a < b)
}

fn listed_before_exec(wss: &Vec<Workspace>, settled: bool, a: usize, b: usize) -> (r: bool)
    requires
        a < wss@.len(),
        b < wss@.len(),
    ensures
        r == listed_before(wss@, settled, a as int, b as int),
{
    if settled { settled_before_exec(wss, a, b) } else { active_before_exec(wss, a, b) }
}

/// The settled sessions (when `settled`) or the active ones, in list order:
/// each is inserted after those listed before it.
fn sorted_part(wss: &Vec<Workspace>, settled: bool) -> (order: Vec<usize>)
    ensures
        is_part_order(wss@, settled, order@),
{
    let mut order: Vec<usize> = Vec::new();
    let n = wss.len();
    let mut k: usize = 0;
    while k < n
        invariant
            n == wss@.len(),
            k <= n,
            forall|i: int| 0 <= i < order@.len() ==> #[trigger] order@[i] < k && wss@[order@[i] as int].is_settled_spec() == settled,
            forall|i: int, j: int| 0 <= i < j < order@.len() ==> listed_before(wss@, settled, #[trigger] order@[i] as int, #[trigger] order@[j] as int),
            forall|m: int| 0 <= m < k && (#[trigger] wss@[m]).is_settled_spec() == settled ==> order@.contains(m as usize),
        decreases n - k,
    {
        if wss[k].is_settled() == settled {
            let mut p: usize = 0;
            while p < order.len() && listed_before_exec(wss, settled, order[p], k)
                invariant
                    n == wss@.len(),
                    k < n,
                    p <= order@.len(),
                    forall|i: int| 0 <= i < order@.len() ==> #[trigger] order@[i] < k,
                    forall|i: int| 0 <= i < p ==> listed_before(wss@, settled, #[trigger] order@[i] as int, k as int),
                decreases order@.len() - p,
            {
                p = p + 1;
            }
            let ghost old_order = order@;
            proof {
                if p < old_order.len() {
                    assert(!listed_before(wss@, settled, old_order[p as int] as int, k as int));
                }
            }
            order.insert(p, k);
            assert forall|i: int, j: int| 0 <= i < j < order@.len() implies listed_before(wss@, settled, #[trigger] order@[i] as int, #[trigger] order@[j] as int) by {
                if j == p {
                } else if i == p {
                    assert(order@[j] == old_order[j - 1]);
                    if j - 1 > p {
                        assert(listed_before(wss@, settled, old_order[p as int] as int, old_order[j - 1] as int));
                    }
                } else {
                }
            }
            assert forall|m: int| 0 <= m < k + 1 && (#[trigger] wss@[m]).is_settled_spec() == settled implies order@.contains(m as usize) by {
                if m == k {
                    assert(order@[p as int] == k);
                } else {
                    assert(old_order.contains(m as usize));
                    let q = choose|q: int| 0 <= q < old_order.len() && old_order[q] == m as usize;
                    if q < p {
                        assert(order@[q] == m as usize);
                    } else {
                        assert(order@[q + 1] == m as usize);
                    }
                }
            }
        }
        k = k + 1;
    }
    order
}


fn push_workspace_rows(entries: &mut Vec<WorkspaceListEntry>, order: &Vec<usize>, count: usize)
    requires
        count <= order@.len(),
    ensures
        final(entries)@ == old(entries)@ + workspace_rows(order@.take(count as int)),
{
    let mut i: usize = 0;
    while i < count
        invariant
            count <= order@.len(),
            i <= count,
            entries@ == old(entries)@ + workspace_rows(order@.take(i as int)),
        decreases count - i,
    {
        entries.push(WorkspaceListEntry::Workspace { ws_idx: order[i], indented: false });
        assert(order@.take(i + 1) == order@.take(i as int).push(order@[i as int]));
        assert(workspace_rows(order@.take(i + 1)) == workspace_rows(order@.take(i as int)).push(
            WorkspaceListEntry::Workspace { ws_idx: order@[i as int], indented: false }));
        i = i + 1;
    }
}

/// The rows of the session list.  `force_expanded` is accepted for callers
/// that always want full worktree groups; sessions have no groups, so it
/// changes nothing.
pub fn workspace_list_entries_inner(app: &AppState, force_expanded: bool) -> (entries: Vec<WorkspaceListEntry>)
    ensures
        is_list_of(*app, entries@),
{
    let _ = force_expanded;
    let preview = app.sidebar_spaces.settled_preview;
    let active = sorted_part(&app.workspaces, false);
    let settled = sorted_part(&app.workspaces, true);
    assert(is_active_order(app.workspaces@, active@));
    assert(is_settled_order(app.workspaces@, settled@));

    let mut entries: Vec<WorkspaceListEntry> = Vec::new();
    push_workspace_rows(&mut entries, &active, active.len());
    assert(active@.take(active@.len() as int) == active@);
    if settled.len() > 0 {
        entries.push(WorkspaceListEntry::SettledHeader);
        let collapsed = !app.settled_expanded && settled.len() > preview;
        let visible = if collapsed { preview } else { settled.len() };
        push_workspace_rows(&mut entries, &settled, visible);
        assert(settled@.take(settled@.len() as int) == settled@);
        if collapsed {
            entries.push(WorkspaceListEntry::SettledShowMore);
        }
    }
    assert(entries@ == list_rows(active@, settled@, preview, app.settled_expanded));
    entries
}

/// The rows of the session list.
pub fn workspace_list_entries(app: &AppState) -> (entries: Vec<WorkspaceListEntry>)
    ensures
        is_list_of(*app, entries@),
        entries@ == session_list(*app),
{
    let entries = workspace_list_entries_inner(app, false);
    proof { lemma_session_list(*app, entries@); }
    entries
}

/// The rows of the session list for views without a collapse affordance;
/// the same rows as [`workspace_list_entries`].
pub fn workspace_list_entries_expanded(app: &AppState) -> (entries: Vec<WorkspaceListEntry>)
    ensures
        is_list_of(*app, entries@),
        entries@ == session_list(*app),
{
    let entries = workspace_list_entries_inner(app, true);
    proof { lemma_session_list(*app, entries@); }
    entries
}

/// Whether the row after `idx` is an indented session row.
pub fn next_entry_is_indented_workspace(entries: &Vec<WorkspaceListEntry>, idx: usize) -> (b: bool)
    ensures
        b == (idx + 1 < entries@.len() && entries@[idx + 1] matches WorkspaceListEntry::Workspace { indented: true, .. }),
{
    let next = idx.saturating_add(1);
    if next < entries.len() {
        match &entries[next] {
            WorkspaceListEntry::Workspace { indented, .. } => *indented,
            _ => false,
        }
    } else {
        false
    }
}

/// The number of settled sessions.
pub open spec fn settled_count(wss: Seq<Workspace>) -> nat
    decreases wss.len(),
{
    if wss.len() == 0 {
        0
    } else {
        settled_count(wss.drop_last()) + if wss.last().is_settled_spec() { 1nat } else { 0nat }
    }
}

/// Two listings sorted by the same strict order over the same members are
/// the same listing.
proof fn lemma_sorted_unique(o1: Seq<usize>, o2: Seq<usize>, before: spec_fn(int, int) -> bool)
    requires
        forall|a: int, b: int| #[trigger] before(a, b) ==> !before(b, a),
        forall|i: int, j: int| 0 <= i < j < o1.len() ==> before(#[trigger] o1[i] as int, #[trigger] o1[j] as int),
        forall|i: int, j: int| 0 <= i < j < o2.len() ==> before(#[trigger] o2[i] as int, #[trigger] o2[j] as int),
        forall|x: usize| o1.contains(x) <==> o2.contains(x),
    ensures
        o1 == o2,
    decreases o1.len(),
{
    if o1.len() == 0 {
        if o2.len() > 0 {
            assert(o2.contains(o2[0]));
        }
        assert(o1 =~= o2);
    } else {
        assert(o1.contains(o1[0]));
        assert(o2.len() > 0);
        assert(o2.contains(o2[0]));
        if o1[0] != o2[0] {
            let q = choose|q: int| 0 <= q < o2.len() && o2[q] == o1[0];
            let r = choose|r: int| 0 <= r < o1.len() && o1[r] == o2[0];
            assert(q > 0);
            assert(r > 0);
            assert(before(o2[0] as int, o2[q] as int));
            assert(before(o1[0] as int, o1[r] as int));
        }
        let t1 = o1.drop_first();
        let t2 = o2.drop_first();
        assert forall|x: usize| t1.contains(x) <==> t2.contains(x) by {
            if t1.contains(x) {
                let i = choose|i: int| 0 <= i < t1.len() && t1[i] == x;
                assert(o1[i + 1] == x);
                assert(before(o1[0] as int, o1[i + 1] as int));
                assert(o1.contains(x));
                let j = choose|j: int| 0 <= j < o2.len() && o2[j] == x;
                if j == 0 {
                    assert(false);
                }
                assert(t2[j - 1] == x);
            }
            if t2.contains(x) {
                let i = choose|i: int| 0 <= i < t2.len() && t2[i] == x;
                assert(o2[i + 1] == x);
                assert(before(o2[0] as int, o2[i + 1] as int));
                assert(o2.contains(x));
                let j = choose|j: int| 0 <= j < o1.len() && o1[j] == x;
                if j == 0 {
                    assert(false);
                }
                assert(t1[j - 1] == x);
            }
        }
        assert forall|i: int, j: int| 0 <= i < j < t1.len() implies before(#[trigger] t1[i] as int, #[trigger] t1[j] as int) by {
            assert(before(o1[i + 1] as int, o1[j + 1] as int));
        }
        assert forall|i: int, j: int| 0 <= i < j < t2.len() implies before(#[trigger] t2[i] as int, #[trigger] t2[j] as int) by {
            assert(before(o2[i + 1] as int, o2[j + 1] as int));
        }
        lemma_sorted_unique(t1, t2, before);
        assert(o1 =~= seq![o1[0]] + t1);
        assert(o2 =~= seq![o2[0]] + t2);
    }
}

/// There is one list for each application state: the order of the rows is
/// fully determined by the sessions' stamps and positions.
pub proof fn law_list_is_determined(app: AppState, e1: Seq<WorkspaceListEntry>, e2: Seq<WorkspaceListEntry>)
    requires
        is_list_of(app, e1),
        is_list_of(app, e2),
    ensures
        e1 == e2,
{
    let wss = app.workspaces@;
    let (a1, s1) = choose|active: Seq<usize>, settled: Seq<usize>|
        is_active_order(wss, active) && is_settled_order(wss, settled)
            && e1 == list_rows(active, settled, app.sidebar_spaces.settled_preview, app.settled_expanded);
    let (a2, s2) = choose|active: Seq<usize>, settled: Seq<usize>|
        is_active_order(wss, active) && is_settled_order(wss, settled)
            && e2 == list_rows(active, settled, app.sidebar_spaces.settled_preview, app.settled_expanded);
    let ab = |a: int, b: int| active_before(wss, a, b);
    let sb = |a: int, b: int| settled_before(wss, a, b);
    assert forall|x: usize| a1.contains(x) <==> a2.contains(x) by {
        if a1.contains(x) {
            let i = choose|i: int| 0 <= i < a1.len() && a1[i] == x;
            assert(!wss[a1[i] as int].is_settled_spec());
        }
        if a2.contains(x) {
            let i = choose|i: int| 0 <= i < a2.len() && a2[i] == x;
            assert(!wss[a2[i] as int].is_settled_spec());
        }
    }
    assert forall|x: usize| s1.contains(x) <==> s2.contains(x) by {
        if s1.contains(x) {
            let i = choose|i: int| 0 <= i < s1.len() && s1[i] == x;
            assert(wss[s1[i] as int].is_settled_spec());
        }
        if s2.contains(x) {
            let i = choose|i: int| 0 <= i < s2.len() && s2[i] == x;
            assert(wss[s2[i] as int].is_settled_spec());
        }
    }
    assert forall|i: int, j: int| 0 <= i < j < a1.len() implies ab(#[trigger] a1[i] as int, #[trigger] a1[j] as int) by {}
    assert forall|i: int, j: int| 0 <= i < j < a2.len() implies ab(#[trigger] a2[i] as int, #[trigger] a2[j] as int) by {}
    assert forall|i: int, j: int| 0 <= i < j < s1.len() implies sb(#[trigger] s1[i] as int, #[trigger] s1[j] as int) by {}
    assert forall|i: int, j: int| 0 <= i < j < s2.len() implies sb(#[trigger] s2[i] as int, #[trigger] s2[j] as int) by {}
    lemma_sorted_unique(a1, a2, ab);
    lemma_sorted_unique(s1, s2, sb);
}

/// The number of active sessions.
pub open spec fn active_count(wss: Seq<Workspace>) -> nat
    decreases wss.len(),
{
    if wss.len() == 0 {
        0
    } else {
        active_count(wss.drop_last()) + if wss.last().is_settled_spec() { 0nat } else { 1nat }
    }
}

/// Every session is either active or settled.
pub proof fn lemma_counts_add_up(wss: Seq<Workspace>)
    ensures
        active_count(wss) + settled_count(wss) == wss.len(),
    decreases wss.len(),
{
    if wss.len() > 0 {
        lemma_counts_add_up(wss.drop_last());
    }
}
/// A settled order lists as many sessions as there are settled sessions,
/// and an active order as many as there are active ones.
pub proof fn lemma_part_order_len(wss: Seq<Workspace>, settled: bool, order: Seq<usize>)
    requires
        is_part_order(wss, settled, order),
        wss.len() <= usize::MAX,
    ensures
        order.len() == if settled { settled_count(wss) } else { active_count(wss) },
    decreases wss.len(),
{
    if wss.len() == 0 {
        if order.len() > 0 {
            assert(order[0] < wss.len());
        }
    } else {
        let n = wss.len() - 1;
        let w2 = wss.drop_last();
        if wss.last().is_settled_spec() == settled {
            assert(wss[n].is_settled_spec() == settled);
            assert(order.contains(n as usize));
            let p = choose|p: int| 0 <= p < order.len() && order[p] == n as usize;
            let o2 = order.remove(p);
            assert forall|i: int| 0 <= i < o2.len() implies #[trigger] o2[i] < w2.len() && w2[o2[i] as int].is_settled_spec() == settled by {
                if i < p {
                    assert(o2[i] == order[i]);
                    assert(listed_before(wss, settled, order[i] as int, order[p] as int));
                    assert(order[i] != order[p]);
                } else {
                    assert(o2[i] == order[i + 1]);
                    assert(listed_before(wss, settled, order[p] as int, order[i + 1] as int));
                    assert(order[i + 1] != order[p]);
                }
            }
            assert forall|i: int, j: int| 0 <= i < j < o2.len() implies listed_before(w2, settled, #[trigger] o2[i] as int, #[trigger] o2[j] as int) by {
                let ii = if i < p { i } else { i + 1 };
                let jj = if j < p { j } else { j + 1 };
                assert(o2[i] == order[ii]);
                assert(o2[j] == order[jj]);
                assert(listed_before(wss, settled, order[ii] as int, order[jj] as int));
            }
            assert forall|k: int| 0 <= k < w2.len() && (#[trigger] w2[k]).is_settled_spec() == settled implies o2.contains(k as usize) by {
                assert(wss[k] == w2[k]);
                assert(order.contains(k as usize));
                let q = choose|q: int| 0 <= q < order.len() && order[q] == k as usize;
                if q < p {
                    assert(o2[q] == k as usize);
                } else {
                    assert(k as usize != n as usize);
                    assert(q != p);
                    assert(o2[q - 1] == k as usize);
                }
            }
            lemma_part_order_len(w2, settled, o2);
        } else {
            assert forall|i: int| 0 <= i < order.len() implies #[trigger] order[i] < w2.len() && w2[order[i] as int].is_settled_spec() == settled by {
                assert(order[i] != n);
            }
            assert forall|k: int| 0 <= k < w2.len() && (#[trigger] w2[k]).is_settled_spec() == settled implies order.contains(k as usize) by {
                assert(wss[k] == w2[k]);
            }
            lemma_part_order_len(w2, settled, order);
        }
    }
}

/// Row `p` of `e` is the row of session `k`.
pub open spec fn row_of(e: Seq<WorkspaceListEntry>, p: int, k: usize) -> bool {
    0 <= p < e.len() && e[p] == (WorkspaceListEntry::Workspace { ws_idx: k, indented: false })
}

/// Some row of `e` is the row of session `k`.
pub open spec fn has_row(e: Seq<WorkspaceListEntry>, k: usize) -> bool {
    exists|p: int| row_of(e, p, k)
}

proof fn lemma_rows_index(order: Seq<usize>, i: int)
    requires
        0 <= i < order.len(),
    ensures
        workspace_rows(order)[i] == (WorkspaceListEntry::Workspace { ws_idx: order[i], indented: false }),
        workspace_rows(order).len() == order.len(),
{
}

proof fn lemma_session_has_row(wss: Seq<Workspace>, a: Seq<usize>, s: Seq<usize>, preview: usize, expanded: bool, e: Seq<WorkspaceListEntry>, k: usize)
    requires
        is_active_order(wss, a),
        is_settled_order(wss, s),
        !settled_collapsed(s.len(), preview, expanded),
        e == list_rows(a, s, preview, expanded),
        k < wss.len(),
    ensures
        has_row(e, k),
{
    let na = a.len() as int;
    if wss[k as int].is_settled_spec() {
        assert(s.contains(k));
        let j = choose|j: int| 0 <= j < s.len() && s[j] == k;
        lemma_rows_index(s, j);
        assert(e[na + 1 + j] == workspace_rows(s)[j]);
        assert(row_of(e, na + 1 + j, k));
    } else {
        assert(a.contains(k));
        let i = choose|i: int| 0 <= i < a.len() && a[i] == k;
        lemma_rows_index(a, i);
        assert(e[i] == workspace_rows(a)[i]);
        assert(row_of(e, i, k));
    }
}

/// Unless the archive is collapsed behind "Show N more", every session has
/// exactly one row in the list.
pub proof fn law_every_session_listed_once(app: AppState, e: Seq<WorkspaceListEntry>)
    requires
        is_list_of(app, e),
        app.workspaces@.len() <= usize::MAX,
        !settled_collapsed(settled_count(app.workspaces@), app.sidebar_spaces.settled_preview, app.settled_expanded),
    ensures
        forall|k: usize| k < app.workspaces@.len() ==> #[trigger] has_row(e, k),
        forall|p: int, q: int, k: usize| #[trigger] row_of(e, p, k) && #[trigger] row_of(e, q, k) ==> p == q,
{
    let wss = app.workspaces@;
    let (a, s) = choose|active: Seq<usize>, settled: Seq<usize>|
        is_active_order(wss, active) && is_settled_order(wss, settled)
            && e == list_rows(active, settled, app.sidebar_spaces.settled_preview, app.settled_expanded);
    lemma_part_order_len(wss, true, s);
    let na = a.len() as int;
    assert forall|k: usize| k < app.workspaces@.len() implies #[trigger] has_row(e, k) by {
        lemma_session_has_row(wss, a, s, app.sidebar_spaces.settled_preview, app.settled_expanded, e, k);
    }
    assert forall|p: int, q: int, k: usize| #[trigger] row_of(e, p, k) && #[trigger] row_of(e, q, k) implies p == q by {
        if s.len() > 0 {
            assert(e.len() == na + 1 + s.len());
        }
        if p < na {
            lemma_rows_index(a, p);
        } else if p > na {
            lemma_rows_index(s, p - na - 1);
        }
        if q < na {
            lemma_rows_index(a, q);
        } else if q > na {
            lemma_rows_index(s, q - na - 1);
        }
        if p < na && q < na && p != q {
            if p < q {
                assert(active_before(wss, a[p] as int, a[q] as int));
            } else {
                assert(active_before(wss, a[q] as int, a[p] as int));
            }
        }
        if p > na && q > na && p != q {
            if p < q {
                assert(settled_before(wss, s[p - na - 1] as int, s[q - na - 1] as int));
            } else {
                assert(settled_before(wss, s[q - na - 1] as int, s[p - na - 1] as int));
            }
        }
        if p < na && q > na {
            assert(!wss[a[p] as int].is_settled_spec());
            assert(wss[s[q - na - 1] as int].is_settled_spec());
        }
        if q < na && p > na {
            assert(!wss[a[q] as int].is_settled_spec());
            assert(wss[s[p - na - 1] as int].is_settled_spec());
        }
    }
}

/// The "Show N more" row is present exactly when the archive is collapsed;
/// it is then the last row, and the list shows every active session, the
/// header and `settled_preview` settled sessions.  Without settled sessions
/// there is no header.
pub proof fn law_show_more_iff_collapsed(app: AppState, e: Seq<WorkspaceListEntry>)
    requires
        is_list_of(app, e),
        app.workspaces@.len() <= usize::MAX,
    ensures
        e.contains(WorkspaceListEntry::SettledShowMore)
            <==> settled_collapsed(settled_count(app.workspaces@), app.sidebar_spaces.settled_preview, app.settled_expanded),
        settled_collapsed(settled_count(app.workspaces@), app.sidebar_spaces.settled_preview, app.settled_expanded) ==> {
            &&& e.last() == WorkspaceListEntry::SettledShowMore
            &&& e.len() == active_count(app.workspaces@) + app.sidebar_spaces.settled_preview + 2
        },
        !settled_collapsed(settled_count(app.workspaces@), app.sidebar_spaces.settled_preview, app.settled_expanded) ==>
            e.len() == app.workspaces@.len() + if settled_count(app.workspaces@) > 0 { 1int } else { 0int },
        settled_count(app.workspaces@) == 0 <==> !e.contains(WorkspaceListEntry::SettledHeader),
{
    let wss = app.workspaces@;
    let preview = app.sidebar_spaces.settled_preview;
    let (a, s) = choose|active: Seq<usize>, settled: Seq<usize>|
        is_active_order(wss, active) && is_settled_order(wss, settled)
            && e == list_rows(active, settled, preview, app.settled_expanded);
    lemma_part_order_len(wss, true, s);
    lemma_part_order_len(wss, false, a);
    lemma_counts_add_up(wss);
    let na = a.len() as int;
    let collapsed = settled_collapsed(s.len(), preview, app.settled_expanded);
    let shown = if collapsed { s.take(preview as int) } else { s };
    assert forall|p: int| 0 <= p < na implies e[p] is Workspace by {
        lemma_rows_index(a, p);
    }
    if s.len() > 0 {
        assert forall|p: int| na < p < na + 1 + shown.len() implies e[p] is Workspace by {
            lemma_rows_index(shown, p - na - 1);
        }
        assert(e[na] == WorkspaceListEntry::SettledHeader);
        if collapsed {
            assert(e[e.len() - 1] == WorkspaceListEntry::SettledShowMore);
            assert(e.contains(WorkspaceListEntry::SettledShowMore));
        } else {
            if e.contains(WorkspaceListEntry::SettledShowMore) {
                let p = choose|p: int| 0 <= p < e.len() && e[p] == WorkspaceListEntry::SettledShowMore;
                assert(e[p] is Workspace || e[p] == WorkspaceListEntry::SettledHeader);
            }
        }
        assert(e.contains(WorkspaceListEntry::SettledHeader));
    } else {
        if e.contains(WorkspaceListEntry::SettledShowMore) {
            let p = choose|p: int| 0 <= p < e.len() && e[p] == WorkspaceListEntry::SettledShowMore;
            assert(e[p] is Workspace);
        }
        if e.contains(WorkspaceListEntry::SettledHeader) {
            let p = choose|p: int| 0 <= p < e.len() && e[p] == WorkspaceListEntry::SettledHeader;
            assert(e[p] is Workspace);
        }
    }
}

/// Active sessions come first, most recent activity first; the settled
/// header follows every active row and precedes every settled row, and
/// settled rows come most recently settled first.
pub proof fn law_recency_order(app: AppState, e: Seq<WorkspaceListEntry>)
    requires
        is_list_of(app, e),
    ensures
        forall|p: int, q: int, j: usize, k: usize|
            p < q && row_of(e, p, j) && row_of(e, q, k) && !app.workspaces@[k as int].is_settled_spec()
                ==> !app.workspaces@[j as int].is_settled_spec()
                && !stamp_newer(app.workspaces@[k as int].last_activity, app.workspaces@[j as int].last_activity),
        forall|p: int, q: int, j: usize, k: usize|
            p < q && row_of(e, p, j) && row_of(e, q, k) && app.workspaces@[j as int].is_settled_spec()
                ==> app.workspaces@[k as int].is_settled_spec()
                && !stamp_newer(app.workspaces@[k as int].settled, app.workspaces@[j as int].settled),
        forall|p: int, h: int, k: usize|
            row_of(e, p, k) && 0 <= h < e.len() && e[h] == WorkspaceListEntry::SettledHeader
                ==> (p < h <==> !app.workspaces@[k as int].is_settled_spec()),
{
    let wss = app.workspaces@;
    let preview = app.sidebar_spaces.settled_preview;
    let (a, s) = choose|active: Seq<usize>, settled: Seq<usize>|
        is_active_order(wss, active) && is_settled_order(wss, settled)
            && e == list_rows(active, settled, preview, app.settled_expanded);
    let na = a.len() as int;
    let collapsed = settled_collapsed(s.len(), preview, app.settled_expanded);
    let shown = if collapsed { s.take(preview as int) } else { s };
    assert forall|p: int, k: usize| row_of(e, p, k) implies
        (p < na && a[p] == k) || (s.len() > 0 && na < p < na + 1 + shown.len() && shown[p - na - 1] == k) by {
        if p < na {
            lemma_rows_index(a, p);
        } else if s.len() > 0 && na < p < na + 1 + shown.len() {
            lemma_rows_index(shown, p - na - 1);
        }
    }
    assert forall|h: int| 0 <= h < e.len() && e[h] == WorkspaceListEntry::SettledHeader implies h == na by {
        if h < na {
            lemma_rows_index(a, h);
        } else if s.len() > 0 && na < h < na + 1 + shown.len() {
            lemma_rows_index(shown, h - na - 1);
        }
    }
    assert forall|p: int, q: int, j: usize, k: usize|
        p < q && row_of(e, p, j) && row_of(e, q, k) && !wss[k as int].is_settled_spec()
        implies !wss[j as int].is_settled_spec() && !stamp_newer(wss[k as int].last_activity, wss[j as int].last_activity) by {
        if q > na {
            assert(wss[s[q - na - 1] as int].is_settled_spec());
        }
        assert(active_before(wss, a[p] as int, a[q] as int));
    }
    assert forall|p: int, q: int, j: usize, k: usize|
        p < q && row_of(e, p, j) && row_of(e, q, k) && wss[j as int].is_settled_spec()
        implies wss[k as int].is_settled_spec() && !stamp_newer(wss[k as int].settled, wss[j as int].settled) by {
        if p < na {
            assert(!wss[a[p] as int].is_settled_spec());
        }
        assert(settled_before(wss, s[p - na - 1] as int, s[q - na - 1] as int));
    }
    assert forall|p: int, h: int, k: usize|
        row_of(e, p, k) && 0 <= h < e.len() && e[h] == WorkspaceListEntry::SettledHeader
        implies (p < h <==> !wss[k as int].is_settled_spec()) by {
        if p < na {
            assert(!wss[a[p] as int].is_settled_spec());
        } else {
            assert(wss[s[p - na - 1] as int].is_settled_spec());
        }
    }
}

/// The rows of the session list of `app`.
pub open spec fn session_list(app: AppState) -> Seq<WorkspaceListEntry> {
    choose|e: Seq<WorkspaceListEntry>| is_list_of(app, e)
}

/// Any list that meets `is_list_of` is the session list.
pub proof fn lemma_session_list(app: AppState, e: Seq<WorkspaceListEntry>)
    requires
        is_list_of(app, e),
    ensures
        session_list(app) == e,
{
    law_list_is_determined(app, session_list(app), e);
}
} // verus!
