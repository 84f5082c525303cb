//! Drop slots for dragging a session in the list: the row above each
//! visible session block, and the row after the last visible session.
use vstd::prelude::*;
use crate::geometry::Rect;
use crate::model::AppState;
use crate::entries::{WorkspaceListEntry, session_list};
use crate::scroll::WorkspaceCardArea;

verus! {

/// Where a dragged session would land.
#[derive(Debug, Clone, Copy, PartialEq, Eq, Structural)]
pub enum WorkspaceDropTarget {
    Before(usize),
    End,
}

/// Entry `p` of `e` is a row of session `k`.
pub open spec fn is_row_of(e: Seq<WorkspaceListEntry>, p: int, k: usize) -> bool {
    e[p] matches WorkspaceListEntry::Workspace { ws_idx, .. } && ws_idx == k
}

/// The first row of session `k` at or after `i`.
pub open spec fn position_from(e: Seq<WorkspaceListEntry>, k: usize, i: int) -> Option<int>
    decreases e.len() - i,
{
    if i < 0 || i >= e.len() {
        None
    } else if is_row_of(e, i, k) {
        Some(i)
    } else {
        position_from(e, k, i + 1)
    }
}

/// The session of the nearest session row at or before `i`.
pub open spec fn root_at(e: Seq<WorkspaceListEntry>, i: int) -> Option<usize>
    decreases i + 1,
{
    if i < 0 || i >= e.len() {
        None
    } else {
        match e[i] {
            WorkspaceListEntry::Workspace { ws_idx, .. } => Some(ws_idx),
            _ => root_at(e, i - 1),
        }
    }
}

/// The session of the first session row at or after `i`.
pub open spec fn next_workspace_from(e: Seq<WorkspaceListEntry>, i: int) -> Option<usize>
    decreases e.len() - i,
{
    if i < 0 || i >= e.len() {
        None
    } else {
        match e[i] {
            WorkspaceListEntry::Workspace { ws_idx, .. } => Some(ws_idx),
            _ => next_workspace_from(e, i + 1),
        }
    }
}

/// The slot above each card from `i` on: a card whose session is not in the
/// list is skipped; a card of the same block as the previous card adds
/// nothing; otherwise the row above the card, when there is one above the
/// list's bottom row, is a slot before that block.
pub open spec fn card_slots(e: Seq<WorkspaceListEntry>, cards: Seq<WorkspaceCardArea>, list_bottom: int, i: int, previous: Option<usize>) -> Seq<(WorkspaceDropTarget, u16)>
    decreases cards.len() - i,
{
    if i < 0 || i >= cards.len() {
        Seq::empty()
    } else {
        match position_from(e, cards[i].ws_idx, 0) {
            None => card_slots(e, cards, list_bottom, i + 1, previous),
            Some(p) => match root_at(e, p) {
                None => card_slots(e, cards, list_bottom, i + 1, previous),
                Some(root) => if previous == Some(root) {
                    card_slots(e, cards, list_bottom, i + 1, previous)
                } else {
                    let y = cards[i].rect.y;
                    let here = if y >= 1 && y - 1 < list_bottom {
                        seq![(WorkspaceDropTarget::Before(root), (y - 1) as u16)]
                    } else {
                        Seq::empty()
                    };
                    here + card_slots(e, cards, list_bottom, i + 1, Some(root))
                },
            },
        }
    }
}

/// The drop slots of the list in `area` with the given visible cards: the
/// slots above the blocks, then the row after the last card, before the
/// next session row (or at the end), unless that row is at or below the
/// list's bottom row or the last slot already has that target.
pub open spec fn drop_slots(e: Seq<WorkspaceListEntry>, cards: Seq<WorkspaceCardArea>, area: Rect) -> Seq<(WorkspaceDropTarget, u16)> {
    if area.height == 0 || cards.len() == 0 {
        Seq::empty()
    } else {
        let list_bottom = area.y + area.height - 1;
        let slots = card_slots(e, cards, list_bottom, 0, None);
        let last = cards.last();
        match position_from(e, last.ws_idx, 0) {
            None => slots,
            Some(p) => {
                let target = match next_workspace_from(e, p + 1) {
                    Some(k) => WorkspaceDropTarget::Before(k),
                    None => WorkspaceDropTarget::End,
                };
                let row = if last.rect.y + last.rect.height > u16::MAX { u16::MAX as int } else { last.rect.y + last.rect.height };
                if row < list_bottom && (slots.len() == 0 || slots.last().0 != target) {
                    slots.push((target, row as u16))
                } else {
                    slots
                }
            },
        }
    }
}

fn entry_position(entries: &Vec<WorkspaceListEntry>, k: usize) -> (p: Option<usize>)
    ensures
        p is Some <==> position_from(entries@, k, 0) is Some,
        p matches Some(i) ==> i < entries@.len() && position_from(entries@, k, 0) == Some(i as int),
{
    let mut i: usize = 0;
    while i < entries.len()
        invariant
            i <= entries@.len(),
            position_from(entries@, k, i as int) == position_from(entries@, k, 0),
        decreases entries@.len() - i,
    {
        match &entries[i] {
            WorkspaceListEntry::Workspace { ws_idx, .. } => {
                if *ws_idx == k {
                    return Some(i);
                }
            },
            _ => {},
        }
        i = i + 1;
    }
    None
}

fn block_root_at(entries: &Vec<WorkspaceListEntry>, entry_idx: usize) -> (r: Option<usize>)
    requires
        entry_idx < entries@.len(),
    ensures
        r == root_at(entries@, entry_idx as int),
{
    let n = entries.len();
    let mut i = entry_idx + 1;
    while i > 0
        invariant
            n == entries@.len(),
            i <= entry_idx + 1,
            entry_idx < entries@.len(),
            root_at(entries@, i - 1) == root_at(entries@, entry_idx as int),
        decreases i,
    {
        match &entries[i - 1] {
            WorkspaceListEntry::Workspace { ws_idx, .. } => {
                return Some(*ws_idx);
            },
            _ => {},
        }
        i = i - 1;
    }
    None
}

fn next_workspace_after(entries: &Vec<WorkspaceListEntry>, start: usize) -> (r: Option<usize>)
    ensures
        r == next_workspace_from(entries@, start as int),
{
    let mut i = start;
    while i < entries.len()
        invariant
            i >= start,
            next_workspace_from(entries@, i as int) == next_workspace_from(entries@, start as int),
        decreases entries@.len() - i,
    {
        match &entries[i] {
            WorkspaceListEntry::Workspace { ws_idx, .. } => {
                return Some(*ws_idx);
            },
            _ => {},
        }
        i = i + 1;
    }
    None
}

/// The drop slots of the session list for the visible `cards`.
pub fn workspace_drop_slots(app: &AppState, cards: &Vec<WorkspaceCardArea>, area: Rect) -> (slots: Vec<(WorkspaceDropTarget, u16)>)
    requires
        area.wf(),
    ensures
        slots@ == drop_slots(session_list(*app), cards@, area),
{
    if area.height == 0 || cards.len() == 0 {
        return Vec::new();
    }
    let list_bottom = area.y + area.height.saturating_sub(1);
    let entries = crate::entries::workspace_list_entries(app);
    let ghost e = entries@;

    let mut slots: Vec<(WorkspaceDropTarget, u16)> = Vec::new();
    let mut previous_root: Option<usize> = None;
    let mut i: usize = 0;
    while i < cards.len()
        invariant
            e == entries@,
            list_bottom == area.y + area.height - 1,
            i <= cards@.len(),
            slots@ + card_slots(e, cards@, list_bottom as int, i as int, previous_root)
                == card_slots(e, cards@, list_bottom as int, 0, None),
        decreases cards@.len() - i,
    {
        let card = cards[i];
        let ghost before = slots@;
        let ghost prev = previous_root;
        match entry_position(&entries, card.ws_idx) {
            None => {
                assert(card_slots(e, cards@, list_bottom as int, i as int, prev)
                    == card_slots(e, cards@, list_bottom as int, i + 1, prev));
            },
            Some(entry_idx) => match block_root_at(&entries, entry_idx) {
                None => {
                    assert(card_slots(e, cards@, list_bottom as int, i as int, prev)
                        == card_slots(e, cards@, list_bottom as int, i + 1, prev));
                },
                Some(root_idx) => {
                    if previous_root != Some(root_idx) {
                        let ghost rest = card_slots(e, cards@, list_bottom as int, i + 1, Some(root_idx));
                        previous_root = Some(root_idx);
                        if card.rect.y >= 1 && card.rect.y - 1 < list_bottom {
                            slots.push((WorkspaceDropTarget::Before(root_idx), card.rect.y - 1));
                            assert(card_slots(e, cards@, list_bottom as int, i as int, prev)
                                == seq![(WorkspaceDropTarget::Before(root_idx), (card.rect.y - 1) as u16)] + rest);
                            assert(slots@ + rest == before + (seq![(WorkspaceDropTarget::Before(root_idx), (card.rect.y - 1) as u16)] + rest));
                        } else {
                            assert(card_slots(e, cards@, list_bottom as int, i as int, prev)
                                == Seq::<(WorkspaceDropTarget, u16)>::empty() + rest);
                            assert(before + rest == before + (Seq::<(WorkspaceDropTarget, u16)>::empty() + rest));
                        }
                    } else {
                        assert(card_slots(e, cards@, list_bottom as int, i as int, prev)
                            == card_slots(e, cards@, list_bottom as int, i + 1, prev));
                    }
                },
            },
        }
        i = i + 1;
    }
    assert(slots@ + Seq::<(WorkspaceDropTarget, u16)>::empty() == slots@);

    let last = cards[cards.len() - 1];
    let last_entry_idx = match entry_position(&entries, last.ws_idx) {
        Some(p) => p,
        None => return slots,
    };
    let target = match next_workspace_after(&entries, last_entry_idx + 1) {
        Some(ws_idx) => WorkspaceDropTarget::Before(ws_idx),
        None => WorkspaceDropTarget::End,
    };
    let row = last.rect.y.saturating_add(last.rect.height);
    let differs = slots.len() == 0 || slots[slots.len() - 1].0 != target;
    if row < list_bottom && differs {
        slots.push((target, row));
    }
    slots
}

/// The row of the first slot from `i` on with the given target.
pub open spec fn slot_row(slots: Seq<(WorkspaceDropTarget, u16)>, target: WorkspaceDropTarget, i: int) -> Option<u16>
    decreases slots.len() - i,
{
    if i < 0 || i >= slots.len() {
        None
    } else if slots[i].0 == target {
        Some(slots[i].1)
    } else {
        slot_row(slots, target, i + 1)
    }
}

/// The row of the first drop slot with the given target, if there is one.
pub fn workspace_drop_indicator_row(app: &AppState, cards: &Vec<WorkspaceCardArea>, area: Rect, target: WorkspaceDropTarget) -> (row: Option<u16>)
    requires
        area.wf(),
    ensures
        row == slot_row(drop_slots(session_list(*app), cards@, area), target, 0),
{
    let slots = workspace_drop_slots(app, cards, area);
    let mut i: usize = 0;
    while i < slots.len()
        invariant
            i <= slots@.len(),
            slot_row(slots@, target, i as int) == slot_row(slots@, target, 0),
            slots@ == drop_slots(session_list(*app), cards@, area),
        decreases slots@.len() - i,
    {
        let found = slots[i].0 == target;
        if found {
            return Some(slots[i].1);
        }
        i = i + 1;
    }
    None
}

/// Every drop slot is on a row above the list's bottom row.
pub proof fn law_drop_slots_above_bottom(e: Seq<WorkspaceListEntry>, cards: Seq<WorkspaceCardArea>, area: Rect)
    requires
        area.wf(),
    ensures
        forall|i: int| 0 <= i < drop_slots(e, cards, area).len() ==> (#[trigger] drop_slots(e, cards, area)[i]).1 < area.y + area.height - 1,
{
    if !(area.height == 0 || cards.len() == 0) {
        lemma_card_slots_above(e, cards, area.y + area.height - 1, 0, None);
    }
}

proof fn lemma_card_slots_above(e: Seq<WorkspaceListEntry>, cards: Seq<WorkspaceCardArea>, list_bottom: int, i: int, previous: Option<usize>)
    ensures
        forall|k: int| 0 <= k < card_slots(e, cards, list_bottom, i, previous).len()
            ==> (#[trigger] card_slots(e, cards, list_bottom, i, previous)[k]).1 < list_bottom,
    decreases cards.len() - i,
{
    if 0 <= i < cards.len() {
        lemma_card_slots_above(e, cards, list_bottom, i + 1, previous);
        match position_from(e, cards[i].ws_idx, 0) {
            None => {
                assert(card_slots(e, cards, list_bottom, i, previous) == card_slots(e, cards, list_bottom, i + 1, previous));
            },
            Some(p) => match root_at(e, p) {
                None => {
                    assert(card_slots(e, cards, list_bottom, i, previous) == card_slots(e, cards, list_bottom, i + 1, previous));
                },
                Some(root) => {
                    lemma_card_slots_above(e, cards, list_bottom, i + 1, Some(root));
                    if previous == Some(root) {
                        assert(card_slots(e, cards, list_bottom, i, previous) == card_slots(e, cards, list_bottom, i + 1, previous));
                    } else {
                        let y = cards[i].rect.y;
                        let here = if y >= 1 && y - 1 < list_bottom {
                            seq![(WorkspaceDropTarget::Before(root), (y - 1) as u16)]
                        } else {
                            Seq::empty()
                        };
                        let rest = card_slots(e, cards, list_bottom, i + 1, Some(root));
                        let all = card_slots(e, cards, list_bottom, i, previous);
                        assert(all == here + rest);
                        assert forall|k: int| 0 <= k < all.len() implies (#[trigger] all[k]).1 < list_bottom by {
                            if k < here.len() {
                                assert(all[k] == here[k]);
                            } else {
                                assert(all[k] == rest[k - here.len()]);
                            }
                        }
                    }
                },
            },
        }
    }
}

} // verus!
