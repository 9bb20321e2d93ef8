//! The abstract task store that the store's contracts speak of, its
//! transitions, and the laws that hold of them.
use vstd::prelude::*;

use crate::Id;

verus! {

/// What a task is, apart from its identifier.
pub ghost struct TaskModel {
    pub desc: Seq<char>,
    pub completed: bool,
}

/// The task store in the abstract: identifiers in display order (newest
/// first), the task that each names, and the highlighted position.
pub ghost struct StoreModel {
    pub order: Seq<Id>,
    pub items: Map<Id, TaskModel>,
    pub selected: Option<int>,
}

/// The highlighted position after removing position `p`, where `new_len`
/// positions remain: positions after `p` shift down by one, and a highlight
/// on `p` itself moves to the nearest remaining position.
pub open spec fn selection_after_removal(sel: Option<int>, p: int, new_len: int) -> Option<int> {
    match sel {
        None => None,
        Some(i) => if i < p {
            Some(i)
        } else if i > p {
            Some(i - 1)
        } else if new_len == 0 {
            None
        } else if p < new_len {
            Some(p)
        } else {
            Some(new_len - 1)
        },
    }
}

/// The highlighted position after one step up or down over `len` rows: the
/// first step highlights the top row, later steps move by one and stop at
/// either end; with no rows there is no highlight.
pub open spec fn next_selection(sel: Option<int>, len: int, upwards: bool) -> Option<int> {
    if len <= 0 {
        None
    } else {
        match sel {
            None => Some(0),
            Some(i) => if upwards {
                if i > 0 {
                    Some(i - 1)
                } else {
                    Some(0)
                }
            } else {
                if i + 1 < len {
                    Some(i + 1)
                } else {
                    Some(len - 1)
                }
            },
        }
    }
}

/// The highlighted position after a whole series of steps (`true` is up).
pub open spec fn selection_after_moves(sel: Option<int>, len: int, moves: Seq<bool>) -> Option<int>
    decreases moves.len(),
{
    if moves.len() == 0 {
        sel
    } else {
        next_selection(selection_after_moves(sel, len, moves.drop_last()), len, moves.last())
    }
}

impl StoreModel {
    /// Identifiers in order and keys of the map correspond one to one, and a
    /// highlight names an existing position.
    pub open spec fn wf(self) -> bool {
        &&& self.order.no_duplicates()
        &&& forall|k: Id| #[trigger] self.items.contains_key(k) <==> self.order.contains(k)
        &&& self.items.dom().finite()
        &&& (self.selected matches Some(i) ==> 0 <= i < self.order.len())
    }

    pub open spec fn len(self) -> int {
        self.order.len() as int
    }

    /// The task shown at position `p`.
    pub open spec fn task_at(self, p: int) -> TaskModel {
        self.items[self.order[p]]
    }

    /// An empty store with nothing highlighted.
    pub open spec fn empty() -> StoreModel {
        StoreModel { order: Seq::empty(), items: Map::empty(), selected: None }
    }

    /// A new, incomplete task goes in front; the highlight stays on the
    /// task it was on.
    pub open spec fn add(self, id: Id, desc: Seq<char>) -> StoreModel {
        StoreModel {
            order: self.order.insert(0, id),
            items: self.items.insert(id, TaskModel { desc, completed: false }),
            selected: match self.selected {
                Some(i) => Some(i + 1),
                None => None,
            },
        }
    }

    /// The task at position `p` leaves; out of range, nothing changes.
    pub open spec fn remove_at(self, p: int) -> StoreModel {
        if 0 <= p < self.order.len() {
            StoreModel {
                order: self.order.remove(p),
                items: self.items.remove(self.order[p]),
                selected: selection_after_removal(self.selected, p, self.order.len() - 1),
            }
        } else {
            self
        }
    }

    /// The task with identifier `id` leaves; an absent one changes nothing.
    pub open spec fn remove_id(self, id: Id) -> StoreModel {
        if self.items.contains_key(id) {
            self.remove_at(self.order.index_of(id))
        } else {
            self
        }
    }

    /// The completion flag of task `id` flips; an absent one changes nothing.
    pub open spec fn toggle_id(self, id: Id) -> StoreModel {
        if self.items.contains_key(id) {
            StoreModel {
                items: self.items.insert(
                    id,
                    TaskModel { desc: self.items[id].desc, completed: !self.items[id].completed },
                ),
                ..self
            }
        } else {
            self
        }
    }

    /// The completion flag of the task at position `p` flips.
    pub open spec fn toggle_at(self, p: int) -> StoreModel {
        if 0 <= p < self.order.len() {
            self.toggle_id(self.order[p])
        } else {
            self
        }
    }

    /// The highlight moves one step.
    pub open spec fn move_selection(self, upwards: bool) -> StoreModel {
        StoreModel { selected: next_selection(self.selected, self.len(), upwards), ..self }
    }

    /// Nothing is highlighted.
    pub open spec fn clear_selection(self) -> StoreModel {
        StoreModel { selected: None, ..self }
    }

    /// What confirming a composed text does: the task being edited (if
    /// any) leaves, the text comes in front under identifier `id`, and the
    /// highlight is dropped.
    pub open spec fn commit_text(self, previous: Option<usize>, id: Id, text: Seq<char>) -> StoreModel {
        match previous {
            Some(idx) => self.remove_at(idx as int).add(id, text).clear_selection(),
            None => self.add(id, text).clear_selection(),
        }
    }
}

/// A well-formed store has as many identifiers in its order as tasks in its map.
pub proof fn lemma_order_len_matches_items(m: StoreModel)
    requires
        m.wf(),
    ensures
        m.order.len() == m.items.len(),
{
    m.order.unique_seq_to_set();
    assert(m.items.dom() =~= m.order.to_set());
}

/// Adding under a fresh identifier keeps the store well formed.
pub proof fn lemma_add_wf(m: StoreModel, id: Id, desc: Seq<char>)
    requires
        m.wf(),
        !m.items.contains_key(id),
    ensures
        m.add(id, desc).wf(),
{
    let r = m.add(id, desc);
    assert forall|k: Id| #[trigger] r.items.contains_key(k) <==> r.order.contains(k) by {
        if r.order.contains(k) {
            let j = choose|j: int| 0 <= j < r.order.len() && r.order[j] == k;
            if j > 0 {
                assert(m.order[j - 1] == k);
            }
        }
        if m.order.contains(k) {
            let j = choose|j: int| 0 <= j < m.order.len() && m.order[j] == k;
            assert(r.order[j + 1] == k);
        }
        assert(r.order[0] == id);
    }
    assert forall|a: int, b: int| 0 <= a < b < r.order.len() implies r.order[a] != r.order[b] by {
        if a == 0 {
            assert(m.order.contains(r.order[b]));
        }
    }
}

/// Removing a position keeps the store well formed.
pub proof fn lemma_remove_at_wf(m: StoreModel, p: int)
    requires
        m.wf(),
    ensures
        m.remove_at(p).wf(),
{
    if 0 <= p < m.order.len() {
        let r = m.remove_at(p);
        let id = m.order[p];
        assert forall|k: Id| #[trigger] r.items.contains_key(k) <==> r.order.contains(k) by {
            if r.order.contains(k) {
                let j = choose|j: int| 0 <= j < r.order.len() && r.order[j] == k;
                if j < p {
                    assert(m.order[j] == k);
                } else {
                    assert(m.order[j + 1] == k);
                }
            }
            if m.order.contains(k) && k != id {
                let j = choose|j: int| 0 <= j < m.order.len() && m.order[j] == k;
                if j < p {
                    assert(r.order[j] == k);
                } else {
                    assert(r.order[j - 1] == k);
                }
            }
        }
        assert forall|a: int, b: int| 0 <= a < b < r.order.len() implies r.order[a] != r.order[b] by {
            let a2 = if a < p { a } else { a + 1 };
            let b2 = if b < p { b } else { b + 1 };
            assert(r.order[a] == m.order[a2]);
            assert(r.order[b] == m.order[b2]);
        }
    }
}

/// Every other transition keeps the store well formed.
pub proof fn lemma_other_transitions_wf(m: StoreModel, id: Id, p: int, upwards: bool)
    requires
        m.wf(),
    ensures
        m.toggle_id(id).wf(),
        m.toggle_at(p).wf(),
        m.move_selection(upwards).wf(),
        m.clear_selection().wf(),
{
}

/// Adding a task and then removing the task at the front gives back the
/// store as it was.
pub proof fn lemma_add_then_remove_front(m: StoreModel, id: Id, desc: Seq<char>)
    requires
        m.wf(),
        !m.items.contains_key(id),
    ensures
        m.add(id, desc).remove_at(0) == m,
{
    let r = m.add(id, desc).remove_at(0);
    assert(r.order =~= m.order);
    assert(r.items =~= m.items);
}

/// With no rows, no number of steps makes a highlight; with one row, any
/// non-empty series of steps leaves the highlight on it.
pub proof fn lemma_moves_on_small_stores(sel: Option<int>, moves: Seq<bool>)
    ensures
        moves.len() > 0 ==> selection_after_moves(sel, 0, moves) is None,
        moves.len() > 0 && (sel matches Some(i) ==> i == 0) ==> selection_after_moves(sel, 1, moves)
            == Some(0int),
    decreases moves.len(),
{
    if moves.len() > 1 {
        lemma_moves_on_small_stores(sel, moves.drop_last());
    } else if moves.len() == 1 {
        assert(selection_after_moves(sel, 0, moves.drop_last()) == sel);
        assert(selection_after_moves(sel, 1, moves.drop_last()) == sel);
    }
}

/// Editing the front task with a text that no other task holds, under a
/// fresh identifier: afterwards exactly one task holds the text, it stands
/// in front, and its identifier is not the one the edited task had.
pub proof fn lemma_edit_front(m: StoreModel, id: Id, text: Seq<char>)
    requires
        m.wf(),
        m.order.len() > 0,
        !m.items.contains_key(id),
        forall|p: int| 1 <= p < m.order.len() ==> #[trigger] m.task_at(p).desc != text,
    ensures
        ({
            let r = m.commit_text(Some(0usize), id, text);
            &&& r.wf()
            &&& r.order[0] == id
            &&& r.task_at(0).desc == text
            &&& id != m.order[0]
            &&& forall|p: int| 0 <= p < r.order.len() && #[trigger] r.task_at(p).desc == text ==> p == 0
        }),
{
    let removed = m.remove_at(0);
    lemma_remove_at_wf(m, 0);
    assert(!removed.items.contains_key(id));
    lemma_add_wf(removed, id, text);
    let r = m.commit_text(Some(0usize), id, text);
    assert(m.items.contains_key(m.order[0]));
    assert forall|p: int| 0 <= p < r.order.len() && #[trigger] r.task_at(p).desc == text implies p == 0 by {
        if p > 0 {
            assert(r.order[p] == m.order[p]);
            assert(r.order[p] != id);
            assert(m.task_at(p).desc != text);
        }
    }
}

} // verus!
