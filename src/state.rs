//! The task store: tasks keyed by identifier, their display order, and the
//! highlighted row.
use std::collections::HashMap;
use vstd::prelude::*;

use crate::model::{
    lemma_add_wf, lemma_order_len_matches_items, lemma_other_transitions_wf, lemma_remove_at_wf,
    StoreModel, TaskModel,
};
use crate::text::{blank, is_blank};
use crate::{get_id, Id, ID_END, ID_LOW};

verus! {

broadcast use vstd::std_specs::hash::group_hash_axioms;

/// How many identifiers are drawn at random for a new task before the
/// identifier range is searched in order for a free one.
pub const ID_DRAWS: u32 = 64;

/// A single task.
pub struct Task {
    pub id: Id,
    pub desc: String,
    pub completed: bool,
}

impl Task {
    fn new(task: &str, id: Id) -> (r: Task)
        ensures
            r.id == id,
            r.desc@ == task@,
            !r.completed,
    {
        Task { id, desc: task.to_owned(), completed: false }
    }

    fn mark_complete(&mut self)
        ensures
            *final(self) == (Task { completed: true, ..*old(self) }),
    {
        self.completed = true;
    }

    fn mark_incomplete(&mut self)
        ensures
            *final(self) == (Task { completed: false, ..*old(self) }),
    {
        self.completed = false;
    }
}

/// A task as a row of the list, with whether the row is highlighted.
pub struct ListItem {
    pub task: Task,
    pub selected: bool,
}

impl ListItem {
    /// A copy of the task, not highlighted.
    pub fn from(task: &Task) -> (r: ListItem)
        ensures
            r.task == *task,
            !r.selected,
    {
        ListItem {
            selected: false,
            task: Task { completed: task.completed, desc: task.desc.clone(), id: task.id },
        }
    }

    fn set_selected(&mut self)
        ensures
            *final(self) == (ListItem { selected: true, ..*old(self) }),
    {
        self.selected = true;
    }

    fn set_unselected(&mut self)
        ensures
            *final(self) == (ListItem { selected: false, ..*old(self) }),
    {
        self.selected = false;
    }
}

/// The abstract value of a row.
pub open spec fn item_model(li: ListItem) -> TaskModel {
    TaskModel { desc: li.task.desc@, completed: li.task.completed }
}

/// The store that a sequence of loaded tasks gives: tasks keep their order,
/// and a task whose identifier came before is left out.
pub open spec fn loaded(tasks: Seq<Task>) -> StoreModel
    decreases tasks.len(),
{
    if tasks.len() == 0 {
        StoreModel::empty()
    } else {
        let m = loaded(tasks.drop_last());
        let t = tasks.last();
        if m.items.contains_key(t.id) {
            m
        } else {
            StoreModel {
                order: m.order.push(t.id),
                items: m.items.insert(t.id, TaskModel { desc: t.desc@, completed: t.completed }),
                selected: None,
            }
        }
    }
}

/// The whole state of the task list.
pub struct State {
    pub ids: Vec<Id>,
    pub tasks: HashMap<Id, ListItem>,
    /// index of the highlighted task
    pub selected: Option<usize>,
}

impl View for State {
    type V = StoreModel;

    open spec fn view(&self) -> StoreModel {
        StoreModel {
            order: self.ids@,
            items: self.tasks@.map_values(|li: ListItem| item_model(li)),
            selected: match self.selected {
                Some(i) => Some(i as int),
                None => None,
            },
        }
    }
}

impl State {
    /// The abstract store is well formed, each row holds the identifier it
    /// is filed under, and exactly the highlighted row is marked as such.
    pub open spec fn wf(&self) -> bool {
        &&& self@.wf()
        &&& forall|k: Id| #[trigger] self.tasks@.contains_key(k) ==> self.tasks@[k].task.id == k
        &&& forall|p: int|
            0 <= p < self.ids@.len() ==> (#[trigger] self.tasks@[self.ids@[p]]).selected == (self@.selected == Some(p))
    }

    /// Every identifier in the order names a row.
    proof fn lemma_filed(&self, p: int)
        requires
            self.wf(),
            0 <= p < self.ids@.len(),
        ensures
            self.tasks@.contains_key(self.ids@[p]),
    {
        assert(self@.order.contains(self.ids@[p]));
        assert(self@.items.contains_key(self.ids@[p]));
    }

    /// An empty store.
    pub fn new() -> (r: State)
        ensures
            r.wf(),
            r@ == StoreModel::empty(),
    {
        let r = State { ids: Vec::new(), tasks: HashMap::new(), selected: None };
        assert(r@.items =~= Map::empty());
        assert(r@.order =~= Seq::empty());
        r
    }

    /// Sets the highlight mark of one row; nothing else changes.
    fn set_flag(&mut self, id: Id, flag: bool)
        requires
            old(self).tasks@.contains_key(id),
        ensures
            final(self).ids == old(self).ids,
            final(self).selected == old(self).selected,
            final(self).tasks@ == old(self).tasks@.insert(
                id,
                ListItem { selected: flag, ..old(self).tasks@[id] },
            ),
            final(self)@ == old(self)@,
    {
        let mut item = self.tasks.remove(&id).unwrap();
        if flag {
            item.set_selected();
        } else {
            item.set_unselected();
        }
        self.tasks.insert(id, item);
        assert(self.tasks@ =~= old(self).tasks@.insert(id, ListItem { selected: flag, ..old(self).tasks@[id] }));
        assert(self@.items =~= old(self)@.items);
    }

    /// Moves the highlight one row up or down, stopping at either end; with
    /// no highlight yet the top row is highlighted, and an empty store is
    /// left alone.
    pub fn move_selection(&mut self, upwards: bool)
        requires
            old(self).wf(),
        ensures
            final(self).wf(),
            final(self)@ == old(self)@.move_selection(upwards),
            old(self).ids@.len() == 0 ==> final(self).selected is None,
            old(self).ids@.len() == 1 ==> final(self).selected == Some(0usize),
    {
        let len = self.ids.len();
        if len == 0 {
            return;
        }
        match self.selected {
            Some(sel) => {
                let next: usize = if upwards {
                    if sel > 0 {
                        sel - 1
                    } else {
                        0
                    }
                } else {
                    if sel + 1 < len {
                        sel + 1
                    } else {
                        len - 1
                    }
                };
                let old_id = self.ids[sel];
                proof {
                    self.lemma_filed(sel as int);
                    self.lemma_filed(next as int);
                }
                self.set_flag(old_id, false);
                let new_id = self.ids[next];
                self.set_flag(new_id, true);
                self.selected = Some(next);
                assert forall|p: int| 0 <= p < self.ids@.len() implies (#[trigger] self.tasks@[self.ids@[p]]).selected == (self@.selected == Some(p)) by {
                    if p != next as int && p != sel as int {
                        assert(self.ids@[p] != old_id);
                        assert(self.ids@[p] != new_id);
                    }
                    if p == sel as int && p != next as int {
                        assert(self.ids@[p] != new_id);
                    }
                }
            },
            None => {
                let first = self.ids[0];
                proof {
                    self.lemma_filed(0);
                }
                self.set_flag(first, true);
                self.selected = Some(0);
                assert forall|p: int| 0 <= p < self.ids@.len() implies (#[trigger] self.tasks@[self.ids@[p]]).selected == (self@.selected == Some(p)) by {
                    if p != 0 {
                        assert(self.ids@[p] != first);
                    }
                }
            },
        }
        assert(self@ =~= old(self)@.move_selection(upwards));
    }

    /// Adds an incomplete task in front under identifier `id`, unless a
    /// present task already holds that identifier; the highlight stays on
    /// the task it was on.
    pub fn add_task_with_id(&mut self, new_task: &str, id: Id) -> (added: bool)
        requires
            old(self).wf(),
        ensures
            final(self).wf(),
            added == !old(self)@.items.contains_key(id),
            added ==> final(self)@ == old(self)@.add(id, new_task@),
            !added ==> *final(self) == *old(self),
    {
        if self.tasks.contains_key(&id) {
            return false;
        }
        proof {
            lemma_add_wf(self@, id, new_task@);
        }
        let len = self.ids.len();
        self.ids.insert(0, id);
        let item = ListItem::from(&Task::new(new_task, id));
        self.tasks.insert(id, item);
        match self.selected {
            Some(s) => {
                assert(s < len);
                self.selected = Some(s + 1);
            },
            None => {},
        }
        assert(self@.items =~= old(self)@.items.insert(id, TaskModel { desc: new_task@, completed: false }));
        assert(self@ =~= old(self)@.add(id, new_task@));
        assert forall|p: int| 0 <= p < self.ids@.len() implies (#[trigger] self.tasks@[self.ids@[p]]).selected == (self@.selected == Some(p)) by {
            if p > 0 {
                old(self).lemma_filed(p - 1);
                assert(self.ids@[p] == old(self).ids@[p - 1]);
                assert(old(self).tasks@[old(self).ids@[p - 1]].selected == (old(self)@.selected == Some(p - 1)));
            }
        }
        true
    }

    /// An identifier in `ID_LOW..ID_END` that no present task holds. Up to
    /// `ID_DRAWS` identifiers are drawn at random; if each of them is in
    /// use, the range is searched in order. `None` comes only when every
    /// identifier of the range is in use.
    pub(crate) fn draw_fresh_id(&self) -> (r: Option<Id>)
        requires
            self.wf(),
        ensures
            r matches Some(id) ==> !self@.items.contains_key(id) && ID_LOW <= id < ID_END,
            self@.len() < ID_END - ID_LOW ==> r is Some,
    {
        let mut n: u32 = 0;
        while n < ID_DRAWS
            invariant
                n <= ID_DRAWS,
            decreases ID_DRAWS - n,
        {
            let id = get_id();
            if !self.tasks.contains_key(&id) {
                return Some(id);
            }
            n = n + 1;
        }
        let mut c: i32 = ID_LOW;
        let ghost mut taken: Set<Id> = Set::empty();
        while c < ID_END
            invariant
                self.wf(),
                ID_LOW <= c <= ID_END,
                taken.finite(),
                taken.len() == c - ID_LOW,
                forall|k: Id| #[trigger] taken.contains(k) ==> self@.items.contains_key(k) && k < c,
            decreases ID_END - c,
        {
            if !self.tasks.contains_key(&c) {
                return Some(c);
            }
            proof {
                taken = taken.insert(c);
            }
            c = c + 1;
        }
        proof {
            lemma_order_len_matches_items(self@);
            assert(taken.subset_of(self@.items.dom()));
            vstd::set_lib::lemma_len_subset(taken, self@.items.dom());
        }
        None
    }

    /// Adds an incomplete task in front under an identifier that no present
    /// task holds. A blank text adds nothing; so does a store that already
    /// holds every identifier of `ID_LOW..ID_END`.
    pub fn add_task(&mut self, new_task: &str)
        requires
            old(self).wf(),
        ensures
            final(self).wf(),
            blank(new_task@) ==> *final(self) == *old(self),
            !blank(new_task@) && old(self)@.len() < ID_END - ID_LOW ==> exists|id: Id|
                ID_LOW <= id < ID_END && !old(self)@.items.contains_key(id) && final(self)@
                    == old(self)@.add(id, new_task@),
            !blank(new_task@) ==> *final(self) == *old(self) || exists|id: Id|
                ID_LOW <= id < ID_END && !old(self)@.items.contains_key(id) && final(self)@
                    == old(self)@.add(id, new_task@),
    {
        if is_blank(new_task) {
            return;
        }
        match self.draw_fresh_id() {
            Some(id) => {
                self.add_task_with_id(new_task, id);
            },
            None => {},
        }
    }


    /// Removes the task at position `p`: later rows move up by one, and a
    /// highlight on the removed row moves to the row that takes its place,
    /// or to the last row when it was the last.
    fn remove_position(&mut self, p: usize)
        requires
            old(self).wf(),
            p < old(self).ids@.len(),
        ensures
            final(self).wf(),
            final(self)@ == old(self)@.remove_at(p as int),
    {
        proof {
            lemma_remove_at_wf(self@, p as int);
            self.lemma_filed(p as int);
        }
        let id = self.ids.remove(p);
        let _ = self.tasks.remove(&id);
        let new_len = self.ids.len();
        let ghost mid = *self;
        assert forall|q: int| 0 <= q < new_len implies #[trigger] self.tasks@.contains_key(self.ids@[q])
            && self.ids@[q] != id && self.tasks@[self.ids@[q]] == old(self).tasks@[old(self).ids@[if q
            < p { q } else { q + 1 }]] by {
            let q2 = if q < p { q } else { q + 1 };
            old(self).lemma_filed(q2);
            assert(self.ids@[q] == old(self).ids@[q2]);
        }
        match self.selected {
            Some(s) => {
                if s > p {
                    self.selected = Some(s - 1);
                } else if s == p {
                    if new_len == 0 {
                        self.selected = None;
                    } else {
                        let n: usize = if p < new_len {
                            p
                        } else {
                            new_len - 1
                        };
                        let nid = self.ids[n];
                        self.set_flag(nid, true);
                        self.selected = Some(n);
                    }
                }
            },
            None => {},
        }
        assert(self@.items =~= old(self)@.items.remove(id));
        assert(self@ =~= old(self)@.remove_at(p as int));
        assert forall|k: Id| #[trigger] self.tasks@.contains_key(k) implies self.tasks@[k].task.id == k by {
            assert(old(self).tasks@.contains_key(k));
        }
        assert forall|q: int| 0 <= q < self.ids@.len() implies (#[trigger] self.tasks@[self.ids@[q]]).selected == (self@.selected == Some(q)) by {
            let q2 = if q < p { q } else { q + 1 };
            assert(mid.tasks@[mid.ids@[q]] == old(self).tasks@[old(self).ids@[q2]]);
            assert(old(self).tasks@[old(self).ids@[q2]].selected == (old(self)@.selected == Some(q2)));
            assert(mid.tasks@.contains_key(mid.ids@[q]));
        }
    }

    /// Removes the task with identifier `id`; tells whether there was one.
    pub fn remove_task(&mut self, id: &Id) -> (r: Option<()>)
        requires
            old(self).wf(),
        ensures
            final(self).wf(),
            r is Some <==> old(self)@.items.contains_key(*id),
            final(self)@ == old(self)@.remove_id(*id),
    {
        let len = self.ids.len();
        let mut p: usize = 0;
        while p < len
            invariant
                self.wf(),
                *self == *old(self),
                len == self.ids@.len(),
                p <= len,
                forall|q: int| 0 <= q < p ==> self.ids@[q] != *id,
            decreases len - p,
        {
            if self.ids[p] == *id {
                proof {
                    assert(self@.order.contains(*id));
                    assert(self@.order.index_of(*id) == p as int) by {
                        let c = self@.order.index_of(*id);
                        assert(0 <= c < self@.order.len() && self@.order[c] == *id);
                    }
                }
                self.remove_position(p);
                return Some(());
            }
            p = p + 1;
        }
        assert(!self@.items.contains_key(*id));
        None
    }

    /// Removes the task at position `idx`; out of range, nothing changes.
    pub fn remove_task_by_seq(&mut self, idx: usize)
        requires
            old(self).wf(),
        ensures
            final(self).wf(),
            final(self)@ == old(self)@.remove_at(idx as int),
    {
        if idx >= self.ids.len() {
            return;
        }
        self.remove_position(idx);
    }

    /// Flips the completion flag of task `id` and returns the new flag, or
    /// `None` when no task holds that identifier.
    pub fn toggle_task_status_by_id(&mut self, id: Id) -> (r: Option<bool>)
        requires
            old(self).wf(),
        ensures
            final(self).wf(),
            final(self)@ == old(self)@.toggle_id(id),
            r == (if old(self)@.items.contains_key(id) {
                Some(!old(self)@.items[id].completed)
            } else {
                None
            }),
    {
        proof {
            lemma_other_transitions_wf(self@, id, 0, true);
        }
        if !self.tasks.contains_key(&id) {
            return None;
        }
        let mut item = self.tasks.remove(&id).unwrap();
        let now = if item.task.completed {
            item.task.mark_incomplete();
            false
        } else {
            item.task.mark_complete();
            true
        };
        self.tasks.insert(id, item);
        assert(self@.items =~= old(self)@.toggle_id(id).items);
        assert(self@ =~= old(self)@.toggle_id(id));
        assert forall|q: int| 0 <= q < self.ids@.len() implies (#[trigger] self.tasks@[self.ids@[q]]).selected == (self@.selected == Some(q)) by {
            assert(old(self).tasks@[old(self).ids@[q]].selected == (old(self)@.selected == Some(q)));
        }
        Some(now)
    }

    /// Flips the completion flag of the task at position `idx` and returns
    /// the new flag, or `None` when the position is out of range.
    pub fn toggle_task_status(&mut self, idx: usize) -> (r: Option<bool>)
        requires
            old(self).wf(),
        ensures
            final(self).wf(),
            final(self)@ == old(self)@.toggle_at(idx as int),
            r == (if idx < old(self)@.order.len() {
                Some(!old(self)@.task_at(idx as int).completed)
            } else {
                None
            }),
    {
        if idx >= self.ids.len() {
            return None;
        }
        let id = self.ids[idx];
        proof {
            self.lemma_filed(idx as int);
        }
        self.toggle_task_status_by_id(id)
    }

    /// The tasks in display order, newest first.
    pub fn get_tasks(&self) -> (r: Vec<&Task>)
        requires
            self.wf(),
        ensures
            r@.len() == self.ids@.len(),
            forall|p: int| 0 <= p < r@.len() ==> *(#[trigger] r@[p]) == self.tasks@[self.ids@[p]].task,
            forall|p: int|
                0 <= p < r@.len() ==> (#[trigger] r@[p]).id == self@.order[p] && r@[p].desc@
                    == self@.task_at(p).desc && r@[p].completed == self@.task_at(p).completed,
    {
        let mut ans: Vec<&Task> = Vec::new();
        let mut p: usize = 0;
        while p < self.ids.len()
            invariant
                self.wf(),
                p <= self.ids@.len(),
                ans@.len() == p,
                forall|q: int| 0 <= q < p ==> *(#[trigger] ans@[q]) == self.tasks@[self.ids@[q]].task,
                forall|q: int|
                    0 <= q < p ==> (#[trigger] ans@[q]).id == self@.order[q] && ans@[q].desc@
                        == self@.task_at(q).desc && ans@[q].completed == self@.task_at(q).completed,
            decreases self.ids@.len() - p,
        {
            proof {
                self.lemma_filed(p as int);
            }
            let item = self.tasks.get(&self.ids[p]).unwrap();
            ans.push(&item.task);
            p = p + 1;
        }
        ans
    }

    /// Drops the highlight.
    pub fn clear_selection(&mut self)
        requires
            old(self).wf(),
        ensures
            final(self).wf(),
            final(self)@ == old(self)@.clear_selection(),
    {
        match self.selected {
            Some(s) => {
                let id = self.ids[s];
                proof {
                    self.lemma_filed(s as int);
                }
                self.set_flag(id, false);
                self.selected = None;
                assert forall|q: int| 0 <= q < self.ids@.len() implies (#[trigger] self.tasks@[self.ids@[q]]).selected == (self@.selected == Some(q)) by {
                    if q != s as int {
                        assert(self.ids@[q] != id);
                        assert(old(self).tasks@[old(self).ids@[q]].selected == (old(self)@.selected == Some(q)));
                        assert(self.tasks@[self.ids@[q]] == old(self).tasks@[old(self).ids@[q]]);
                    } else {
                        assert(self.ids@[q] == id);
                        assert(!self.tasks@[id].selected);
                    }
                }
            },
            None => {},
        }
        assert(self@ =~= old(self)@.clear_selection());
    }

    /// A store holding the given tasks in the given order, none highlighted;
    /// a task whose identifier came before is left out.
    pub fn from_tasks(tasks: &Vec<Task>) -> (r: State)
        ensures
            r.wf(),
            r@ == loaded(tasks@),
    {
        let mut state = State::new();
        let mut i: usize = 0;
        while i < tasks.len()
            invariant
                state.wf(),
                state.selected is None,
                i <= tasks@.len(),
                state@ == loaded(tasks@.subrange(0, i as int)),
            decreases tasks@.len() - i,
        {
            let t = &tasks[i];
            assert(tasks@.subrange(0, i + 1).drop_last() =~= tasks@.subrange(0, i as int));
            if !state.tasks.contains_key(&t.id) {
                let ghost before = state;
                state.ids.push(t.id);
                state.tasks.insert(t.id, ListItem::from(t));
                assert(state@.items =~= before@.items.insert(t.id, TaskModel { desc: t.desc@, completed: t.completed }));
                assert(state@ =~= loaded(tasks@.subrange(0, i + 1)));
                assert(state.wf()) by {
                    let m = state@;
                    assert forall|k: Id| #[trigger] m.items.contains_key(k) <==> m.order.contains(k) by {
                        if m.order.contains(k) && k != t.id {
                            let j = choose|j: int| 0 <= j < m.order.len() && m.order[j] == k;
                            assert(before@.order[j] == k);
                        }
                        if before@.order.contains(k) {
                            let j = choose|j: int| 0 <= j < before@.order.len() && before@.order[j] == k;
                            assert(m.order[j] == k);
                        }
                        assert(m.order[m.order.len() - 1] == t.id);
                    }
                    assert forall|a: int, b: int| 0 <= a < b < m.order.len() implies m.order[a] != m.order[b] by {
                        if b == m.order.len() - 1 {
                            assert(before@.order.contains(m.order[a]));
                        }
                    }
                    assert forall|q: int| 0 <= q < state.ids@.len() implies !(#[trigger] state.tasks@[state.ids@[q]]).selected by {
                        if q < before.ids@.len() {
                            before.lemma_filed(q);
                            assert(before.tasks@[before.ids@[q]].selected == (before@.selected == Some(q)));
                        }
                    }
                }
            }
            i = i + 1;
        }
        assert(tasks@.subrange(0, tasks@.len() as int) =~= tasks@);
        state
    }
}

/// In every well-formed store (and every operation keeps the store well
/// formed) the order holds as many identifiers as the map holds tasks.
pub proof fn lemma_ids_len_matches_tasks(s: &State)
    requires
        s.wf(),
    ensures
        s.ids@.len() == s.tasks@.len(),
{
    lemma_order_len_matches_items(s@);
    assert(s@.items.dom() =~= s.tasks@.dom());
}

impl Default for State {
    fn default() -> (r: State)
        ensures
            r.wf(),
            r@ == StoreModel::empty(),
    {
        State::new()
    }
}

} // verus!
