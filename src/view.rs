//! What the task list shows: which rows fit the window, and how each row
//! looks.
use vstd::prelude::*;

use crate::state::{ListItem, State};

verus! {

/// How many rows above the highlighted one stay in view.
pub const LEAD_ROWS: usize = 4;

/// The window starts `LEAD_ROWS` rows above the highlight, or at the top.
pub open spec fn window_start(selected: Option<usize>) -> int {
    match selected {
        Some(s) => if s > LEAD_ROWS {
            s - LEAD_ROWS
        } else {
            0
        },
        None => 0,
    }
}

/// The first row in view.
pub fn visible_start(selected: Option<usize>) -> (r: usize)
    ensures
        r == window_start(selected),
{
    match selected {
        Some(s) => if s > LEAD_ROWS {
            s - LEAD_ROWS
        } else {
            0
        },
        None => 0,
    }
}

/// The rows in view, in display order, from `visible_start` on.
pub fn visible_items(state: &State) -> (r: Vec<&ListItem>)
    requires
        state.wf(),
    ensures
        ({
            let start = window_start(state.selected);
            &&& r@.len() == state.ids@.len() - start
            &&& forall|p: int|
                0 <= p < r@.len() ==> *(#[trigger] r@[p]) == state.tasks@[state.ids@[start + p]]
        }),
{
    let start = visible_start(state.selected);
    let mut out: Vec<&ListItem> = Vec::new();
    let mut p: usize = start;
    proof {
        if let Some(s) = state.selected {
            assert(s < state.ids@.len());
        }
    }
    while p < state.ids.len()
        invariant
            state.wf(),
            start <= p <= state.ids@.len(),
            out@.len() == p - start,
            forall|q: int|
                0 <= q < out@.len() ==> *(#[trigger] out@[q]) == state.tasks@[state.ids@[start + q]],
        decreases state.ids@.len() - p,
    {
        let id = state.ids[p];
        proof {
            assert(state@.order.contains(id));
            assert(state@.items.contains_key(id));
        }
        let item = state.tasks.get(&id).unwrap();
        out.push(item);
        p = p + 1;
    }
    out
}

/// How a row looks.
#[derive(Clone, Copy, Debug, PartialEq, Eq, Structural)]
pub enum RowStyle {
    /// The highlighted row.
    Highlighted,
    /// A completed task.
    Done,
    /// A task still to do.
    Pending,
}

/// The look of a row: highlight first, then completion.
pub fn row_style(item: &ListItem) -> (r: RowStyle)
    ensures
        r == (if item.selected {
            RowStyle::Highlighted
        } else if item.task.completed {
            RowStyle::Done
        } else {
            RowStyle::Pending
        }),
{
    if item.selected {
        RowStyle::Highlighted
    } else if item.task.completed {
        RowStyle::Done
    } else {
        RowStyle::Pending
    }
}

} // verus!
