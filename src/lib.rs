//! A single-user task list: an in-memory task store with an ordered view and
//! a highlighted row, and the mode controller of an interactive terminal
//! session that edits it.
use vstd::prelude::*;

pub mod app;
pub mod events;
pub mod listing;
pub mod model;
pub mod state;
pub mod text;
pub mod view;

verus! {

/// Identifier of a task.
pub type Id = i32;

/// Smallest identifier that `get_id` hands out.
pub const ID_LOW: i32 = 1000;

/// One past the largest identifier that `get_id` hands out.
pub const ID_END: i32 = 10000;

/// Relies on `fastrand::i32` over `low..high`: the value lies in the range.
/// The range is never empty here, on which the call would panic.
#[verifier::external_body]
fn random_in_range(low: i32, high: i32) -> (r: i32)
    requires
        low < high,
    ensures
        low <= r < high,
{
    fastrand::i32(low..high)
}

/// Draws a new task identifier in `ID_LOW..ID_END`.
pub fn get_id() -> (r: Id)
    ensures
        ID_LOW <= r < ID_END,
{
    random_in_range(ID_LOW, ID_END)
}

} // verus!
