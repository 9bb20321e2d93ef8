//! Which tasks a listing shows.
use vstd::prelude::*;

use crate::state::Task;

verus! {

/// Whether `sublime_fuzzy` finds the query in the target: every character
/// of the query but its white space, in order, with case ignored.
pub uninterp spec fn fuzzy_found(query: Seq<char>, target: Seq<char>) -> bool;

/// Relies on `sublime_fuzzy::best_match`: whether it finds a match of the
/// whole query in the target; it finds none when either is empty.
#[verifier::external_body]
fn fuzzy_match(query: &str, target: &str) -> (r: bool)
    ensures
        r == fuzzy_found(query@, target@),
        query@.len() == 0 || target@.len() == 0 ==> !r,
{
    sublime_fuzzy::best_match(query, target).is_some()
}

/// What a listing asks for: only completed tasks, only pending ones, and a
/// text to search for.
pub struct ListOptions {
    pub completed: bool,
    pub incomplete: bool,
    pub fuzzy: Option<String>,
}

/// Whether a listing with these options shows the task.
pub open spec fn listed(t: Task, options: ListOptions) -> bool {
    &&& !(options.completed && !t.completed)
    &&& !(options.incomplete && t.completed)
    &&& match options.fuzzy {
        Some(q) => fuzzy_found(q@, t.desc@),
        None => true,
    }
}

/// Whether the task passes the listing's filters.
pub fn shows(t: &Task, options: &ListOptions) -> (r: bool)
    ensures
        r == listed(*t, *options),
{
    if (options.completed && !t.completed) || (options.incomplete && t.completed) {
        return false;
    }
    match &options.fuzzy {
        Some(search) => fuzzy_match(search.as_str(), t.desc.as_str()),
        None => true,
    }
}

/// The tasks that a listing with these options shows, in the given order.
pub fn filter_tasks<'a>(tasks: &Vec<&'a Task>, options: &ListOptions) -> (r: Vec<&'a Task>)
    ensures
        r@ == tasks@.filter(|t: &'a Task| listed(*t, *options)),
{
    let ghost pred = |t: &'a Task| listed(*t, *options);
    let mut out: Vec<&'a Task> = Vec::new();
    let mut i: usize = 0;
    while i < tasks.len()
        invariant
            pred == (|t: &'a Task| listed(*t, *options)),
            i <= tasks@.len(),
            out@ == tasks@.subrange(0, i as int).filter(pred),
        decreases tasks@.len() - i,
    {
        let t = tasks[i];
        proof {
            let s = tasks@.subrange(0, i + 1);
            assert(s.drop_last() =~= tasks@.subrange(0, i as int));
            assert(s.last() == t);
            reveal(Seq::filter);
            assert(s.filter(pred) == if pred(t) {
                s.drop_last().filter(pred).push(t)
            } else {
                s.drop_last().filter(pred)
            });
        }
        if shows(t, options) {
            out.push(t);
        }
        i = i + 1;
    }
    assert(tasks@.subrange(0, tasks@.len() as int) =~= tasks@);
    out
}

} // verus!
