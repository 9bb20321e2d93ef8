//! What each key press does, in each mode.
use vstd::prelude::*;

use crate::app::{App, Status};
use crate::state::State;
use crate::text::{blank, is_blank};
use crate::{Id, ID_END, ID_LOW};

verus! {

/// A key press, as the session sees it.
#[derive(Clone, Copy, Debug, PartialEq, Eq, Structural)]
pub enum Key {
    Char(char),
    Enter,
    Esc,
    Backspace,
    Up,
    Down,
    /// Any key that no mode reacts to.
    Other,
}

/// The keys that browsing reacts to.
pub open spec fn idle_key(key: Key) -> bool {
    ||| key == Key::Char('q')
    ||| key == Key::Char('i')
    ||| key == Key::Char('d')
    ||| key == Key::Char('x')
    ||| key == Key::Char('j')
    ||| key == Key::Char('k')
    ||| key == Key::Char('e')
    ||| key == Key::Down
    ||| key == Key::Up
    ||| key == Key::Enter
}

/// One key press while browsing: `q` asks to quit, `i` starts a new task,
/// `d` or `x` removes the highlighted task, `j`/Down and `k`/Up move the
/// highlight, `e` starts editing the highlighted task, and Enter flips its
/// completion flag. Other keys change nothing.
pub open spec fn idle_step(app: App, state: State, key: Key, app2: App, state2: State) -> bool {
    if key == Key::Char('q') {
        app2.status is Exiting && state2 == state
    } else if key == Key::Char('i') {
        app2.status == (Status::Editing { edit: app2.status->edit, previous: None })
            && app2.status.buffer().len() == 0 && state2 == state
    } else if key == Key::Char('d') || key == Key::Char('x') {
        app2 == app && state2@ == match state.selected {
            Some(i) => state@.remove_at(i as int),
            None => state@,
        }
    } else if key == Key::Char('j') || key == Key::Down {
        app2 == app && state2@ == state@.move_selection(false)
    } else if key == Key::Char('k') || key == Key::Up {
        app2 == app && state2@ == state@.move_selection(true)
    } else if key == Key::Char('e') {
        state2 == state && match state.selected {
            Some(i) => app2.status == (Status::Editing { edit: app2.status->edit, previous: Some(i) })
                && app2.status.buffer() == state@.task_at(i as int).desc,
            None => app2 == app,
        }
    } else if key == Key::Enter {
        app2 == app && state2@ == match state.selected {
            Some(i) => state@.toggle_at(i as int),
            None => state@,
        }
    } else {
        app2 == app && state2 == state
    }
}

/// One key press while composing: Esc drops the text, Enter commits a text
/// that is not blank (a blank one changes nothing), a character is
/// appended, and Backspace removes the last character. Committing replaces
/// the edited task, or adds a new one, under an identifier that no task
/// held; only a store that holds every identifier of `ID_LOW..ID_END` can
/// leave the commit undone.
pub open spec fn edit_step(app: App, state: State, key: Key, app2: App, state2: State) -> bool {
    let buf = app.status.buffer();
    let prev = app.status.edited();
    match key {
        Key::Esc => app2.status is Idle && state2 == state,
        Key::Enter => if blank(buf) {
            app2 == app && state2 == state
        } else if state@.len() < ID_END - ID_LOW {
            app2.status is Idle && exists|id: Id|
                ID_LOW <= id < ID_END && !(#[trigger] state@.items.contains_key(id)) && state2@
                    == state@.commit_text(prev, id, buf)
        } else {
            (app2 == app && state2 == state) || (app2.status is Idle && exists|id: Id|
                ID_LOW <= id < ID_END && !(#[trigger] state@.items.contains_key(id)) && state2@
                    == state@.commit_text(prev, id, buf))
        },
        Key::Char(c) => state2 == state && app2.status is Editing && app2.status.buffer()
            == buf.push(c) && app2.status.edited() == prev,
        Key::Backspace => state2 == state && app2.status is Editing && app2.status.edited() == prev
            && app2.status.buffer() == (if buf.len() == 0 {
            buf
        } else {
            buf.drop_last()
        }),
        _ => app2 == app && state2 == state,
    }
}

/// One key press while asking whether to quit: Esc or `n` go back to
/// browsing; `y` or `q` end the session and keep the tasks (`Some(true)`);
/// `x` ends it without keeping them (`Some(false)`).
pub open spec fn exit_step(app: App, key: Key, app2: App, r: Option<bool>) -> bool {
    if key == Key::Esc || key == Key::Char('n') {
        app2.status is Idle && r is None
    } else if key == Key::Char('y') || key == Key::Char('q') {
        app2 == app && r == Some(true)
    } else if key == Key::Char('x') {
        app2 == app && r == Some(false)
    } else {
        app2 == app && r is None
    }
}

/// Handles a key press while browsing.
pub fn manage_idle_events(app: &mut App, state: &mut State, key: Key)
    requires
        old(state).wf(),
    ensures
        final(state).wf(),
        idle_step(*old(app), *old(state), key, *final(app), *final(state)),
{
    proof {
        crate::model::lemma_other_transitions_wf(state@, 0, 0, true);
    }
    match key {
        Key::Char('q') => {
            app.switch_status(Status::Exiting);
        },
        Key::Char('i') => {
            app.switch_status(Status::Editing { edit: String::new(), previous: None });
        },
        Key::Char('d') | Key::Char('x') => {
            if let Some(idx) = state.selected {
                state.remove_task_by_seq(idx);
            }
        },
        Key::Down | Key::Char('j') => state.move_selection(false),
        Key::Up | Key::Char('k') => state.move_selection(true),
        Key::Char('e') => {
            if let Some(idx) = state.selected {
                if idx >= state.ids.len() {
                    return;
                }
                proof {
                    assert(state@.order.contains(state.ids@[idx as int]));
                    assert(state@.items.contains_key(state.ids@[idx as int]));
                }
                let desc = state.tasks.get(&state.ids[idx]).unwrap().task.desc.clone();
                app.switch_status(Status::Editing { edit: desc, previous: Some(idx) });
            }
        },
        Key::Enter => {
            if let Some(idx) = state.selected {
                let _ = state.toggle_task_status(idx);
            }
        },
        _ => {},
    }
}

/// Handles a key press while composing.
pub fn manage_edit_events(app: &mut App, state: &mut State, key: Key)
    requires
        old(state).wf(),
        old(app).status is Editing,
    ensures
        final(state).wf(),
        edit_step(*old(app), *old(state), key, *final(app), *final(state)),
{
    match key {
        Key::Esc => app.switch_status(Status::Idle),
        Key::Enter => {
            let task = app.get_editing_task();
            if is_blank(task.as_str()) {
                return;
            }
            // drawn before the edited task leaves, so that it differs from
            // that task's identifier too
            match state.draw_fresh_id() {
                Some(id) => commit_edit(app, state, id),
                None => {},
            }
        },
        Key::Char(ch) => {
            app.add_char(ch);
        },
        Key::Backspace => {
            app.pop_char();
        },
        _ => {},
    }
}

/// Commits the composed text under identifier `id`: the task being edited
/// (if any) leaves, the text comes in front as a new task, the highlight
/// is dropped, and the mode returns to browsing.
pub fn commit_edit(app: &mut App, state: &mut State, id: Id)
    requires
        old(state).wf(),
        old(app).status is Editing,
        !old(state)@.items.contains_key(id),
    ensures
        final(state).wf(),
        final(app).status is Idle,
        final(state)@ == old(state)@.commit_text(
            old(app).status.edited(),
            id,
            old(app).status.buffer(),
        ),
{
    let task = app.get_editing_task();
    let prev = app.get_prev_task();
    if let Some(idx) = prev {
        state.remove_task_by_seq(idx);
    }
    proof {
        assert(!state@.items.contains_key(id));
    }
    let _ = state.add_task_with_id(task.as_str(), id);
    state.clear_selection();
    app.switch_status(Status::Idle);
}

/// Handles a key press while asking whether to quit; `Some` ends the
/// session, and tells whether to keep the tasks.
pub fn manage_exiting_events(app: &mut App, key: Key) -> (r: Option<bool>)
    ensures
        exit_step(*old(app), key, *final(app), r),
{
    match key {
        Key::Esc | Key::Char('n') => app.switch_status(Status::Idle),
        Key::Char('y') | Key::Char('q') => {
            return Some(true);
        },
        Key::Char('x') => {
            return Some(false);
        },
        _ => {},
    }
    None
}

/// Routes a key press by the current mode. `Some` ends the session, and
/// tells whether to keep the tasks.
pub fn helper(app: &mut App, state: &mut State, key: Key) -> (r: Option<bool>)
    requires
        old(state).wf(),
    ensures
        final(state).wf(),
        match old(app).status {
            Status::Idle => r is None && idle_step(*old(app), *old(state), key, *final(app), *final(state)),
            Status::Editing { .. } => r is None && edit_step(
                *old(app),
                *old(state),
                key,
                *final(app),
                *final(state),
            ),
            Status::Exiting => *final(state) == *old(state) && exit_step(*old(app), key, *final(app), r),
        },
{
    match app.status {
        Status::Idle => {
            manage_idle_events(app, state, key);
        },
        Status::Editing { edit: _, previous: _ } => {
            manage_edit_events(app, state, key);
        },
        Status::Exiting => {
            return manage_exiting_events(app, key);
        },
    }
    None
}

/// Pressing Enter while editing the front task with a text that is not
/// blank and that no other task holds, in a store with room for one more
/// identifier: the session returns to browsing, exactly one task holds the
/// text and it stands in front, the edited task's identifier is gone, and
/// the rows after the front keep their identifiers.
pub proof fn lemma_enter_edits_front(app: App, state: State, app2: App, state2: State)
    requires
        state.wf(),
        app.status is Editing,
        app.status.edited() == Some(0usize),
        !blank(app.status.buffer()),
        0 < state@.len() < ID_END - ID_LOW,
        forall|p: int|
            1 <= p < state@.len() ==> #[trigger] state@.task_at(p).desc != app.status.buffer(),
        edit_step(app, state, Key::Enter, app2, state2),
    ensures
        app2.status is Idle,
        state2@.task_at(0).desc == app.status.buffer(),
        forall|p: int|
            0 <= p < state2@.len() && #[trigger] state2@.task_at(p).desc == app.status.buffer()
                ==> p == 0,
        state2@.order[0] != state@.order[0],
        !state2@.items.contains_key(state@.order[0]),
        state2@.len() == state@.len(),
        state2@.order.subrange(1, state2@.len()) == state@.order.subrange(1, state@.len()),
{
    let text = app.status.buffer();
    let id = choose|id: Id|
        ID_LOW <= id < ID_END && !(#[trigger] state@.items.contains_key(id)) && state2@
            == state@.commit_text(Some(0usize), id, text);
    crate::model::lemma_edit_front(state@, id, text);
    assert(state2@.order.subrange(1, state2@.len()) =~= state@.order.subrange(1, state@.len()));
}

} // verus!
