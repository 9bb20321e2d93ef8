use todo_cli::app::{App, Status};
use todo_cli::events::{
    commit_edit, helper, manage_edit_events, manage_exiting_events, manage_idle_events, Key,
};
use todo_cli::state::State;

fn store(descs: &[&str]) -> State {
    let mut state = State::new();
    for (i, d) in descs.iter().enumerate() {
        assert!(state.add_task_with_id(d, 5000 + i as i32));
    }
    state
}

fn type_text(app: &mut App, state: &mut State, text: &str) {
    for c in text.chars() {
        assert_eq!(helper(app, state, Key::Char(c)), None);
    }
}

#[test]
fn quit_then_cancel_returns_to_browsing_with_same_selection() {
    let mut state = store(&["a", "b", "c"]);
    state.move_selection(false);
    state.move_selection(false);
    let mut app = App::new();
    assert_eq!(helper(&mut app, &mut state, Key::Char('q')), None);
    assert!(matches!(app.status, Status::Exiting));
    assert_eq!(helper(&mut app, &mut state, Key::Esc), None);
    assert!(matches!(app.status, Status::Idle));
    assert_eq!(state.selected, Some(1));
}

#[test]
fn cancel_with_n_also_returns_to_browsing() {
    let mut app = App { status: Status::Exiting };
    assert_eq!(manage_exiting_events(&mut app, Key::Char('n')), None);
    assert!(matches!(app.status, Status::Idle));
}

#[test]
fn confirming_exit_ends_session() {
    let mut app = App { status: Status::Exiting };
    assert_eq!(manage_exiting_events(&mut app, Key::Char('y')), Some(true));
    assert_eq!(manage_exiting_events(&mut app, Key::Char('q')), Some(true));
    assert_eq!(manage_exiting_events(&mut app, Key::Char('x')), Some(false));
    assert_eq!(manage_exiting_events(&mut app, Key::Char('z')), None);
    assert!(matches!(app.status, Status::Exiting));
}

#[test]
fn blank_commit_changes_nothing() {
    let mut state = store(&["a"]);
    let mut app = App::new();
    helper(&mut app, &mut state, Key::Char('i'));
    type_text(&mut app, &mut state, "   ");
    assert_eq!(helper(&mut app, &mut state, Key::Enter), None);
    match &app.status {
        Status::Editing { edit, previous } => {
            assert_eq!(edit, "   ");
            assert_eq!(*previous, None);
        }
        _ => panic!("left composing"),
    }
    assert_eq!(state.ids, vec![5000]);
}

#[test]
fn new_task_is_added_in_front_and_selection_reset() {
    let mut state = store(&["a", "b"]);
    state.move_selection(false);
    let mut app = App::new();
    helper(&mut app, &mut state, Key::Char('i'));
    type_text(&mut app, &mut state, "hello");
    helper(&mut app, &mut state, Key::Backspace);
    helper(&mut app, &mut state, Key::Enter);
    assert!(matches!(app.status, Status::Idle));
    assert_eq!(state.get_tasks()[0].desc, "hell");
    assert_eq!(state.ids.len(), 3);
    assert!(state.selected.is_none());
    assert!(state.ids.iter().all(|id| !state.tasks.get(id).unwrap().selected));
}

#[test]
fn editing_front_task_gives_one_task_in_front_with_new_id() {
    let mut state = store(&["old", "other"]);
    let old_id = state.ids[0];
    assert_eq!(state.get_tasks()[0].desc, "other");
    let mut app = App::new();
    helper(&mut app, &mut state, Key::Char('k'));
    assert_eq!(state.selected, Some(0));
    helper(&mut app, &mut state, Key::Char('e'));
    assert_eq!(app.get_editing_task(), "other");
    assert_eq!(app.get_prev_task(), Some(0));
    for _ in 0..5 {
        helper(&mut app, &mut state, Key::Backspace);
    }
    helper(&mut app, &mut state, Key::Char('X'));
    helper(&mut app, &mut state, Key::Enter);
    let tasks = state.get_tasks();
    assert_eq!(tasks.iter().filter(|t| t.desc == "X").count(), 1);
    assert_eq!(tasks[0].desc, "X");
    assert_ne!(tasks[0].id, old_id);
    assert_eq!(tasks.len(), 2);
    assert_eq!(tasks[1].desc, "old");
}

#[test]
fn escape_discards_composed_text() {
    let mut state = store(&["a"]);
    let mut app = App::new();
    helper(&mut app, &mut state, Key::Char('i'));
    type_text(&mut app, &mut state, "zz");
    helper(&mut app, &mut state, Key::Esc);
    assert!(matches!(app.status, Status::Idle));
    assert_eq!(app.get_editing_task(), "");
    assert_eq!(state.ids, vec![5000]);
}

#[test]
fn delete_key_removes_highlighted_task() {
    let mut state = store(&["a", "b", "c"]);
    let mut app = App::new();
    manage_idle_events(&mut app, &mut state, Key::Down);
    manage_idle_events(&mut app, &mut state, Key::Char('j'));
    manage_idle_events(&mut app, &mut state, Key::Char('x'));
    assert_eq!(state.ids, vec![5002, 5000]);
    assert_eq!(state.selected, Some(1));
    manage_idle_events(&mut app, &mut state, Key::Up);
    manage_idle_events(&mut app, &mut state, Key::Char('d'));
    assert_eq!(state.ids, vec![5000]);
    assert_eq!(state.selected, Some(0));
}

#[test]
fn delete_without_highlight_does_nothing() {
    let mut state = store(&["a"]);
    let mut app = App::new();
    manage_idle_events(&mut app, &mut state, Key::Char('d'));
    assert_eq!(state.ids, vec![5000]);
}

#[test]
fn enter_toggles_highlighted_task() {
    let mut state = store(&["a", "b"]);
    let mut app = App::new();
    manage_idle_events(&mut app, &mut state, Key::Enter);
    assert!(state.get_tasks().iter().all(|t| !t.completed));
    manage_idle_events(&mut app, &mut state, Key::Down);
    manage_idle_events(&mut app, &mut state, Key::Enter);
    assert!(state.get_tasks()[0].completed);
    assert!(!state.get_tasks()[1].completed);
}

#[test]
fn unknown_keys_are_ignored() {
    let mut state = store(&["a"]);
    let mut app = App::new();
    manage_idle_events(&mut app, &mut state, Key::Other);
    manage_idle_events(&mut app, &mut state, Key::Char('z'));
    assert!(matches!(app.status, Status::Idle));
    assert_eq!(state.ids, vec![5000]);
    assert!(state.selected.is_none());
    let mut editing = App { status: Status::Editing { edit: "ab".to_string(), previous: None } };
    manage_edit_events(&mut editing, &mut state, Key::Up);
    assert_eq!(editing.get_editing_task(), "ab");
}

#[test]
fn edit_key_without_highlight_stays_browsing() {
    let mut state = store(&["a"]);
    let mut app = App::new();
    manage_idle_events(&mut app, &mut state, Key::Char('e'));
    assert!(matches!(app.status, Status::Idle));
}

#[test]
fn buffer_edits_outside_composing_do_nothing() {
    let mut app = App::default();
    app.add_char('a');
    app.pop_char();
    assert!(matches!(app.status, Status::Idle));
    assert_eq!(app.get_editing_task(), "");
    assert_eq!(app.get_prev_task(), None);
    app.switch_status(Status::Editing { edit: String::new(), previous: Some(3) });
    app.pop_char();
    app.add_char('é');
    app.add_char('z');
    app.pop_char();
    assert_eq!(app.get_editing_task(), "é");
    assert_eq!(app.get_prev_task(), Some(3));
}

#[test]
fn commit_under_given_id_replaces_edited_task() {
    let mut state = store(&["a", "b", "c"]);
    state.move_selection(false);
    let mut app = App { status: Status::Editing { edit: "X".to_string(), previous: Some(0) } };
    commit_edit(&mut app, &mut state, 9999);
    assert!(matches!(app.status, Status::Idle));
    assert_eq!(state.ids, vec![9999, 5001, 5000]);
    assert!(!state.tasks.contains_key(&5002));
    assert_eq!(state.get_tasks()[0].desc, "X");
    assert!(!state.get_tasks()[0].completed);
    assert!(state.selected.is_none());
}

#[test]
fn commit_of_new_task_keeps_all_others() {
    let mut state = store(&["a"]);
    let mut app = App { status: Status::Editing { edit: "new".to_string(), previous: None } };
    commit_edit(&mut app, &mut state, 4242);
    assert_eq!(state.ids, vec![4242, 5000]);
    assert_eq!(state.get_tasks()[1].desc, "a");
}
