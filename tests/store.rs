use todo_cli::state::{State, Task};
use todo_cli::{get_id, ID_END, ID_LOW};

fn descs(state: &State) -> Vec<String> {
    state.get_tasks().iter().map(|t| t.desc.clone()).collect()
}

fn flags_match_selection(state: &State) -> bool {
    state
        .ids
        .iter()
        .enumerate()
        .all(|(p, id)| state.tasks.get(id).unwrap().selected == (state.selected == Some(p)))
}

#[test]
fn check_selection_change() {
    let mut state = State::new();
    state.add_task("abc");
    state.add_task("123");
    state.add_task("xyz");
    assert!(state.selected.is_none());
    state.move_selection(true);
    assert!(state.selected.is_some());
    assert_eq!(state.selected.unwrap(), 0);
    state.move_selection(false);
    assert_eq!(state.selected.unwrap(), 1);
    assert!(state.tasks.get(&state.ids[1]).unwrap().selected);
}

#[test]
fn newest_first_and_toggle_scenario() {
    let mut state = State::new();
    state.add_task("buy milk");
    state.add_task("walk dog");
    assert_eq!(descs(&state), vec!["walk dog".to_string(), "buy milk".to_string()]);
    assert_eq!(state.toggle_task_status(1), Some(true));
    let tasks = state.get_tasks();
    assert_eq!(tasks[1].desc, "buy milk");
    assert!(tasks[1].completed);
    assert_eq!(tasks[0].desc, "walk dog");
    assert!(!tasks[0].completed);
}

#[test]
fn toggle_twice_and_out_of_range() {
    let mut state = State::new();
    assert!(state.add_task_with_id("a", 1500));
    assert_eq!(state.toggle_task_status(0), Some(true));
    assert_eq!(state.toggle_task_status(0), Some(false));
    assert_eq!(state.toggle_task_status(1), None);
    assert_eq!(state.toggle_task_status_by_id(1500), Some(true));
    assert_eq!(state.toggle_task_status_by_id(42), None);
}

#[test]
fn removing_highlighted_last_row_reclamps() {
    let mut state = State::new();
    state.add_task("one");
    state.add_task("two");
    state.add_task("three");
    state.move_selection(false);
    state.move_selection(false);
    state.move_selection(false);
    assert_eq!(state.selected, Some(2));
    state.remove_task_by_seq(2);
    assert_eq!(state.ids.len(), 2);
    assert_eq!(state.selected, Some(1));
    assert!(flags_match_selection(&state));
}

#[test]
fn removing_above_highlight_keeps_same_task_highlighted() {
    let mut state = State::new();
    state.add_task("one");
    state.add_task("two");
    state.add_task("three");
    state.move_selection(false);
    state.move_selection(false);
    let highlighted = state.ids[1];
    state.remove_task_by_seq(0);
    assert_eq!(state.selected, Some(0));
    assert_eq!(state.ids[0], highlighted);
    assert!(flags_match_selection(&state));
}

#[test]
fn removing_only_highlighted_task_clears_selection() {
    let mut state = State::new();
    state.add_task("only");
    state.move_selection(true);
    state.remove_task_by_seq(0);
    assert!(state.selected.is_none());
    assert!(state.ids.is_empty());
}

#[test]
fn lengths_agree_after_adds_and_removes() {
    let mut state = State::new();
    for (i, d) in ["a", "b", "c", "d", "e"].iter().enumerate() {
        assert!(state.add_task_with_id(d, 2000 + i as i32));
        assert_eq!(state.ids.len(), state.tasks.len());
    }
    assert!(state.remove_task(&2002).is_some());
    assert_eq!(state.ids.len(), state.tasks.len());
    state.remove_task_by_seq(0);
    assert_eq!(state.ids.len(), state.tasks.len());
    state.remove_task_by_seq(10);
    assert_eq!(state.ids.len(), 3);
    assert_eq!(state.tasks.len(), 3);
    assert!(state.remove_task(&2002).is_none());
    assert_eq!(state.ids, vec![2003, 2001, 2000]);
}

#[test]
fn duplicate_id_is_refused() {
    let mut state = State::new();
    assert!(state.add_task_with_id("a", 1234));
    assert!(!state.add_task_with_id("b", 1234));
    assert_eq!(state.ids, vec![1234]);
    assert_eq!(state.tasks.len(), 1);
    assert_eq!(state.tasks.get(&1234).unwrap().task.desc, "a");
}

#[test]
fn add_then_remove_front_restores_store() {
    let mut state = State::new();
    assert!(state.add_task_with_id("x", 1001));
    assert!(state.add_task_with_id("y", 1002));
    state.move_selection(false);
    state.move_selection(false);
    let ids = state.ids.clone();
    let selected = state.selected;
    let snapshot: Vec<(i32, String, bool, bool)> = ids
        .iter()
        .map(|id| {
            let item = state.tasks.get(id).unwrap();
            (item.task.id, item.task.desc.clone(), item.task.completed, item.selected)
        })
        .collect();
    state.add_task("fresh");
    assert_eq!(state.ids.len(), 3);
    state.remove_task_by_seq(0);
    assert_eq!(state.ids, ids);
    assert_eq!(state.selected, selected);
    assert_eq!(state.tasks.len(), 2);
    for (id, desc, completed, selected) in snapshot {
        let item = state.tasks.get(&id).unwrap();
        assert_eq!(item.task.desc, desc);
        assert_eq!(item.task.completed, completed);
        assert_eq!(item.selected, selected);
    }
}

#[test]
fn moves_on_empty_store_select_nothing() {
    let mut state = State::new();
    state.move_selection(true);
    state.move_selection(false);
    assert!(state.selected.is_none());
}

#[test]
fn moves_on_singleton_stay_at_zero() {
    let mut state = State::new();
    state.add_task("solo");
    for up in [true, false, false, true, false, true, true] {
        state.move_selection(up);
        assert_eq!(state.selected, Some(0));
    }
    assert!(state.tasks.get(&state.ids[0]).unwrap().selected);
}

#[test]
fn moves_stop_at_both_ends() {
    let mut state = State::new();
    state.add_task("a");
    state.add_task("b");
    state.move_selection(false);
    assert_eq!(state.selected, Some(0));
    state.move_selection(true);
    assert_eq!(state.selected, Some(0));
    state.move_selection(false);
    state.move_selection(false);
    assert_eq!(state.selected, Some(1));
    assert!(flags_match_selection(&state));
}

#[test]
fn adding_keeps_highlight_on_same_task() {
    let mut state = State::new();
    state.add_task("a");
    state.move_selection(false);
    let highlighted = state.ids[0];
    state.add_task("b");
    assert_eq!(state.selected, Some(1));
    assert_eq!(state.ids[1], highlighted);
    assert!(flags_match_selection(&state));
}

#[test]
fn blank_text_adds_nothing() {
    let mut state = State::new();
    state.add_task("   ");
    state.add_task("");
    state.add_task("\t\u{3000}\n");
    assert!(state.ids.is_empty());
    assert!(state.tasks.is_empty());
}

#[test]
fn clear_selection_drops_highlight() {
    let mut state = State::new();
    state.add_task("a");
    state.move_selection(false);
    state.clear_selection();
    assert!(state.selected.is_none());
    assert!(!state.tasks.get(&state.ids[0]).unwrap().selected);
}

#[test]
fn from_tasks_keeps_order_and_skips_repeated_ids() {
    let tasks = vec![
        Task { id: 7, desc: "first".to_string(), completed: true },
        Task { id: 3, desc: "second".to_string(), completed: false },
        Task { id: 7, desc: "again".to_string(), completed: false },
    ];
    let state = State::from_tasks(&tasks);
    assert_eq!(state.ids, vec![7, 3]);
    assert_eq!(state.tasks.len(), 2);
    assert_eq!(state.tasks.get(&7).unwrap().task.desc, "first");
    assert!(state.tasks.get(&7).unwrap().task.completed);
    assert!(state.selected.is_none());
}

#[test]
fn drawn_ids_lie_in_range() {
    for _ in 0..200 {
        let id = get_id();
        assert!((ID_LOW..ID_END).contains(&id));
    }
    let mut state = State::new();
    state.add_task("a");
    assert!((1000..10000).contains(&state.ids[0]));
    assert_eq!(state.tasks.get(&state.ids[0]).unwrap().task.id, state.ids[0]);
}

#[test]
fn nearly_full_store_still_finds_the_free_id() {
    let tasks: Vec<Task> = (ID_LOW..ID_END)
        .filter(|id| *id != 7777)
        .map(|id| Task { id, desc: "t".to_string(), completed: false })
        .collect();
    let mut state = State::from_tasks(&tasks);
    assert_eq!(state.ids.len(), 8999);
    state.add_task("last one");
    assert_eq!(state.ids.len(), 9000);
    assert_eq!(state.ids[0], 7777);
    assert_eq!(state.tasks.get(&7777).unwrap().task.desc, "last one");
}

#[test]
fn full_store_adds_nothing() {
    let tasks: Vec<Task> = (ID_LOW..ID_END)
        .map(|id| Task { id, desc: "t".to_string(), completed: false })
        .collect();
    let mut state = State::from_tasks(&tasks);
    state.add_task("no room");
    assert_eq!(state.ids.len(), 9000);
    assert_eq!(state.tasks.len(), 9000);
}
