use rust_tasks::drag::{reorder, BodyInput};
use rust_tasks::state::TodoApp;
use rust_tasks::task::{EditInput, Task};

fn task(text: &str, priority: u8) -> Task {
    Task::new(text.to_string(), priority, [0, 0, 0, 255])
}

fn list(priorities: &[u8]) -> Vec<Task> {
    priorities.iter().enumerate().map(|(i, p)| task(&format!("t{}", i), *p)).collect()
}

fn texts(tasks: &[Task]) -> Vec<String> {
    tasks.iter().map(|t| t.text.clone()).collect()
}

fn priorities(tasks: &[Task]) -> Vec<u8> {
    tasks.iter().map(|t| t.priority).collect()
}

fn quiet() -> BodyInput {
    BodyInput {
        clicked: false,
        double_clicked: false,
        drag_started: false,
        hovered: false,
        pointer_released: false,
    }
}

fn edit(double_clicked: bool, lost_focus: bool, enter_pressed: bool) -> EditInput {
    EditInput { double_clicked, lost_focus, enter_pressed }
}

#[test]
fn reorder_moves_one_task_down() {
    let mut v = list(&[9, 7, 5, 3, 1]);
    reorder(&mut v, 1, 3);
    assert_eq!(texts(&v), vec!["t0", "t2", "t3", "t1", "t4"]);
}

#[test]
fn reorder_moves_one_task_up() {
    let mut v = list(&[9, 7, 5, 3, 1]);
    reorder(&mut v, 3, 1);
    assert_eq!(texts(&v), vec!["t0", "t3", "t1", "t2", "t4"]);
}

#[test]
fn reorder_keeps_all_other_tasks_in_order() {
    for n in 2..6usize {
        for from in 0..n {
            for to in 0..n {
                if from == to {
                    continue;
                }
                let before = list(&vec![5; n]);
                let mut v = before.clone();
                reorder(&mut v, from, to);
                assert_eq!(v.len(), n);
                assert_eq!(v[to].text, before[from].text);
                let mut rest = v.clone();
                rest.remove(to);
                let mut want = before.clone();
                want.remove(from);
                assert_eq!(rest, want);
            }
        }
    }
}

#[test]
fn reorder_to_interior_clamps_between_neighbors() {
    let mut v = list(&[9, 7, 5, 3, 1]);
    reorder(&mut v, 0, 2);
    assert_eq!(priorities(&v), vec![7, 5, 5, 3, 1]);
    let mut v = list(&[9, 7, 5, 3, 1]);
    reorder(&mut v, 4, 1);
    assert_eq!(priorities(&v), vec![9, 7, 7, 5, 3]);
    let mut v = list(&[9, 7, 6, 3, 1]);
    reorder(&mut v, 2, 1);
    assert_eq!(priorities(&v), vec![9, 7, 7, 3, 1]);
}

#[test]
fn reorder_to_interior_keeps_priority_already_in_range() {
    let mut v = list(&[9, 2, 6, 8, 1]);
    reorder(&mut v, 2, 1);
    assert_eq!(texts(&v), vec!["t0", "t2", "t1", "t3", "t4"]);
    assert_eq!(priorities(&v), vec![9, 6, 2, 8, 1]);
}

#[test]
fn reorder_to_interior_with_ascending_neighbors() {
    let mut v = list(&[2, 1, 8, 10]);
    reorder(&mut v, 3, 1);
    assert_eq!(texts(&v), vec!["t0", "t3", "t1", "t2"]);
    assert_eq!(priorities(&v), vec![2, 2, 1, 8]);
    let mut v = list(&[2, 0, 8, 1]);
    reorder(&mut v, 1, 2);
    assert_eq!(priorities(&v), vec![2, 8, 1, 1]);
}

#[test]
fn reorder_to_head_takes_priority_of_next() {
    let mut v = list(&[9, 7, 5]);
    reorder(&mut v, 2, 0);
    assert_eq!(texts(&v), vec!["t2", "t0", "t1"]);
    assert_eq!(priorities(&v), vec![9, 9, 7]);
}

#[test]
fn reorder_to_tail_takes_priority_of_previous() {
    let mut v = list(&[9, 7, 5]);
    reorder(&mut v, 0, 2);
    assert_eq!(texts(&v), vec!["t1", "t2", "t0"]);
    assert_eq!(priorities(&v), vec![7, 5, 5]);
}

#[test]
fn reorder_to_an_end_clamps_neighbor_into_editor_range() {
    let mut v = list(&[5, 200]);
    reorder(&mut v, 0, 1);
    assert_eq!(priorities(&v), vec![200, 10]);
    let mut v = list(&[0, 5]);
    reorder(&mut v, 1, 0);
    assert_eq!(priorities(&v), vec![1, 0]);
    let mut v = list(&[5, 0, 7]);
    reorder(&mut v, 0, 2);
    assert_eq!(priorities(&v), vec![0, 7, 7]);
    let mut v = list(&[5, 11, 7]);
    reorder(&mut v, 2, 0);
    assert_eq!(priorities(&v), vec![5, 5, 11]);
}

#[test]
fn reorder_in_a_pair() {
    let mut v = list(&[3, 8]);
    reorder(&mut v, 1, 0);
    assert_eq!(texts(&v), vec!["t1", "t0"]);
    assert_eq!(priorities(&v), vec![3, 3]);
}

#[test]
fn reorder_onto_itself_or_outside_changes_nothing() {
    let before = list(&[9, 7, 5]);
    for (from, to) in [(1, 1), (0, 3), (3, 0), (7, 9), (0, usize::MAX), (usize::MAX, 0)] {
        let mut v = before.clone();
        reorder(&mut v, from, to);
        assert_eq!(v, before);
    }
    let mut empty: Vec<Task> = Vec::new();
    reorder(&mut empty, 0, 1);
    assert!(empty.is_empty());
}

#[test]
fn reorder_keeps_flags_text_and_color_of_moved_task() {
    let mut v = list(&[9, 7, 5]);
    v[0].selected = true;
    v[0].editing_priority = true;
    v[0].color = [4, 3, 2, 1];
    reorder(&mut v, 0, 2);
    assert!(v[2].selected);
    assert!(v[2].editing_priority);
    assert_eq!(v[2].color, [4, 3, 2, 1]);
    assert_eq!(v[2].text, "t0");
}

#[test]
fn resolve_drag_reorders_and_forgets() {
    let mut app = TodoApp::with_tasks(list(&[9, 7, 5]), 0);
    app.dragging_task = Some(0);
    app.drag_over_task = Some(1);
    app.resolve_drag();
    assert_eq!(texts(&app.tasks), vec!["t1", "t0", "t2"]);
    assert_eq!(priorities(&app.tasks), vec![7, 7, 5]);
    assert_eq!(app.dragging_task, None);
    assert_eq!(app.drag_over_task, None);
}

#[test]
fn resolve_drag_does_not_sort() {
    let mut app = TodoApp::with_tasks(list(&[1, 5, 9, 3]), 0);
    app.dragging_task = Some(3);
    app.drag_over_task = Some(1);
    app.resolve_drag();
    assert_eq!(texts(&app.tasks), vec!["t0", "t3", "t1", "t2"]);
    assert_eq!(priorities(&app.tasks), vec![1, 3, 5, 9]);
}

#[test]
fn resolve_drag_with_stale_positions_only_forgets() {
    let before = list(&[9, 7, 5]);
    for (from, to) in [(0, 3), (5, 1), (2, 2), (8, 8)] {
        let mut app = TodoApp::with_tasks(before.clone(), 0);
        app.dragging_task = Some(from);
        app.drag_over_task = Some(to);
        app.resolve_drag();
        assert_eq!(app.tasks, before);
        assert_eq!(app.dragging_task, None);
        assert_eq!(app.drag_over_task, None);
    }
}

#[test]
fn resolve_drag_waits_for_both_ends() {
    let mut app = TodoApp::with_tasks(list(&[9, 7, 5]), 0);
    app.dragging_task = Some(2);
    let before = app.clone();
    app.resolve_drag();
    assert_eq!(app, before);
    let mut app = TodoApp::with_tasks(list(&[9, 7, 5]), 0);
    app.drag_over_task = Some(2);
    let before = app.clone();
    app.resolve_drag();
    assert_eq!(app, before);
    let mut app = TodoApp::with_tasks(list(&[9, 7, 5]), 0);
    let before = app.clone();
    app.resolve_drag();
    assert_eq!(app, before);
}

#[test]
fn body_click_toggles_selection_of_that_task_only() {
    let mut app = TodoApp::with_tasks(list(&[9, 7, 5]), 0);
    app.tasks[2].selected = true;
    app.body_input(1, BodyInput { clicked: true, ..quiet() });
    assert!(!app.tasks[0].selected && app.tasks[1].selected && app.tasks[2].selected);
    app.body_input(1, BodyInput { clicked: true, ..quiet() });
    assert!(!app.tasks[0].selected && !app.tasks[1].selected && app.tasks[2].selected);
    assert_eq!(app.dragging_task, None);
    assert_eq!(app.drag_over_task, None);
}

#[test]
fn body_double_click_opens_text_editor() {
    let mut app = TodoApp::with_tasks(list(&[9, 7]), 0);
    app.body_input(0, BodyInput { double_clicked: true, ..quiet() });
    assert!(app.tasks[0].editing);
    assert!(!app.tasks[0].selected);
    assert!(!app.tasks[1].editing);
    let mut both = TodoApp::with_tasks(list(&[9, 7]), 0);
    both.body_input(1, BodyInput { double_clicked: true, clicked: true, ..quiet() });
    assert!(both.tasks[1].editing && both.tasks[1].selected);
}

#[test]
fn body_drag_start_and_release_record_positions() {
    let mut app = TodoApp::with_tasks(list(&[9, 7, 5]), 0);
    app.body_input(2, BodyInput { drag_started: true, ..quiet() });
    assert_eq!(app.dragging_task, Some(2));
    assert_eq!(app.drag_over_task, None);
    app.body_input(0, BodyInput { hovered: true, ..quiet() });
    assert_eq!(app.drag_over_task, None);
    app.body_input(0, BodyInput { pointer_released: true, ..quiet() });
    assert_eq!(app.drag_over_task, None);
    app.body_input(1, BodyInput { hovered: true, pointer_released: true, ..quiet() });
    assert_eq!(app.drag_over_task, Some(1));
    app.body_input(0, BodyInput { hovered: true, pointer_released: true, ..quiet() });
    assert_eq!(app.drag_over_task, Some(0));
    assert_eq!(app.dragging_task, Some(2));
    assert_eq!(app.tasks, list(&[9, 7, 5]));
}

#[test]
fn body_without_input_changes_nothing() {
    let mut app = TodoApp::with_tasks(list(&[9, 7, 5]), 0);
    app.dragging_task = Some(1);
    let before = app.clone();
    app.body_input(0, quiet());
    assert_eq!(app, before);
}

#[test]
fn body_of_edited_task_or_outside_takes_no_input() {
    let all = BodyInput {
        clicked: true,
        double_clicked: true,
        drag_started: true,
        hovered: true,
        pointer_released: true,
    };
    let mut app = TodoApp::with_tasks(list(&[9, 7, 5]), 0);
    app.tasks[1].editing = true;
    let before = app.clone();
    app.body_input(1, all);
    assert_eq!(app, before);
    app.body_input(3, all);
    assert_eq!(app, before);
    app.body_input(usize::MAX, all);
    assert_eq!(app, before);
}

#[test]
fn drag_within_one_frame_sequence() {
    let mut app = TodoApp::with_tasks(list(&[9, 7, 5, 3]), 0);
    app.body_input(3, BodyInput { drag_started: true, ..quiet() });
    app.end_frame(false);
    assert_eq!(app.dragging_task, Some(3));
    app.body_input(1, BodyInput { hovered: true, pointer_released: true, ..quiet() });
    app.end_frame(false);
    assert_eq!(texts(&app.tasks), vec!["t0", "t3", "t1", "t2"]);
    assert_eq!(priorities(&app.tasks), vec![9, 7, 7, 5]);
    assert_eq!(app.dragging_task, None);
    assert_eq!(app.drag_over_task, None);
}

#[test]
fn end_frame_sorts_after_committed_priority_edit() {
    let mut app = TodoApp::with_tasks(list(&[9, 7, 5]), 0);
    app.tasks[2].editing_priority = true;
    app.tasks[2].priority = 8;
    let committed = app.tasks[2].priority_input(edit(false, false, true));
    assert!(committed);
    app.end_frame(committed);
    assert_eq!(texts(&app.tasks), vec!["t0", "t2", "t1"]);
    assert_eq!(priorities(&app.tasks), vec![9, 8, 7]);
    assert!(!app.tasks[1].editing_priority);
}

#[test]
fn end_frame_without_commit_leaves_order() {
    let mut app = TodoApp::with_tasks(list(&[1, 7, 5]), 0);
    let before = app.clone();
    app.end_frame(false);
    assert_eq!(app, before);
}

#[test]
fn end_frame_sorts_before_it_resolves_the_drag() {
    let mut app = TodoApp::with_tasks(list(&[1, 7, 5]), 0);
    app.dragging_task = Some(0);
    app.drag_over_task = Some(2);
    app.end_frame(true);
    assert_eq!(texts(&app.tasks), vec!["t2", "t0", "t1"]);
    assert_eq!(priorities(&app.tasks), vec![5, 1, 1]);
}

#[test]
fn priority_region_state_machine() {
    let mut t = task("a", 5);
    assert!(!t.priority_input(edit(false, true, true)));
    assert!(!t.editing_priority);
    assert!(!t.priority_input(edit(true, false, false)));
    assert!(t.editing_priority);
    assert!(!t.priority_input(edit(true, false, false)));
    assert!(t.editing_priority);
    assert!(t.priority_input(edit(false, true, false)));
    assert!(!t.editing_priority);
    t.editing_priority = true;
    assert!(t.priority_input(edit(false, false, true)));
    assert!(!t.editing_priority);
    t.editing_priority = true;
    assert!(t.priority_input(edit(false, true, true)));
    assert!(!t.editing_priority);
    assert_eq!(t, task("a", 5));
}

#[test]
fn text_editor_closes_on_focus_loss_or_enter() {
    for (lost, enter, open_after) in
        [(false, false, true), (true, false, false), (false, true, false), (true, true, false)]
    {
        let mut t = task("a", 5);
        t.editing = true;
        t.text_input(edit(false, lost, enter));
        assert_eq!(t.editing, open_after);
        assert_eq!(t.text, "a");
    }
    let mut closed = task("a", 5);
    closed.text_input(edit(true, true, true));
    assert_eq!(closed, task("a", 5));
}
