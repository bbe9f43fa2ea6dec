use rust_tasks::order::sort_by_priority;
use rust_tasks::task::Task;

fn task(text: &str, priority: u8) -> Task {
    Task::new(text.to_string(), priority, [0, 0, 0, 255])
}

fn texts(tasks: &[Task]) -> Vec<String> {
    tasks.iter().map(|t| t.text.clone()).collect()
}

#[test]
fn sort_orders_by_descending_priority() {
    let mut v = vec![task("a", 5), task("b", 8), task("c", 2), task("d", 9)];
    sort_by_priority(&mut v);
    assert_eq!(texts(&v), vec!["d", "b", "a", "c"]);
}

#[test]
fn sort_is_stable() {
    let mut v = vec![
        task("a", 1),
        task("b", 3),
        task("c", 1),
        task("d", 3),
        task("e", 2),
        task("f", 1),
        task("g", 3),
    ];
    sort_by_priority(&mut v);
    assert_eq!(texts(&v), vec!["b", "d", "g", "e", "a", "c", "f"]);
}

#[test]
fn sort_of_empty_and_single() {
    let mut v: Vec<Task> = Vec::new();
    sort_by_priority(&mut v);
    assert!(v.is_empty());
    let mut one = vec![task("a", 4)];
    sort_by_priority(&mut one);
    assert_eq!(texts(&one), vec!["a"]);
}

#[test]
fn sort_leaves_sorted_list() {
    let mut v = vec![task("a", 9), task("b", 9), task("c", 4), task("d", 0)];
    let before = v.clone();
    sort_by_priority(&mut v);
    assert_eq!(v, before);
}

#[test]
fn sort_reverses_ascending_list() {
    let mut v: Vec<Task> = (0..=255u8).map(|p| task("t", p)).collect();
    sort_by_priority(&mut v);
    let got: Vec<u8> = v.iter().map(|t| t.priority).collect();
    let want: Vec<u8> = (0..=255u8).rev().collect();
    assert_eq!(got, want);
}

#[test]
fn sort_agrees_with_std_stable_sort() {
    let mut v = Vec::new();
    let mut x: u32 = 12345;
    for i in 0..200 {
        x = x.wrapping_mul(1103515245).wrapping_add(12345);
        let p = ((x >> 16) % 11) as u8;
        v.push(task(&format!("t{}", i), p));
    }
    let mut want = v.clone();
    want.sort_by(|a, b| b.priority.cmp(&a.priority));
    sort_by_priority(&mut v);
    assert_eq!(v, want);
}

#[test]
fn sort_keeps_all_fields() {
    let mut a = task("a", 1);
    a.selected = true;
    a.editing = true;
    a.color = [1, 2, 3, 4];
    let mut b = task("b", 2);
    b.editing_priority = true;
    let mut v = vec![a.clone(), b.clone()];
    sort_by_priority(&mut v);
    assert_eq!(v, vec![b, a]);
}
