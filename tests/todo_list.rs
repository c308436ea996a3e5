use todo::command::{apply, Command, CommandError};
use todo::render::{push_decimal, render_listing};
use todo::task::{StoreError, Task, TodoList};

fn task(id: usize, title: &str, completed: bool) -> Task {
    Task { id, title: title.to_string(), completed }
}

fn summary(list: &TodoList) -> Vec<(usize, String, bool)> {
    list.tasks().iter().map(|t| (t.id, t.title.clone(), t.completed)).collect()
}

#[test]
fn new_list_is_empty_with_counter_one() {
    let list = TodoList::new();
    assert!(list.tasks().is_empty());
    assert_eq!(list.next_id(), 1);
}

#[test]
fn missing_file_gives_empty_list() {
    let list = TodoList::from_stored(None).unwrap();
    assert!(list.tasks().is_empty());
    assert_eq!(list.next_id(), 1);
}

#[test]
fn add_assigns_increasing_ids() {
    let mut list = TodoList::new();
    assert_eq!(list.add_task("a".to_string()), 1);
    assert_eq!(list.add_task("b".to_string()), 2);
    assert_eq!(list.add_task("c".to_string()), 3);
    assert_eq!(list.next_id(), 4);
}

#[test]
fn ids_not_reused_after_remove() {
    let mut list = TodoList::new();
    let a = list.add_task("a".to_string());
    let b = list.add_task("b".to_string());
    list.remove_task(b);
    let c = list.add_task("c".to_string());
    list.remove_task(a);
    list.remove_task(c);
    let d = list.add_task("d".to_string());
    assert!(a < b && b < c && c < d);
    assert_eq!(d, 4);
    assert_eq!(summary(&list), vec![(4, "d".to_string(), false)]);
}

#[test]
fn complete_existing_marks_only_that_task() {
    let mut list = TodoList::new();
    list.add_task("a".to_string());
    list.add_task("b".to_string());
    list.add_task("c".to_string());
    list.complete_task(2);
    assert_eq!(
        summary(&list),
        vec![
            (1, "a".to_string(), false),
            (2, "b".to_string(), true),
            (3, "c".to_string(), false)
        ]
    );
}

#[test]
fn complete_missing_is_no_op() {
    let mut list = TodoList::new();
    list.add_task("a".to_string());
    list.complete_task(7);
    assert_eq!(summary(&list), vec![(1, "a".to_string(), false)]);
    assert_eq!(list.next_id(), 2);
}

#[test]
fn remove_existing_keeps_order_of_rest() {
    let mut list = TodoList::new();
    list.add_task("a".to_string());
    list.add_task("b".to_string());
    list.add_task("c".to_string());
    list.remove_task(2);
    assert_eq!(
        summary(&list),
        vec![(1, "a".to_string(), false), (3, "c".to_string(), false)]
    );
    assert_eq!(list.next_id(), 4);
}

#[test]
fn remove_missing_is_no_op() {
    let mut list = TodoList::new();
    list.add_task("a".to_string());
    list.remove_task(0);
    list.remove_task(9);
    assert_eq!(summary(&list), vec![(1, "a".to_string(), false)]);
}

#[test]
fn listing_of_empty_list() {
    assert_eq!(render_listing(&TodoList::new()), "No tasks found\n");
}

#[test]
fn listing_lines_and_markers() {
    let mut list = TodoList::new();
    list.add_task("buy milk".to_string());
    list.add_task("walk dog".to_string());
    list.complete_task(2);
    assert_eq!(render_listing(&list), "1\t[ ]\tbuy milk\n2\t[X]\twalk dog\n");
}

#[test]
fn decimal_digits() {
    let mut s = String::new();
    push_decimal(&mut s, 0);
    assert_eq!(s, "0");
    let mut s = "id ".to_string();
    push_decimal(&mut s, 1207);
    assert_eq!(s, "id 1207");
    let mut s = String::new();
    push_decimal(&mut s, usize::MAX);
    assert_eq!(s, usize::MAX.to_string());
}

#[test]
fn scenario_add_complete_remove() {
    let mut list = TodoList::new();
    let add = |list: &mut TodoList, title: &str| {
        apply(list, Command::Add { title: title.to_string(), quiet: false }, "todo.json").unwrap()
    };
    let o = add(&mut list, "buy milk");
    assert_eq!(o.message, "1\n");
    assert!(o.save);
    let o = add(&mut list, "walk dog");
    assert_eq!(o.message, "2\n");
    let o = apply(&mut list, Command::List, "todo.json").unwrap();
    assert!(!o.save);
    assert_eq!(o.message, "1\t[ ]\tbuy milk\n2\t[ ]\twalk dog\n");
    let o = apply(&mut list, Command::Complete { id: 1 }, "todo.json").unwrap();
    assert!(o.save);
    assert_eq!(o.message, "");
    let o = apply(&mut list, Command::List, "todo.json").unwrap();
    assert_eq!(o.message, "1\t[X]\tbuy milk\n2\t[ ]\twalk dog\n");
    let o = apply(&mut list, Command::Remove { id: 2 }, "todo.json").unwrap();
    assert!(o.save);
    let o = apply(&mut list, Command::List, "todo.json").unwrap();
    assert_eq!(o.message, "1\t[X]\tbuy milk\n");
}

#[test]
fn scenario_fresh_list_is_read_only() {
    let mut list = TodoList::from_stored(None).unwrap();
    let o = apply(&mut list, Command::List, "todo.json").unwrap();
    assert_eq!(o.message, "No tasks found\n");
    assert!(!o.save);
    assert!(list.tasks().is_empty());
}

#[test]
fn quiet_add_prints_nothing() {
    let mut list = TodoList::new();
    let o = apply(&mut list, Command::Add { title: "x".to_string(), quiet: true }, "p").unwrap();
    assert_eq!(o.message, "");
    assert!(o.save);
    assert_eq!(summary(&list), vec![(1, "x".to_string(), false)]);
}

#[test]
fn info_reports_location_without_saving() {
    let mut list = TodoList::new();
    let o = apply(&mut list, Command::Info, "/home/u/.config/todo/todo.json").unwrap();
    assert_eq!(o.message, "data file: /home/u/.config/todo/todo.json\n");
    assert!(!o.save);
}

#[test]
fn add_at_counter_limit_is_refused() {
    let mut list = TodoList::from_parts(vec![task(5, "a", false)], usize::MAX).unwrap();
    let r = apply(&mut list, Command::Add { title: "b".to_string(), quiet: false }, "p");
    assert!(matches!(r, Err(CommandError::IdsExhausted)));
    assert_eq!(summary(&list), vec![(5, "a".to_string(), false)]);
    assert_eq!(list.next_id(), usize::MAX);
}

#[test]
fn stored_parts_round_trip() {
    let mut list = TodoList::new();
    list.add_task("a".to_string());
    list.add_task("b".to_string());
    list.add_task("c".to_string());
    list.complete_task(3);
    list.remove_task(1);
    let before = summary(&list);
    let (tasks, next_id) = list.into_parts();
    let back = TodoList::from_stored(Some((tasks, next_id))).unwrap();
    assert_eq!(summary(&back), before);
    assert_eq!(back.next_id(), 4);
}

#[test]
fn stored_parts_zero_counter_refused() {
    let r = TodoList::from_parts(vec![], 0);
    assert_eq!(r.err(), Some(StoreError::Inconsistent));
}

#[test]
fn stored_parts_id_not_below_counter_refused() {
    let r = TodoList::from_parts(vec![task(1, "a", false), task(3, "b", true)], 3);
    assert_eq!(r.err(), Some(StoreError::Inconsistent));
}

#[test]
fn stored_parts_zero_id_refused() {
    let r = TodoList::from_stored(Some((vec![task(0, "a", false)], 2)));
    assert_eq!(r.err(), Some(StoreError::Inconsistent));
}

#[test]
fn stored_parts_duplicate_or_unordered_ids_refused() {
    let r = TodoList::from_parts(vec![task(2, "a", false), task(2, "b", false)], 5);
    assert_eq!(r.err(), Some(StoreError::Inconsistent));
    let r = TodoList::from_parts(vec![task(3, "a", false), task(1, "b", false)], 5);
    assert_eq!(r.err(), Some(StoreError::Inconsistent));
}

#[test]
fn stored_parts_with_gaps_accepted() {
    let list = TodoList::from_parts(vec![task(2, "a", true), task(7, "b", false)], 10).unwrap();
    assert_eq!(
        summary(&list),
        vec![(2, "a".to_string(), true), (7, "b".to_string(), false)]
    );
    assert_eq!(list.next_id(), 10);
}
