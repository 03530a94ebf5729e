use termban::clock::Timestamp;
use termban::model::{sort_projects, Project, SortOrder, Task};

fn task(title: &str) -> Task {
    Task { title: title.to_string() }
}

fn project(name: &str, secs: i64, counts: [usize; 3]) -> Project {
    let mk = |n: usize, tag: &str| (0..n).map(|i| task(&format!("{}{}", tag, i))).collect::<Vec<_>>();
    Project {
        name: name.to_string(),
        not_done: mk(counts[0], "a"),
        in_progress: mk(counts[1], "b"),
        done: mk(counts[2], "c"),
        last_updated: Timestamp { secs, nanos: 0 },
    }
}

fn titles(v: &[Task]) -> Vec<String> {
    v.iter().map(|t| t.title.clone()).collect()
}

fn names(v: &[Project]) -> Vec<String> {
    v.iter().map(|p| p.name.clone()).collect()
}

#[test]
fn new_project_is_empty_and_named() {
    let p = Project::new("Home");
    assert_eq!(p.name, "Home");
    assert_eq!(p.total_tasks(), 0);
    assert!(p.not_done.is_empty() && p.in_progress.is_empty() && p.done.is_empty());
    assert!(p.last_updated.nanos < 2_000_000_000);
}

#[test]
fn total_tasks_sums_the_three_columns() {
    let p = project("x", 0, [2, 3, 4]);
    assert_eq!(p.total_tasks(), 9);
}

#[test]
fn add_task_appends_to_the_named_column() {
    let mut p = project("x", 0, [1, 0, 0]);
    p.add_task(0, "second".to_string());
    p.add_task(1, "doing".to_string());
    p.add_task(2, "finished".to_string());
    assert_eq!(titles(&p.not_done), vec!["a0", "second"]);
    assert_eq!(titles(&p.in_progress), vec!["doing"]);
    assert_eq!(titles(&p.done), vec!["finished"]);
    assert_eq!(p.total_tasks(), 4);
}

#[test]
fn add_task_to_unknown_column_adds_nothing() {
    let mut p = project("x", 0, [1, 1, 1]);
    p.add_task(3, "lost".to_string());
    p.add_task(usize::MAX, "lost".to_string());
    assert_eq!(p.total_tasks(), 3);
    assert_eq!(titles(&p.done), vec!["c0"]);
}

#[test]
fn get_column_maps_large_indices_to_done() {
    let p = project("x", 0, [1, 2, 3]);
    assert_eq!(p.get_column(0).len(), 1);
    assert_eq!(p.get_column(1).len(), 2);
    assert_eq!(p.get_column(2).len(), 3);
    assert_eq!(p.get_column(7).len(), 3);
}

#[test]
fn delete_task_removes_only_that_task() {
    let mut p = project("x", 5, [3, 0, 0]);
    p.delete_task(0, 1);
    assert_eq!(titles(&p.not_done), vec!["a0", "a2"]);
    assert_eq!(p.total_tasks(), 2);
}

#[test]
fn delete_task_out_of_range_changes_nothing() {
    let mut p = project("x", 5, [3, 0, 1]);
    p.delete_task(0, 3);
    p.delete_task(1, 0);
    assert_eq!(p.total_tasks(), 4);
    assert_eq!(p.last_updated, Timestamp { secs: 5, nanos: 0 });
}

#[test]
fn delete_task_with_large_column_index_uses_done() {
    let mut p = project("x", 5, [0, 0, 2]);
    p.delete_task(9, 0);
    assert_eq!(titles(&p.done), vec!["c1"]);
}

#[test]
fn move_task_appends_to_destination_and_returns_index() {
    let mut p = project("x", 5, [3, 2, 0]);
    assert_eq!(p.move_task(0, 1, 1), Some(2));
    assert_eq!(titles(&p.not_done), vec!["a0", "a2"]);
    assert_eq!(titles(&p.in_progress), vec!["b0", "b1", "a1"]);
    assert_eq!(p.total_tasks(), 5);
}

#[test]
fn move_task_same_column_is_refused() {
    let mut p = project("x", 5, [3, 2, 0]);
    assert_eq!(p.move_task(1, 0, 1), None);
    assert_eq!(titles(&p.in_progress), vec!["b0", "b1"]);
    assert_eq!(p.last_updated, Timestamp { secs: 5, nanos: 0 });
}

#[test]
fn move_task_out_of_range_is_refused() {
    let mut p = project("x", 5, [3, 2, 0]);
    assert_eq!(p.move_task(0, 3, 2), None);
    assert_eq!(p.total_tasks(), 5);
    assert_eq!(p.last_updated, Timestamp { secs: 5, nanos: 0 });
}

#[test]
fn move_task_between_indices_naming_done_is_refused() {
    let mut p = project("x", 5, [0, 0, 3]);
    assert_eq!(p.move_task(2, 0, 5), None);
    assert_eq!(p.move_task(7, 1, 3), None);
    assert_eq!(titles(&p.done), vec!["c0", "c1", "c2"]);
    assert_eq!(p.last_updated, Timestamp { secs: 5, nanos: 0 });
}

#[test]
fn move_task_from_large_index_reads_done() {
    let mut p = project("x", 5, [1, 0, 2]);
    assert_eq!(p.move_task(9, 1, 0), Some(1));
    assert_eq!(titles(&p.not_done), vec!["a0", "c1"]);
    assert_eq!(titles(&p.done), vec!["c0"]);
}

#[test]
fn stamped_changes_take_the_given_time() {
    let now = Timestamp { secs: 1_700_000_000, nanos: 42 };
    let p = Project::new_at("Garden", now);
    assert_eq!(p.name, "Garden");
    assert_eq!(p.total_tasks(), 0);
    assert_eq!(p.last_updated, now);

    let mut q = project("x", 5, [2, 0, 0]);
    q.add_task_at(1, "dig".to_string(), now);
    assert_eq!(q.last_updated, now);
    assert_eq!(titles(&q.in_progress), vec!["dig"]);

    let mut r = project("x", 5, [2, 0, 0]);
    r.add_task_at(4, "lost".to_string(), now);
    assert_eq!(r.last_updated, now);
    assert_eq!(r.total_tasks(), 2);

    let later = Timestamp { secs: 1_700_000_001, nanos: 0 };
    r.delete_task_at(0, 5, later);
    assert_eq!(r.last_updated, now);
    r.delete_task_at(0, 0, later);
    assert_eq!(r.last_updated, later);
    assert_eq!(titles(&r.not_done), vec!["a1"]);

    let even_later = Timestamp { secs: 1_700_000_002, nanos: 7 };
    assert_eq!(r.move_task_at(0, 0, 0, even_later), None);
    assert_eq!(r.last_updated, later);
    assert_eq!(r.move_task_at(0, 0, 2, even_later), Some(0));
    assert_eq!(r.last_updated, even_later);
    assert_eq!(titles(&r.done), vec!["a1"]);
}

#[test]
fn clock_stamps_are_in_range() {
    let mut p = project("x", 5, [1, 0, 0]);
    p.add_task(0, "t".to_string());
    assert!(p.last_updated.nanos < 2_000_000_000);
    assert!(p.last_updated.secs > 5);
    p.delete_task(0, 0);
    assert!(p.last_updated.nanos < 2_000_000_000);
}

#[test]
fn move_and_back_restores_other_column() {
    let mut p = project("x", 5, [3, 2, 0]);
    let i = p.move_task(0, 1, 1).unwrap();
    assert_eq!(p.move_task(1, i, 0), Some(2));
    assert_eq!(titles(&p.in_progress), vec!["b0", "b1"]);
    assert_eq!(titles(&p.not_done), vec!["a0", "a2", "a1"]);
    let j = p.move_task(0, 2, 2).unwrap();
    assert_eq!(p.move_task(2, j, 0), Some(2));
    assert_eq!(titles(&p.not_done), vec!["a0", "a2", "a1"]);
    assert!(p.done.is_empty());
}

#[test]
fn sort_alphabetical_ignores_case() {
    let mut v = vec![project("cherry", 0, [0; 3]), project("apple", 0, [0; 3]), project("Banana", 0, [0; 3])];
    sort_projects(&mut v, SortOrder::Alphabetical);
    assert_eq!(names(&v), vec!["apple", "Banana", "cherry"]);
}

#[test]
fn sort_alphabetical_is_stable_for_equal_lowercase() {
    let mut v = vec![project("b", 1, [0; 3]), project("A", 2, [0; 3]), project("a", 3, [0; 3])];
    sort_projects(&mut v, SortOrder::Alphabetical);
    assert_eq!(names(&v), vec!["A", "a", "b"]);
    let mut w = vec![project("a", 3, [0; 3]), project("A", 2, [0; 3])];
    sort_projects(&mut w, SortOrder::Alphabetical);
    assert_eq!(names(&w), vec!["a", "A"]);
}

#[test]
fn sort_alphabetical_prefix_first() {
    let mut v = vec![project("abc", 0, [0; 3]), project("ab", 0, [0; 3]), project("", 0, [0; 3])];
    sort_projects(&mut v, SortOrder::Alphabetical);
    assert_eq!(names(&v), vec!["", "ab", "abc"]);
}

#[test]
fn sort_time_updated_most_recent_first() {
    let mut v = vec![project("old", 10, [0; 3]), project("new", 30, [0; 3]), project("mid", 20, [0; 3])];
    v[1].last_updated = Timestamp { secs: 20, nanos: 5 };
    sort_projects(&mut v, SortOrder::TimeUpdated);
    assert_eq!(names(&v), vec!["new", "mid", "old"]);
}

#[test]
fn sort_task_count_most_first_and_stable() {
    let mut v = vec![
        project("one", 0, [1, 0, 0]),
        project("three", 0, [1, 1, 1]),
        project("one-b", 0, [0, 0, 1]),
        project("zero", 0, [0, 0, 0]),
    ];
    sort_projects(&mut v, SortOrder::TaskCount);
    assert_eq!(names(&v), vec!["three", "one", "one-b", "zero"]);
}

#[test]
fn sort_empty_and_single() {
    let mut v: Vec<Project> = Vec::new();
    sort_projects(&mut v, SortOrder::TaskCount);
    assert!(v.is_empty());
    let mut w = vec![project("only", 0, [0; 3])];
    sort_projects(&mut w, SortOrder::Alphabetical);
    assert_eq!(names(&w), vec!["only"]);
}

#[test]
fn sorting_twice_is_sorting_once() {
    let mut v = vec![
        project("d", 4, [0, 2, 0]),
        project("b", 1, [1, 0, 0]),
        project("C", 3, [0, 0, 1]),
        project("a", 2, [2, 0, 0]),
    ];
    for order in [SortOrder::Alphabetical, SortOrder::TimeUpdated, SortOrder::TaskCount] {
        sort_projects(&mut v, order);
        let once = names(&v);
        sort_projects(&mut v, order);
        assert_eq!(names(&v), once);
    }
}

#[test]
fn sort_order_next_cycles() {
    assert_eq!(SortOrder::Alphabetical.next(), SortOrder::TimeUpdated);
    assert_eq!(SortOrder::TimeUpdated.next(), SortOrder::TaskCount);
    assert_eq!(SortOrder::TaskCount.next(), SortOrder::Alphabetical);
    assert_eq!(SortOrder::TimeUpdated.next().next().next(), SortOrder::TimeUpdated);
}

#[test]
fn timestamp_before_orders_by_seconds_then_nanos() {
    let a = Timestamp { secs: 1, nanos: 999 };
    let b = Timestamp { secs: 2, nanos: 0 };
    let c = Timestamp { secs: 2, nanos: 1 };
    assert!(a.before(&b));
    assert!(b.before(&c));
    assert!(!c.before(&b));
    assert!(!b.before(&b));
}
