use termban::board::{Board, Key, Step, FIRST_PROJECT_NAME};
use termban::clock::Timestamp;
use termban::model::{InputMode, Project, SortOrder, Task};

fn project(name: &str, secs: i64, tasks: [&[&str]; 3]) -> Project {
    let mk = |ts: &[&str]| ts.iter().map(|t| Task { title: t.to_string() }).collect::<Vec<_>>();
    Project {
        name: name.to_string(),
        not_done: mk(tasks[0]),
        in_progress: mk(tasks[1]),
        done: mk(tasks[2]),
        last_updated: Timestamp { secs, nanos: 0 },
    }
}

fn titles(v: &[Task]) -> Vec<String> {
    v.iter().map(|t| t.title.clone()).collect()
}

fn names(b: &Board) -> Vec<String> {
    b.projects.iter().map(|p| p.name.clone()).collect()
}

fn type_text(b: &mut Board, text: &str) {
    for c in text.chars() {
        assert_eq!(b.handle_key(Key::Char(c)), Step::Continue);
    }
}

fn sample() -> Board {
    Board::new(vec![
        project("alpha", 1, [&["a", "b", "c"], &["d"], &[]]),
        project("beta", 2, [&[], &[], &["e"]]),
    ])
}

#[test]
fn new_board_on_nothing_saved_has_first_project() {
    let b = Board::new(Vec::new());
    assert_eq!(names(&b), vec![FIRST_PROJECT_NAME.to_string()]);
    assert_eq!(FIRST_PROJECT_NAME, "My First Project");
    assert_eq!(b.projects[0].total_tasks(), 0);
    assert_eq!((b.current_project, b.current_column, b.selected_task), (0, 0, 0));
    assert_eq!(b.sort_order, SortOrder::Alphabetical);
    assert_eq!(b.input_mode, InputMode::Normal);
    assert!(b.input_text.is_empty());
}

#[test]
fn new_board_keeps_saved_projects() {
    let b = sample();
    assert_eq!(names(&b), vec!["alpha", "beta"]);
}

#[test]
fn quit_key_quits_and_changes_nothing() {
    let mut b = sample();
    assert_eq!(b.handle_key(Key::Char('q')), Step::Quit);
    assert_eq!(names(&b), vec!["alpha", "beta"]);
}

#[test]
fn tab_three_times_returns_to_column() {
    let mut b = sample();
    b.selected_task = 2;
    b.handle_key(Key::Tab);
    assert_eq!((b.current_column, b.selected_task), (1, 0));
    b.handle_key(Key::Tab);
    assert_eq!(b.current_column, 2);
    b.handle_key(Key::Tab);
    assert_eq!(b.current_column, 0);
}

#[test]
fn left_and_right_wrap_around() {
    let mut b = sample();
    b.handle_key(Key::Left);
    assert_eq!(b.current_project, 1);
    b.handle_key(Key::Right);
    assert_eq!(b.current_project, 0);
    b.handle_key(Key::Right);
    assert_eq!(b.current_project, 1);
    b.handle_key(Key::Right);
    assert_eq!(b.current_project, 0);
}

#[test]
fn up_and_down_stay_inside_the_column() {
    let mut b = sample();
    b.handle_key(Key::Up);
    assert_eq!(b.selected_task, 0);
    b.handle_key(Key::Down);
    b.handle_key(Key::Down);
    b.handle_key(Key::Down);
    assert_eq!(b.selected_task, 2);
    b.handle_key(Key::Up);
    assert_eq!(b.selected_task, 1);
    b.current_column = 2;
    b.selected_task = 0;
    b.handle_key(Key::Down);
    assert_eq!(b.selected_task, 0);
}

#[test]
fn adding_a_task_by_typing() {
    let mut b = sample();
    b.current_column = 1;
    assert_eq!(b.handle_key(Key::Char('t')), Step::Continue);
    assert_eq!(b.input_mode, InputMode::AddTask);
    type_text(&mut b, "Wrire");
    b.handle_key(Key::Backspace);
    b.handle_key(Key::Backspace);
    type_text(&mut b, "te");
    assert_eq!(b.input_text, "Write");
    assert_eq!(b.handle_key(Key::Enter), Step::Save);
    assert_eq!(b.input_mode, InputMode::Normal);
    assert!(b.input_text.is_empty());
    assert_eq!(titles(&b.projects[0].in_progress), vec!["d", "Write"]);
}

#[test]
fn enter_with_no_text_adds_nothing() {
    let mut b = sample();
    b.handle_key(Key::Char('t'));
    assert_eq!(b.handle_key(Key::Enter), Step::Continue);
    assert_eq!(b.input_mode, InputMode::Normal);
    assert_eq!(b.projects[0].total_tasks(), 4);
}

#[test]
fn backspace_on_empty_text_does_nothing() {
    let mut b = sample();
    b.handle_key(Key::Char('p'));
    b.handle_key(Key::Backspace);
    assert!(b.input_text.is_empty());
    assert_eq!(b.input_mode, InputMode::AddProject);
}

#[test]
fn escape_discards_typed_text() {
    let mut b = sample();
    b.handle_key(Key::Char('p'));
    type_text(&mut b, "gamma");
    assert_eq!(b.handle_key(Key::Esc), Step::Continue);
    assert_eq!(b.input_mode, InputMode::Normal);
    assert!(b.input_text.is_empty());
    assert_eq!(names(&b), vec!["alpha", "beta"]);
}

#[test]
fn typing_q_while_adding_is_text_not_quit() {
    let mut b = sample();
    b.handle_key(Key::Char('p'));
    assert_eq!(b.handle_key(Key::Char('q')), Step::Continue);
    assert_eq!(b.input_text, "q");
}

#[test]
fn adding_a_project_jumps_to_it() {
    let mut b = sample();
    b.handle_key(Key::Char('p'));
    type_text(&mut b, "gamma");
    assert_eq!(b.handle_key(Key::Enter), Step::Save);
    assert_eq!(names(&b), vec!["alpha", "beta", "gamma"]);
    assert_eq!(b.current_project, 2);
    assert_eq!(b.projects[2].total_tasks(), 0);
}

#[test]
fn deleting_projects_keeps_cursor_on_board() {
    let mut b = sample();
    b.handle_key(Key::Right);
    assert_eq!(b.handle_key(Key::Char('d')), Step::Save);
    assert_eq!(names(&b), vec!["alpha"]);
    assert_eq!(b.current_project, 0);
    assert_eq!(b.handle_key(Key::Char('d')), Step::Save);
    assert!(b.projects.is_empty());
    assert_eq!(b.current_project, 0);
    assert_eq!(b.handle_key(Key::Char('d')), Step::Continue);
    assert_eq!(b.handle_key(Key::Char('t')), Step::Continue);
    assert_eq!(b.input_mode, InputMode::Normal);
    assert_eq!(b.handle_key(Key::Char('x')), Step::Continue);
    b.handle_key(Key::Right);
    b.handle_key(Key::Left);
    assert_eq!(b.current_project, 0);
}

#[test]
fn moving_the_highlighted_task_follows_it() {
    let mut b = sample();
    b.selected_task = 1;
    assert_eq!(b.handle_key(Key::Char('[')), Step::Continue);
    assert_eq!(b.handle_key(Key::Char(']')), Step::Save);
    assert_eq!((b.current_column, b.selected_task), (1, 1));
    assert_eq!(titles(&b.projects[0].not_done), vec!["a", "c"]);
    assert_eq!(titles(&b.projects[0].in_progress), vec!["d", "b"]);
    assert_eq!(b.handle_key(Key::Char(']')), Step::Save);
    assert_eq!((b.current_column, b.selected_task), (2, 0));
    assert_eq!(b.handle_key(Key::Char(']')), Step::Continue);
    assert_eq!(b.handle_key(Key::Char('[')), Step::Save);
    assert_eq!((b.current_column, b.selected_task), (1, 1));
    assert_eq!(titles(&b.projects[0].in_progress), vec!["d", "b"]);
}

#[test]
fn moving_with_no_task_selected_does_nothing() {
    let mut b = sample();
    b.current_column = 2;
    assert_eq!(b.handle_key(Key::Char('[')), Step::Continue);
    assert_eq!(b.current_column, 2);
}

#[test]
fn deleting_the_highlighted_task_moves_cursor_up() {
    let mut b = sample();
    b.selected_task = 2;
    assert_eq!(b.handle_key(Key::Char('x')), Step::Save);
    assert_eq!(titles(&b.projects[0].not_done), vec!["a", "b"]);
    assert_eq!(b.selected_task, 1);
    b.selected_task = 0;
    assert_eq!(b.handle_key(Key::Char('x')), Step::Save);
    assert_eq!(titles(&b.projects[0].not_done), vec!["b"]);
    assert_eq!(b.selected_task, 0);
}

#[test]
fn sort_key_cycles_orders() {
    let mut b = sample();
    b.handle_key(Key::Char('s'));
    assert_eq!(b.sort_order, SortOrder::TimeUpdated);
    b.handle_key(Key::Char('s'));
    assert_eq!(b.sort_order, SortOrder::TaskCount);
    b.handle_key(Key::Char('s'));
    assert_eq!(b.sort_order, SortOrder::Alphabetical);
}

#[test]
fn other_keys_do_nothing() {
    let mut b = sample();
    assert_eq!(b.handle_key(Key::Other), Step::Continue);
    assert_eq!(b.handle_key(Key::Char('z')), Step::Continue);
    assert_eq!(b.handle_key(Key::Enter), Step::Continue);
    assert_eq!(names(&b), vec!["alpha", "beta"]);
    assert_eq!(b.input_mode, InputMode::Normal);
}

#[test]
fn refresh_sorts_and_clamps_selection() {
    let mut b = sample();
    b.sort_order = SortOrder::TimeUpdated;
    b.selected_task = 9;
    b.refresh();
    assert_eq!(names(&b), vec!["beta", "alpha"]);
    // the cursor keeps its index: it now rests on "beta", whose first column is empty
    assert_eq!(b.current_project, 0);
    assert_eq!(b.selected_task, 0);
    b.current_project = 1;
    b.selected_task = 9;
    b.refresh();
    assert_eq!(b.selected_task, 2);
    b.selected_task = 1;
    b.refresh();
    assert_eq!(b.selected_task, 1);
}

#[test]
fn refresh_on_empty_board_resets_selection() {
    let mut b = sample();
    b.handle_key(Key::Char('d'));
    b.handle_key(Key::Char('d'));
    b.selected_task = 4;
    b.refresh();
    assert_eq!(b.selected_task, 0);
}
