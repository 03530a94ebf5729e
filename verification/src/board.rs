//! The state of the board as the user edits it, and what each key does to it.
//!
//! The front end runs a loop: `refresh` the board, draw it, read a key, hand
//! the key to `handle_key`, and then save, quit or go on as the returned
//! `Step` says.  All decisions of that loop are made here.

use vstd::prelude::*;
use crate::model::{
    adds_task, deletes_task, field_column, is_stable_sort_of, moves_task, sort_projects, InputMode, Project,
    SortOrder, Task,
};

verus! {

/// A key press, as far as the board tells keys apart.
#[derive(Clone, Copy, Debug, PartialEq, Eq, Structural)]
pub enum Key {
    Char(char),
    Enter,
    Esc,
    Backspace,
    Tab,
    Left,
    Right,
    Up,
    Down,
    Other,
}

/// What the front end does after a key has been handled.
#[derive(Clone, Copy, Debug, PartialEq, Eq, Structural)]
pub enum Step {
    /// Draw the board again and wait for the next key.
    Continue,
    /// Write the projects to disk, then go on.
    Save,
    /// Leave the loop (the projects are saved on the way out).
    Quit,
}

/// The projects and the cursor: which project and column are shown, which
/// task is highlighted, how projects are sorted, and any text being typed.
pub struct Board {
    pub projects: Vec<Project>,
    pub current_project: usize,
    pub current_column: usize,
    pub selected_task: usize,
    pub sort_order: SortOrder,
    pub input_mode: InputMode,
    pub input_text: String,
}

/// The name of the project that an empty board starts with.
pub const FIRST_PROJECT_NAME: &'static str = "My First Project";

/// Where a cursor of `len` entries lands when it was at `selected`: on the
/// last entry if it ran past the end, on 0 if there are none.
pub open spec fn clamp_selection(selected: int, len: int) -> int {
    if len == 0 {
        0
    } else if selected >= len {
        len - 1
    } else {
        selected
    }
}

/// `after` is `before` with the project at `k` replaced and no other change.
pub open spec fn only_project_changed(before: Seq<Project>, after: Seq<Project>, k: int) -> bool {
    &&& after.len() == before.len()
    &&& forall|i: int| 0 <= i < before.len() && i != k ==> after[i] == before[i]
}

impl Board {
    /// The cursor stays on the board: on a project when there is one (on 0
    /// when there is none), and on one of the three columns.
    pub open spec fn wf(self) -> bool {
        &&& self.projects@.len() == 0 ==> self.current_project == 0
        &&& self.projects@.len() > 0 ==> self.current_project < self.projects@.len()
        &&& self.current_column < 3
    }

    /// The project under the cursor, if there is one.
    pub open spec fn has_current(self) -> bool {
        self.current_project < self.projects@.len()
    }

    /// The tasks of the column under the cursor (empty without a project).
    pub open spec fn current_tasks(self) -> Seq<Task> {
        if self.has_current() {
            self.projects@[self.current_project as int].column(self.current_column as int)
        } else {
            Seq::empty()
        }
    }

    /// Everything but the projects and the text is as in `other`.
    pub open spec fn same_cursor(self, other: Board) -> bool {
        &&& self.current_project == other.current_project
        &&& self.current_column == other.current_column
        &&& self.selected_task == other.selected_task
        &&& self.sort_order == other.sort_order
    }

    /// A board with the saved projects, or, when nothing was saved, with one
    /// empty project named "My First Project"; the cursor on the first
    /// project's first column, sorted alphabetically, nothing being typed.
    pub fn new(projects: Vec<Project>) -> (b: Board)
        ensures
            b.wf(),
            projects@.len() > 0 ==> b.projects@ == projects@,
            projects@.len() == 0 ==> b.projects@.len() == 1 && b.projects@[0].name@
                == FIRST_PROJECT_NAME@ && b.projects@[0].task_count() == 0,
            b.current_project == 0,
            b.current_column == 0,
            b.selected_task == 0,
            b.sort_order == SortOrder::Alphabetical,
            b.input_mode == InputMode::Normal,
            b.input_text@.len() == 0,
    {
        let mut projects = projects;
        if projects.len() == 0 {
            projects.push(Project::new(FIRST_PROJECT_NAME));
        }
        Board {
            projects,
            current_project: 0,
            current_column: 0,
            selected_task: 0,
            sort_order: SortOrder::Alphabetical,
            input_mode: InputMode::Normal,
            input_text: String::new(),
        }
    }

    /// Sorts the projects by the current order and brings the highlighted
    /// task back into the column under the cursor.  The cursor keeps its
    /// index, so after sorting it may rest on another project.
    pub fn refresh(&mut self)
        requires
            old(self).wf(),
        ensures
            final(self).wf(),
            is_stable_sort_of(final(self).projects@, old(self).projects@, old(self).sort_order),
            final(self).current_project == old(self).current_project,
            final(self).current_column == old(self).current_column,
            final(self).sort_order == old(self).sort_order,
            final(self).input_mode == old(self).input_mode,
            final(self).input_text@ == old(self).input_text@,
            final(self).selected_task == clamp_selection(
                old(self).selected_task as int,
                final(self).current_tasks().len() as int,
            ),
    {
        sort_projects(self.projects.as_mut_slice(), self.sort_order);
        if self.current_project < self.projects.len() {
            let len = self.projects[self.current_project].get_column(self.current_column).len();
            if len == 0 {
                self.selected_task = 0;
            } else if self.selected_task >= len {
                self.selected_task = len - 1;
            }
        } else {
            self.selected_task = 0;
        }
    }
}

impl Board {
    /// What a key does while text is being typed (`input_mode` is not
    /// `Normal`).
    pub open spec fn typing_effect(before: Board, after: Board, key: Key, step: Step) -> bool {
        match key {
            Key::Enter => if before.input_text@.len() == 0 {
                &&& after.projects@ == before.projects@
                &&& after.same_cursor(before)
                &&& after.input_mode == InputMode::Normal
                &&& after.input_text@ == before.input_text@
                &&& step == Step::Continue
            } else {
                &&& after.input_mode == InputMode::Normal
                &&& after.input_text@.len() == 0
                &&& step == Step::Save
                &&& after.current_column == before.current_column
                &&& after.selected_task == before.selected_task
                &&& after.sort_order == before.sort_order
                &&& before.input_mode == InputMode::AddTask ==> {
                    &&& after.current_project == before.current_project
                    &&& before.has_current() ==> {
                        &&& only_project_changed(before.projects@, after.projects@, before.current_project as int)
                        &&& adds_task(
                            before.projects@[before.current_project as int],
                            after.projects@[before.current_project as int],
                            before.current_column as int,
                            Task { title: before.input_text },
                        )
                        &&& after.projects@[before.current_project as int].last_updated.nanos < 2_000_000_000
                    }
                    &&& !before.has_current() ==> after.projects@ == before.projects@
                }
                &&& before.input_mode == InputMode::AddProject ==> {
                    &&& after.projects@.len() == before.projects@.len() + 1
                    &&& after.projects@.take(before.projects@.len() as int) == before.projects@
                    &&& after.projects@.last().name@ == before.input_text@
                    &&& after.projects@.last().task_count() == 0
                    &&& after.projects@.last().last_updated.nanos < 2_000_000_000
                    &&& after.current_project == before.projects@.len()
                }
            },
            Key::Esc => {
                &&& after.projects@ == before.projects@
                &&& after.same_cursor(before)
                &&& after.input_mode == InputMode::Normal
                &&& after.input_text@.len() == 0
                &&& step == Step::Continue
            },
            _ => {
                &&& after.projects@ == before.projects@
                &&& after.same_cursor(before)
                &&& after.input_mode == before.input_mode
                &&& step == Step::Continue
                &&& after.input_text@ == match key {
                    Key::Char(c) => before.input_text@.push(c),
                    Key::Backspace => if before.input_text@.len() > 0 {
                        before.input_text@.drop_last()
                    } else {
                        before.input_text@
                    },
                    _ => before.input_text@,
                }
            },
        }
    }

    /// Handles a key while a task title or project name is being typed.
    fn type_key(&mut self, key: Key) -> (step: Step)
        requires
            old(self).wf(),
            old(self).input_mode != InputMode::Normal,
        ensures
            final(self).wf(),
            Board::typing_effect(*old(self), *final(self), key, step),
    {
        match key {
            Key::Enter => {
                if self.input_text.as_str().is_empty() {
                    self.input_mode = InputMode::Normal;
                    return Step::Continue;
                }
                match self.input_mode {
                    InputMode::AddTask => {
                        if self.current_project < self.projects.len() {
                            let title = self.input_text.clone();
                            self.projects[self.current_project].add_task(self.current_column, title);
                        }
                    },
                    InputMode::AddProject => {
                        let project = Project::new(self.input_text.as_str());
                        let ghost before = self.projects@;
                        self.projects.push(project);
                        self.current_project = self.projects.len() - 1;
                        assert(self.projects@.take(before.len() as int) =~= before);
                    },
                    InputMode::Normal => {},
                }
                self.input_text.clear();
                self.input_mode = InputMode::Normal;
                Step::Save
            },
            Key::Esc => {
                self.input_mode = InputMode::Normal;
                self.input_text.clear();
                Step::Continue
            },
            Key::Char(c) => {
                self.input_text.push(c);
                Step::Continue
            },
            Key::Backspace => {
                self.input_text.pop();
                Step::Continue
            },
            _ => Step::Continue,
        }
    }
}

impl Board {
    /// The text being typed, and whether any is, are as in `other`.
    pub open spec fn same_input(self, other: Board) -> bool {
        &&& self.input_mode == other.input_mode
        &&& self.input_text@ == other.input_text@
    }

    /// Moving the highlighted task to the column `to` (from the column under
    /// the cursor), as the keys `[` and `]` do once they have found a project
    /// under the cursor: on success the cursor follows the task to its new
    /// place and the board is saved; else the board stays as it was.
    pub open spec fn move_effect(before: Board, after: Board, to: int, step: Step) -> bool {
        let cp = before.current_project as int;
        let moved = before.selected_task < before.current_tasks().len();
        &&& only_project_changed(before.projects@, after.projects@, cp)
        &&& after.current_project == before.current_project
        &&& after.sort_order == before.sort_order
        &&& after.same_input(before)
        &&& moved ==> {
            &&& moves_task(
                before.projects@[cp],
                after.projects@[cp],
                before.current_column as int,
                before.selected_task as int,
                to,
                Some(after.selected_task),
            )
            &&& after.projects@[cp].last_updated.nanos < 2_000_000_000
            &&& after.current_column == to
            &&& step == Step::Save
        }
        &&& !moved ==> {
            &&& moves_task(
                before.projects@[cp],
                after.projects@[cp],
                before.current_column as int,
                before.selected_task as int,
                to,
                None,
            )
            &&& after.current_column == before.current_column
            &&& after.selected_task == before.selected_task
            &&& step == Step::Continue
        }
    }

    /// What a key does when no text is being typed.
    pub open spec fn command_effect(before: Board, after: Board, key: Key, step: Step) -> bool {
        let len = before.projects@.len() as int;
        let cp = before.current_project as int;
        let cc = before.current_column as int;
        let sel = before.selected_task as int;
        match key {
            Key::Char('d') => if len > 0 {
                &&& after.projects@ == before.projects@.remove(cp)
                &&& after.current_project == (if cp >= len - 1 && cp > 0 { cp - 1 } else { cp })
                &&& after.current_column == before.current_column
                &&& after.selected_task == 0
                &&& after.sort_order == before.sort_order
                &&& after.same_input(before)
                &&& step == Step::Save
            } else {
                &&& after.projects@ == before.projects@
                &&& after.same_cursor(before)
                &&& after.same_input(before)
                &&& step == Step::Continue
            },
            Key::Char('[') if cc > 0 && before.has_current() => Board::move_effect(before, after, cc - 1, step),
            Key::Char(']') if cc < 2 && before.has_current() => Board::move_effect(before, after, cc + 1, step),
            Key::Char('x') if before.has_current() => {
                &&& only_project_changed(before.projects@, after.projects@, cp)
                &&& deletes_task(before.projects@[cp], after.projects@[cp], cc, sel)
                &&& sel < before.current_tasks().len() ==> after.projects@[cp].last_updated.nanos < 2_000_000_000
                &&& after.current_project == before.current_project
                &&& after.current_column == before.current_column
                &&& after.selected_task == (if sel > 0 { sel - 1 } else { 0 })
                &&& after.sort_order == before.sort_order
                &&& after.same_input(before)
                &&& step == Step::Save
            },
            _ => {
                &&& after.projects@ == before.projects@
                &&& after.input_text@ == before.input_text@
                &&& step == (if key == Key::Char('q') { Step::Quit } else { Step::Continue })
                &&& after.input_mode == match key {
                    Key::Char('t') => if len > 0 { InputMode::AddTask } else { InputMode::Normal },
                    Key::Char('p') => InputMode::AddProject,
                    _ => InputMode::Normal,
                }
                &&& after.sort_order == (if key == Key::Char('s') { before.sort_order.following() } else { before.sort_order })
                &&& after.current_column == match key {
                    Key::Tab => (cc + 1) % 3,
                    _ => cc,
                }
                &&& after.current_project == match key {
                    Key::Left => if cp > 0 { cp - 1 } else if len > 0 { len - 1 } else { cp },
                    Key::Right => if len > 0 { (cp + 1) % len } else { cp },
                    _ => cp,
                }
                &&& after.selected_task == match key {
                    Key::Tab | Key::Left | Key::Right => 0,
                    Key::Up => if sel > 0 { sel - 1 } else { sel },
                    Key::Down => if sel + 1 < before.current_tasks().len() { sel + 1 } else { sel },
                    _ => sel,
                }
            },
        }
    }

    /// Moves the highlighted task of the current project to column `to`.
    fn move_selected(&mut self, to: usize) -> (step: Step)
        requires
            old(self).wf(),
            old(self).has_current(),
            to < 3,
            to != old(self).current_column,
        ensures
            final(self).wf(),
            Board::move_effect(*old(self), *final(self), to as int, step),
    {
        let cp = self.current_project;
        let from = self.current_column;
        let sel = self.selected_task;
        let moved = self.projects[cp].move_task(from, sel, to);
        match moved {
            Some(new_index) => {
                self.current_column = to;
                self.selected_task = new_index;
                Step::Save
            },
            None => Step::Continue,
        }
    }

    /// Handles a key when no text is being typed.
    fn command_key(&mut self, key: Key) -> (step: Step)
        requires
            old(self).wf(),
            old(self).input_mode == InputMode::Normal,
        ensures
            final(self).wf(),
            Board::command_effect(*old(self), *final(self), key, step),
    {
        match key {
            Key::Char('q') => Step::Quit,
            Key::Tab => {
                self.current_column = (self.current_column + 1) % 3;
                self.selected_task = 0;
                Step::Continue
            },
            Key::Left => {
                if self.current_project > 0 {
                    self.current_project = self.current_project - 1;
                } else if self.projects.len() > 0 {
                    self.current_project = self.projects.len() - 1;
                }
                self.selected_task = 0;
                Step::Continue
            },
            Key::Right => {
                if self.projects.len() > 0 {
                    self.current_project = (self.current_project + 1) % self.projects.len();
                }
                self.selected_task = 0;
                Step::Continue
            },
            Key::Up => {
                if self.selected_task > 0 {
                    self.selected_task = self.selected_task - 1;
                }
                Step::Continue
            },
            Key::Down => {
                if self.current_project < self.projects.len() {
                    let len = self.projects[self.current_project].get_column(self.current_column).len();
                    if len > 0 && self.selected_task < len - 1 {
                        self.selected_task = self.selected_task + 1;
                    }
                }
                Step::Continue
            },
            Key::Char('t') => {
                if self.projects.len() > 0 {
                    self.input_mode = InputMode::AddTask;
                }
                Step::Continue
            },
            Key::Char('p') => {
                self.input_mode = InputMode::AddProject;
                Step::Continue
            },
            Key::Char('d') => {
                if self.projects.len() > 0 {
                    self.projects.remove(self.current_project);
                    if self.current_project >= self.projects.len() && self.current_project > 0 {
                        self.current_project = self.current_project - 1;
                    }
                    self.selected_task = 0;
                    Step::Save
                } else {
                    Step::Continue
                }
            },
            Key::Char('[') => {
                if self.current_column > 0 && self.current_project < self.projects.len() {
                    self.move_selected(self.current_column - 1)
                } else {
                    Step::Continue
                }
            },
            Key::Char(']') => {
                if self.current_column < 2 && self.current_project < self.projects.len() {
                    self.move_selected(self.current_column + 1)
                } else {
                    Step::Continue
                }
            },
            Key::Char('x') => {
                if self.current_project < self.projects.len() {
                    let cp = self.current_project;
                    let cc = self.current_column;
                    let sel = self.selected_task;
                    self.projects[cp].delete_task(cc, sel);
                    if self.selected_task > 0 {
                        self.selected_task = self.selected_task - 1;
                    }
                    Step::Save
                } else {
                    Step::Continue
                }
            },
            Key::Char('s') => {
                self.sort_order = self.sort_order.next();
                Step::Continue
            },
            _ => Step::Continue,
        }
    }

    /// Handles one key press and says what the front end must do next.
    pub fn handle_key(&mut self, key: Key) -> (step: Step)
        requires
            old(self).wf(),
        ensures
            final(self).wf(),
            old(self).input_mode != InputMode::Normal ==> Board::typing_effect(*old(self), *final(self), key, step),
            old(self).input_mode == InputMode::Normal ==> Board::command_effect(*old(self), *final(self), key, step),
    {
        match self.input_mode {
            InputMode::Normal => self.command_key(key),
            _ => self.type_key(key),
        }
    }
}

/// Pressing Tab three times brings the cursor back to the column it started
/// in, with the projects untouched.
pub proof fn lemma_tab_cycles(b0: Board, b1: Board, b2: Board, b3: Board, s1: Step, s2: Step, s3: Step)
    requires
        b0.wf(),
        b0.input_mode == InputMode::Normal,
        Board::command_effect(b0, b1, Key::Tab, s1),
        Board::command_effect(b1, b2, Key::Tab, s2),
        Board::command_effect(b2, b3, Key::Tab, s3),
    ensures
        b3.current_column == b0.current_column,
        b3.projects@ == b0.projects@,
        b3.input_mode == InputMode::Normal,
{
}

/// Pressing the sort key three times comes back to the order one started from.
pub proof fn lemma_sort_key_cycles(b0: Board, b1: Board, b2: Board, b3: Board, s1: Step, s2: Step, s3: Step)
    requires
        b0.input_mode == InputMode::Normal,
        Board::command_effect(b0, b1, Key::Char('s'), s1),
        Board::command_effect(b1, b2, Key::Char('s'), s2),
        Board::command_effect(b2, b3, Key::Char('s'), s3),
    ensures
        b3.sort_order == b0.sort_order,
        b3.projects@ == b0.projects@,
{
}

/// On a board with projects, Right then Left, or Left then Right, comes back
/// to the project one started on.
pub proof fn lemma_left_right_undo(b0: Board, b1: Board, b2: Board, s1: Step, s2: Step, first: Key)
    requires
        b0.wf(),
        b0.input_mode == InputMode::Normal,
        b0.projects@.len() > 0,
        first == Key::Right || first == Key::Left,
        Board::command_effect(b0, b1, first, s1),
        Board::command_effect(b1, b2, if first == Key::Right { Key::Left } else { Key::Right }, s2),
    ensures
        b2.current_project == b0.current_project,
        b2.projects@ == b0.projects@,
{
    let len = b0.projects@.len() as int;
    let cp = b0.current_project as int;
    if first == Key::Right {
        if cp + 1 < len {
            assert((cp + 1) % len == cp + 1) by (nonlinear_arith)
                requires 0 <= cp, cp + 1 < len;
        } else {
            assert((cp + 1) % len == 0) by (nonlinear_arith)
                requires cp + 1 == len, len > 0;
        }
    } else {
        let c1 = b1.current_project as int;
        if cp > 0 {
            assert((c1 + 1) % len == cp) by (nonlinear_arith)
                requires c1 == cp - 1, 0 < cp < len;
        } else {
            assert((c1 + 1) % len == 0) by (nonlinear_arith)
                requires c1 == len - 1, len > 0;
        }
    }
}

/// Whatever is typed and then abandoned with Esc leaves the projects and the
/// cursor as they were.
pub proof fn lemma_escape_discards(before: Board, after: Board, step: Step)
    requires
        before.input_mode != InputMode::Normal,
        Board::typing_effect(before, after, Key::Esc, step),
    ensures
        after.projects@ == before.projects@,
        after.same_cursor(before),
        after.input_mode == InputMode::Normal,
        after.input_text@.len() == 0,
        step == Step::Continue,
{
}

/// The two lists hold the same projects in the same places, as far as
/// anything saved of them goes: names, columns and time stamps.
pub open spec fn same_contents(a: Seq<Project>, b: Seq<Project>) -> bool {
    &&& a.len() == b.len()
    &&& forall|i: int| 0 <= i < a.len() ==> {
        &&& (#[trigger] a[i]).name == b[i].name
        &&& a[i].columns() == b[i].columns()
        &&& a[i].last_updated == b[i].last_updated
    }
}

/// The board is saved after every change: a key that does not ask for a
/// save leaves every project as it was.
pub proof fn lemma_every_change_is_saved(before: Board, after: Board, key: Key, step: Step)
    requires
        before.wf(),
        before.input_mode != InputMode::Normal ==> Board::typing_effect(before, after, key, step),
        before.input_mode == InputMode::Normal ==> Board::command_effect(before, after, key, step),
        step != Step::Save,
    ensures
        same_contents(before.projects@, after.projects@),
{
}

/// The tasks of the column under the cursor, read from the fields of the
/// project under the cursor.
pub open spec fn tasks_under_cursor(b: Board) -> Seq<Task> {
    field_column(b.projects@[b.current_project as int], b.current_column as int)
}

/// Pressing `d` on a board with projects deletes the project under the
/// cursor: the ones before it stay where they are, the ones after it move up
/// by one, the board is saved, and the cursor stays on the board.
pub proof fn lemma_delete_key_removes_current(before: Board, after: Board, step: Step)
    requires
        before.wf(),
        before.input_mode == InputMode::Normal,
        before.projects@.len() > 0,
        Board::command_effect(before, after, Key::Char('d'), step),
    ensures
        ({
            let cp = before.current_project as int;
            let n = before.projects@.len();
            &&& after.projects@.len() == n - 1
            &&& forall|k: int| 0 <= k < cp ==> after.projects@[k] == before.projects@[k]
            &&& forall|k: int| cp <= k < n - 1 ==> after.projects@[k] == before.projects@[k + 1]
            &&& step == Step::Save
            &&& after.wf()
        }),
{
}

/// Down moves the cursor one task down when there is a task below it, and
/// otherwise leaves it; Up moves it one task up unless it is on the first.
pub proof fn lemma_up_down_step_by_one(before: Board, after: Board, key: Key, step: Step)
    requires
        before.wf(),
        before.input_mode == InputMode::Normal,
        key == Key::Down || key == Key::Up,
        Board::command_effect(before, after, key, step),
    ensures
        ({
            let sel = before.selected_task as int;
            let len = if before.projects@.len() > 0 { tasks_under_cursor(before).len() as int } else { 0 };
            &&& key == Key::Down && sel + 1 < len ==> after.selected_task == sel + 1
            &&& key == Key::Down && sel + 1 >= len ==> after.selected_task == sel
            &&& key == Key::Up && sel > 0 ==> after.selected_task == sel - 1
            &&& key == Key::Up && sel == 0 ==> after.selected_task == 0
            &&& after.projects@ == before.projects@
            &&& after.current_project == before.current_project
            &&& after.current_column == before.current_column
            &&& step == Step::Continue
        }),
{
}

/// Down then Up, with a task below the cursor, brings the cursor back to
/// the task it was on.
pub proof fn lemma_down_then_up_returns(b0: Board, b1: Board, b2: Board, s1: Step, s2: Step)
    requires
        b0.wf(),
        b0.input_mode == InputMode::Normal,
        b0.projects@.len() > 0,
        b0.selected_task + 1 < tasks_under_cursor(b0).len(),
        Board::command_effect(b0, b1, Key::Down, s1),
        Board::command_effect(b1, b2, Key::Up, s2),
    ensures
        b2.selected_task == b0.selected_task,
        b2.projects@ == b0.projects@,
{
}

/// Pressing `x` deletes the highlighted task of the column under the cursor
/// (the tasks after it close up) and leaves every other project alone.
pub proof fn lemma_x_deletes_highlighted(before: Board, after: Board, step: Step)
    requires
        before.wf(),
        before.input_mode == InputMode::Normal,
        before.projects@.len() > 0,
        before.selected_task < tasks_under_cursor(before).len(),
        Board::command_effect(before, after, Key::Char('x'), step),
    ensures
        ({
            let cp = before.current_project as int;
            let sel = before.selected_task as int;
            let old_col = tasks_under_cursor(before);
            let new_col = field_column(after.projects@[cp], before.current_column as int);
            &&& after.projects@.len() == before.projects@.len()
            &&& forall|k: int| 0 <= k < before.projects@.len() && k != cp ==> after.projects@[k] == before.projects@[k]
            &&& new_col.len() == old_col.len() - 1
            &&& forall|k: int| 0 <= k < sel ==> new_col[k] == old_col[k]
            &&& forall|k: int| sel <= k < new_col.len() ==> new_col[k] == old_col[k + 1]
            &&& after.selected_task == if sel > 0 { sel - 1 } else { 0 }
            &&& step == Step::Save
        }),
{
    let cp = before.current_project as int;
    crate::model::lemma_delete_task_means(before.projects@[cp], after.projects@[cp], before.current_column as int, before.selected_task as int);
}

/// Pressing `[` or `]` on a highlighted task moves it to the end of the
/// previous or next column and the cursor follows it: afterwards the cursor
/// is on that column and on the very task that was highlighted, which is the
/// last one there.
pub proof fn lemma_bracket_keys_follow_task(before: Board, after: Board, key: Key, step: Step)
    requires
        before.wf(),
        before.input_mode == InputMode::Normal,
        before.projects@.len() > 0,
        key == Key::Char('[') && before.current_column > 0 || key == Key::Char(']') && before.current_column < 2,
        before.selected_task < tasks_under_cursor(before).len(),
        Board::command_effect(before, after, key, step),
    ensures
        ({
            let to = if key == Key::Char('[') { before.current_column - 1 } else { before.current_column + 1 };
            let moved = tasks_under_cursor(before)[before.selected_task as int];
            &&& after.current_column == to
            &&& after.current_project == before.current_project
            &&& after.selected_task + 1 == tasks_under_cursor(after).len()
            &&& tasks_under_cursor(after)[after.selected_task as int] == moved
            &&& after.projects@[before.current_project as int].task_count()
                == before.projects@[before.current_project as int].task_count()
            &&& step == Step::Save
        }),
{
    let cp = before.current_project as int;
    let to = if key == Key::Char('[') { before.current_column - 1 } else { before.current_column + 1 };
    crate::model::lemma_move_task_means(
        before.projects@[cp],
        after.projects@[cp],
        before.current_column as int,
        before.selected_task as int,
        to as int,
        Some(after.selected_task),
    );
    let b = before.projects@[cp];
    let a = after.projects@[cp];
    let f = before.current_column as int;
    let t = to as int;
    let third = 3 - f - t;
    assert(field_column(a, third) == field_column(b, third));
    assert(a.task_count() == field_column(a, 0).len() + field_column(a, 1).len() + field_column(a, 2).len());
    assert(b.task_count() == field_column(b, 0).len() + field_column(b, 1).len() + field_column(b, 2).len());
    assert(tasks_under_cursor(after) == field_column(a, t));
    assert(a.columns()[t] == field_column(a, t));
    assert(a.not_done@.len() == a.not_done.len());
    assert(a.in_progress@.len() == a.in_progress.len());
    assert(a.done@.len() == a.done.len());
}

/// Typing a title and pressing Enter while adding a task puts a task with
/// exactly that title at the end of the column under the cursor, and saves.
pub proof fn lemma_enter_adds_typed_task(before: Board, after: Board, step: Step)
    requires
        before.wf(),
        before.input_mode == InputMode::AddTask,
        before.projects@.len() > 0,
        before.input_text@.len() > 0,
        Board::typing_effect(before, after, Key::Enter, step),
    ensures
        ({
            let cp = before.current_project as int;
            let new_col = tasks_under_cursor(after);
            &&& new_col.len() == tasks_under_cursor(before).len() + 1
            &&& new_col.last().title@ == before.input_text@
            &&& forall|k: int| 0 <= k < tasks_under_cursor(before).len() ==> new_col[k] == tasks_under_cursor(before)[k]
            &&& after.projects@.len() == before.projects@.len()
            &&& after.input_text@.len() == 0
            &&& after.input_mode == InputMode::Normal
            &&& step == Step::Save
        }),
{
    let cp = before.current_project as int;
    crate::model::lemma_add_task_means(
        before.projects@[cp],
        after.projects@[cp],
        before.current_column as int,
        Task { title: before.input_text },
    );
}

/// Typing a name and pressing Enter while adding a project appends a project
/// with exactly that name and no tasks, puts the cursor on it, and saves.
pub proof fn lemma_enter_adds_typed_project(before: Board, after: Board, step: Step)
    requires
        before.wf(),
        before.input_mode == InputMode::AddProject,
        before.input_text@.len() > 0,
        Board::typing_effect(before, after, Key::Enter, step),
    ensures
        ({
            let n = before.projects@.len();
            let p = after.projects@[n as int];
            &&& after.projects@.len() == n + 1
            &&& forall|k: int| 0 <= k < n ==> after.projects@[k] == before.projects@[k]
            &&& p.name@ == before.input_text@
            &&& p.not_done@.len() == 0 && p.in_progress@.len() == 0 && p.done@.len() == 0
            &&& after.current_project == n
            &&& after.wf()
            &&& step == Step::Save
        }),
{
    let n = before.projects@.len() as int;
    assert forall|k: int| 0 <= k < n implies after.projects@[k] == before.projects@[k] by {
        assert(after.projects@.take(n)[k] == after.projects@[k]);
    }
}

/// The moving keys: Tab goes to the next column, from the last back to the
/// first; Right goes to the next project, from the last back to the first;
/// Left goes to the previous project, from the first to the last.  Each puts
/// the cursor on the first task and leaves the projects alone.
pub proof fn lemma_moving_keys(before: Board, after: Board, key: Key, step: Step)
    requires
        before.wf(),
        before.input_mode == InputMode::Normal,
        key == Key::Tab || key == Key::Left || key == Key::Right,
        Board::command_effect(before, after, key, step),
    ensures
        ({
            let cc = before.current_column as int;
            let cp = before.current_project as int;
            let n = before.projects@.len() as int;
            &&& key == Key::Tab && cc < 2 ==> after.current_column == cc + 1
            &&& key == Key::Tab && cc == 2 ==> after.current_column == 0
            &&& key == Key::Tab ==> after.current_project == cp
            &&& key != Key::Tab ==> after.current_column == cc
            &&& key == Key::Right && cp + 1 < n ==> after.current_project == cp + 1
            &&& key == Key::Right && cp + 1 == n ==> after.current_project == 0
            &&& key == Key::Left && cp > 0 ==> after.current_project == cp - 1
            &&& key == Key::Left && cp == 0 && n > 0 ==> after.current_project == n - 1
            &&& n == 0 ==> after.current_project == 0
            &&& after.selected_task == 0
            &&& after.projects@ == before.projects@
            &&& step == Step::Continue
        }),
{
    let cp = before.current_project as int;
    let n = before.projects@.len() as int;
    if key == Key::Right && n > 0 {
        if cp + 1 < n {
            assert((cp + 1) % n == cp + 1) by (nonlinear_arith)
                requires 0 <= cp, cp + 1 < n;
        } else {
            assert((cp + 1) % n == 0) by (nonlinear_arith)
                requires cp + 1 == n, n > 0;
        }
    }
}

/// The keys that only switch modes or orders: `q` quits, `s` switches from
/// alphabetical to recently updated to most tasks and back to alphabetical,
/// `t` starts typing a task when there is a project, `p` starts typing a
/// project; none of them touches the projects.
pub proof fn lemma_mode_keys(before: Board, after: Board, c: char, step: Step)
    requires
        before.wf(),
        before.input_mode == InputMode::Normal,
        c == 'q' || c == 's' || c == 't' || c == 'p',
        Board::command_effect(before, after, Key::Char(c), step),
    ensures
        after.projects@ == before.projects@,
        after.input_text@ == before.input_text@,
        after.current_project == before.current_project,
        after.current_column == before.current_column,
        c == 'q' <==> step == Step::Quit,
        c == 's' && before.sort_order == SortOrder::Alphabetical ==> after.sort_order == SortOrder::TimeUpdated,
        c == 's' && before.sort_order == SortOrder::TimeUpdated ==> after.sort_order == SortOrder::TaskCount,
        c == 's' && before.sort_order == SortOrder::TaskCount ==> after.sort_order == SortOrder::Alphabetical,
        c != 's' ==> after.sort_order == before.sort_order,
        c == 't' && before.projects@.len() > 0 ==> after.input_mode == InputMode::AddTask,
        c == 'p' ==> after.input_mode == InputMode::AddProject,
        (c == 'q' || c == 's' || (c == 't' && before.projects@.len() == 0)) ==> after.input_mode == InputMode::Normal,
{
}

/// After a refresh the highlighted task is one of the tasks of the column
/// under the cursor, or 0 when that column is empty or there is no project;
/// a task that was highlighted and still exists stays highlighted.
pub proof fn lemma_refresh_keeps_cursor_in_column(before: Board, after: Board)
    requires
        before.wf(),
        is_stable_sort_of(after.projects@, before.projects@, before.sort_order),
        after.current_project == before.current_project,
        after.current_column == before.current_column,
        after.selected_task == clamp_selection(before.selected_task as int, after.current_tasks().len() as int),
    ensures
        ({
            let len = if after.projects@.len() > 0 { tasks_under_cursor(after).len() as int } else { 0 };
            &&& len > 0 ==> after.selected_task < len
            &&& len == 0 ==> after.selected_task == 0
            &&& before.selected_task < len ==> after.selected_task == before.selected_task
            &&& after.projects@.len() == before.projects@.len()
        }),
{
    if after.projects@.len() > 0 {
        let p = after.projects@[after.current_project as int];
        assert(p.columns()[after.current_column as int] == field_column(p, after.current_column as int));
    }
}

} // verus!
