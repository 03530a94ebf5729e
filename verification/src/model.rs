//! Tasks, projects and the three columns of a project.

use vstd::prelude::*;
use vstd::string::StringExecFns;
use crate::clock::{now, Timestamp};
use crate::text::{
    chars_before, lemma_chars_before_irreflexive, lemma_chars_before_total, lemma_chars_before_transitive,
    lowercase, lowercase_of, str_before,
};

verus! {

/// One card on the board.
#[derive(Clone, Debug)]
pub struct Task {
    pub title: String,
}

/// A project: a name, three columns of tasks and the moment of its last change.
#[derive(Clone, Debug)]
pub struct Project {
    pub name: String,
    pub not_done: Vec<Task>,
    pub in_progress: Vec<Task>,
    pub done: Vec<Task>,
    pub last_updated: Timestamp,
}

/// The column that an index names: 0 is "not done", 1 "in progress",
/// and every other index "done".
pub open spec fn slot(column_index: int) -> int {
    if column_index == 0 {
        0
    } else if column_index == 1 {
        1
    } else {
        2
    }
}

impl Project {
    /// The three columns, in the order not done, in progress, done.
    pub open spec fn columns(self) -> Seq<Seq<Task>> {
        seq![self.not_done@, self.in_progress@, self.done@]
    }

    /// The tasks of the column that `column_index` names (see `slot`).
    pub open spec fn column(self, column_index: int) -> Seq<Task> {
        self.columns()[slot(column_index)]
    }

    /// The number of tasks in all three columns.
    pub open spec fn task_count(self) -> nat {
        self.not_done@.len() + self.in_progress@.len() + self.done@.len()
    }

    /// A new project with the given name, no tasks, stamped with the current time.
    pub fn new(name: &str) -> (p: Project)
        ensures
            p.name@ == name@,
            p.not_done@.len() == 0,
            p.in_progress@.len() == 0,
            p.done@.len() == 0,
            p.last_updated.nanos < 2_000_000_000,
    {
        Project::new_at(name, now())
    }

    /// A new project with the given name, no tasks, stamped with `now`.
    pub fn new_at(name: &str, now: Timestamp) -> (p: Project)
        ensures
            p.name@ == name@,
            p.not_done@.len() == 0,
            p.in_progress@.len() == 0,
            p.done@.len() == 0,
            p.last_updated == now,
    {
        Project {
            name: String::from_str(name),
            not_done: Vec::new(),
            in_progress: Vec::new(),
            done: Vec::new(),
            last_updated: now,
        }
    }

    /// The number of tasks in all three columns.
    pub fn total_tasks(&self) -> (n: usize)
        requires
            self.task_count() <= usize::MAX,
        ensures
            n == self.task_count(),
    {
        self.not_done.len() + self.in_progress.len() + self.done.len()
    }

    /// Appends a task with this title to the column `column_index` (0, 1 or
    /// 2; any other index adds nothing) and stamps the project with the
    /// current time.
    pub fn add_task(&mut self, column_index: usize, title: String)
        ensures
            adds_task(*old(self), *final(self), column_index as int, Task { title }),
            final(self).last_updated.nanos < 2_000_000_000,
    {
        self.add_task_at(column_index, title, now());
    }

    /// Appends a task with this title to the column `column_index` (0, 1 or
    /// 2; any other index adds nothing) and stamps the project with `now`.
    pub fn add_task_at(&mut self, column_index: usize, title: String, now: Timestamp)
        ensures
            adds_task(*old(self), *final(self), column_index as int, Task { title }),
            final(self).last_updated == now,
    {
        let task = Task { title };
        let ghost added = task;
        match column_index {
            0 => self.not_done.push(task),
            1 => self.in_progress.push(task),
            2 => self.done.push(task),
            _ => {},
        }
        self.last_updated = now;
        proof {
            if column_index < 3 {
                assert(self.columns() =~= old(self).columns().update(
                    column_index as int,
                    old(self).column(column_index as int).push(added),
                ));
            } else {
                assert(self.columns() =~= old(self).columns());
            }
        }
    }

    /// Read-only access to a column by index (0 = not_done, 1 = in_progress,
    /// any other index = done).
    pub fn get_column(&self, column_index: usize) -> (r: &Vec<Task>)
        ensures
            r@ == self.column(column_index as int),
    {
        match column_index {
            0 => &self.not_done,
            1 => &self.in_progress,
            _ => &self.done,
        }
    }

    /// Mutable access to a column by index (0 = not_done, 1 = in_progress,
    /// any other index = done).
    fn get_column_mut(&mut self, column_index: usize) -> (r: &mut Vec<Task>)
        ensures
            r@ == old(self).column(column_index as int),
            final(self).name == old(self).name,
            final(self).last_updated == old(self).last_updated,
            final(self).columns() == old(self).columns().update(slot(column_index as int), final(r)@),
    {
        match column_index {
            0 => &mut self.not_done,
            1 => &mut self.in_progress,
            _ => &mut self.done,
        }
    }

    /// Removes the task at `task_index` within the given column, if it
    /// exists, and then stamps the project with the current time; an index
    /// past the end of the column changes nothing.
    pub fn delete_task(&mut self, column_index: usize, task_index: usize)
        ensures
            deletes_task(*old(self), *final(self), column_index as int, task_index as int),
            task_index < old(self).column(column_index as int).len()
                ==> final(self).last_updated.nanos < 2_000_000_000,
    {
        if task_index < self.get_column(column_index).len() {
            self.delete_task_at(column_index, task_index, now());
        }
    }

    /// Removes the task at `task_index` within the given column, if it
    /// exists, and then stamps the project with `now`; an index past the end
    /// of the column changes nothing.
    pub fn delete_task_at(&mut self, column_index: usize, task_index: usize, now: Timestamp)
        ensures
            deletes_task(*old(self), *final(self), column_index as int, task_index as int),
            task_index < old(self).column(column_index as int).len() ==> final(self).last_updated == now,
    {
        let column = self.get_column_mut(column_index);
        if task_index < column.len() {
            column.remove(task_index);
            self.last_updated = now;
        }
    }

    /// Moves the task at `task_index` in `from_column` to the end of
    /// `to_column` and stamps the project with the current time.  Returns the
    /// task's new index within `to_column` on success, or `None`, changing
    /// nothing, if the columns are the same or the index is out of range.
    pub fn move_task(&mut self, from_column: usize, task_index: usize, to_column: usize) -> (r: Option<usize>)
        ensures
            moves_task(*old(self), *final(self), from_column as int, task_index as int, to_column as int, r),
            final(self).task_count() == old(self).task_count(),
            r is Some ==> final(self).last_updated.nanos < 2_000_000_000,
    {
        if column_slot(from_column) == column_slot(to_column) {
            return None;
        }
        if task_index >= self.get_column(from_column).len() {
            return None;
        }
        self.move_task_at(from_column, task_index, to_column, now())
    }

    /// Moves the task at `task_index` in `from_column` to the end of
    /// `to_column` and stamps the project with `now`.  Returns the task's new
    /// index within `to_column` on success, or `None`, changing nothing, if
    /// the two indices name the same column or the index is out of range.
    pub fn move_task_at(&mut self, from_column: usize, task_index: usize, to_column: usize, now: Timestamp) -> (r: Option<usize>)
        ensures
            moves_task(*old(self), *final(self), from_column as int, task_index as int, to_column as int, r),
            final(self).task_count() == old(self).task_count(),
            r is Some ==> final(self).last_updated == now,
    {
        if column_slot(from_column) == column_slot(to_column) {
            return None;
        }
        let task = {
            let source = self.get_column_mut(from_column);
            if task_index >= source.len() {
                return None;
            }
            source.remove(task_index)
        };
        let new_index = {
            let dest = self.get_column_mut(to_column);
            dest.push(task);
            dest.len() - 1
        };
        self.last_updated = now;
        Some(new_index)
    }
}

/// The column that an index names, as `slot` reads it.
fn column_slot(column_index: usize) -> (r: usize)
    ensures
        r == slot(column_index as int),
{
    match column_index {
        0 => 0,
        1 => 1,
        _ => 2,
    }
}

/// The columns after the task at `task_index` of column `from` is taken out
/// and appended to column `to` (both indices read as `slot` reads them, and
/// naming two different columns).
pub open spec fn columns_after_move(cols: Seq<Seq<Task>>, from: int, task_index: int, to: int) -> Seq<Seq<Task>> {
    let removed = cols.update(slot(from), cols[slot(from)].remove(task_index));
    removed.update(slot(to), removed[slot(to)].push(cols[slot(from)][task_index]))
}

/// `after` is `before` with `task` appended to the column `column_index`
/// (0, 1 or 2; with any other index the columns stay as they were) and the
/// same name.  The time stamp is not constrained.
pub open spec fn adds_task(before: Project, after: Project, column_index: int, task: Task) -> bool {
    &&& after.name == before.name
    &&& 0 <= column_index < 3 ==> after.columns() == before.columns().update(
        column_index,
        before.column(column_index).push(task),
    )
    &&& column_index >= 3 ==> after.columns() == before.columns()
}

/// `after` is `before` without the task at `task_index` of the column that
/// `column_index` names, or, if there is no such task, `before` unchanged
/// (time stamp included).  When a task goes the time stamp is not
/// constrained here.
pub open spec fn deletes_task(before: Project, after: Project, column_index: int, task_index: int) -> bool {
    &&& after.name == before.name
    &&& task_index < before.column(column_index).len() ==> after.columns() == before.columns().update(
        slot(column_index),
        before.column(column_index).remove(task_index),
    )
    &&& task_index >= before.column(column_index).len() ==> after.columns() == before.columns()
        && after.last_updated == before.last_updated
}

/// `after` and the result `r` are what moving the task at `task_index` of
/// column `from` to the end of column `to` gives: nothing, and `None`, when
/// the two indices name the same column or there is no such task; else the
/// task is moved and `r` is its index in its new column.  The time stamp is
/// constrained only when nothing moves: then it stays.
pub open spec fn moves_task(
    before: Project,
    after: Project,
    from: int,
    task_index: int,
    to: int,
    r: Option<usize>,
) -> bool {
    &&& after.name == before.name
    &&& slot(from) == slot(to) || task_index >= before.column(from).len() ==> r is None
        && after.columns() == before.columns() && after.last_updated == before.last_updated
    &&& slot(from) != slot(to) && 0 <= task_index < before.column(from).len() ==> {
        &&& after.columns() == columns_after_move(before.columns(), from, task_index, to)
        &&& r == Some((after.column(to).len() - 1) as usize)
    }
}

/// The orders in which the board lists its projects.
#[derive(Debug, Clone, Copy, PartialEq, Eq, Structural)]
pub enum SortOrder {
    /// By name, ignoring case.
    Alphabetical,
    /// Most recently changed first.
    TimeUpdated,
    /// Most tasks first.
    TaskCount,
}

impl SortOrder {
    /// The order that the sort key switches to: alphabetical, then most
    /// recently updated, then most tasks, then alphabetical again.
    pub open spec fn following(self) -> SortOrder {
        match self {
            SortOrder::Alphabetical => SortOrder::TimeUpdated,
            SortOrder::TimeUpdated => SortOrder::TaskCount,
            SortOrder::TaskCount => SortOrder::Alphabetical,
        }
    }

    /// The order that comes after this one in the cycle.
    pub fn next(self) -> (r: SortOrder)
        ensures
            r == self.following(),
    {
        match self {
            SortOrder::Alphabetical => SortOrder::TimeUpdated,
            SortOrder::TimeUpdated => SortOrder::TaskCount,
            SortOrder::TaskCount => SortOrder::Alphabetical,
        }
    }
}

/// Pressing the sort key three times comes back to the order one started from.
pub proof fn lemma_sort_cycle_returns(order: SortOrder)
    ensures
        order.following().following().following() == order,
{
}

/// What the user is currently typing.
#[derive(Debug, PartialEq, Eq, Structural)]
pub enum InputMode {
    /// Keys are commands.
    Normal,
    /// Keys spell the title of a new task.
    AddTask,
    /// Keys spell the name of a new project.
    AddProject,
}

/// `a` must be listed before `b` under `order`: its key is strictly smaller.
pub open spec fn goes_before(order: SortOrder, a: Project, b: Project) -> bool {
    match order {
        SortOrder::Alphabetical => chars_before(lowercase_of(a.name@), lowercase_of(b.name@)),
        SortOrder::TimeUpdated => b.last_updated.is_before(a.last_updated),
        SortOrder::TaskCount => b.task_count() < a.task_count(),
    }
}

/// Neither project must be listed before the other under `order`.
pub open spec fn ties(order: SortOrder, a: Project, b: Project) -> bool {
    !goes_before(order, a, b) && !goes_before(order, b, a)
}

/// No project of `s` is listed after one that must come after it.
pub open spec fn is_sorted_by(s: Seq<Project>, order: SortOrder) -> bool {
    forall|i: int, j: int| 0 <= i < j < s.len() ==> !goes_before(order, #[trigger] s[j], #[trigger] s[i])
}

/// `p` shows that `out` is `inp` rearranged with ties kept in their order:
/// position `i` of `out` holds the element at position `p[i]` of `inp`, no
/// position of `inp` is taken twice, and of two tied elements the one that
/// came first in `inp` comes first in `out`.
pub open spec fn rearranged_stably(out: Seq<Project>, inp: Seq<Project>, order: SortOrder, p: Seq<int>) -> bool {
    &&& out.len() == inp.len()
    &&& p.len() == inp.len()
    &&& forall|i: int| 0 <= i < out.len() ==> 0 <= #[trigger] p[i] < inp.len() && out[i] == inp[p[i]]
    &&& forall|i: int, j: int| 0 <= i < j < out.len() ==> #[trigger] p[i] != #[trigger] p[j]
    &&& forall|i: int, j: int| 0 <= i < j < out.len() && ties(order, #[trigger] out[i], #[trigger] out[j]) ==> p[i] < p[j]
}

/// `out` is the stable sort of `inp` under `order`.
pub open spec fn is_stable_sort_of(out: Seq<Project>, inp: Seq<Project>, order: SortOrder) -> bool {
    &&& is_sorted_by(out, order)
    &&& exists|p: Seq<int>| rearranged_stably(out, inp, order, p)
}

/// Under every order "must come before" is a strict weak order: no project
/// comes before itself or before one that comes before it, and "need not come
/// before" is transitive.
pub proof fn lemma_goes_before_strict_weak(order: SortOrder, a: Project, b: Project, c: Project)
    ensures
        !goes_before(order, a, a),
        goes_before(order, a, b) ==> !goes_before(order, b, a),
        goes_before(order, a, b) && goes_before(order, b, c) ==> goes_before(order, a, c),
        !goes_before(order, a, b) && !goes_before(order, b, c) ==> !goes_before(order, a, c),
{
    if order is Alphabetical {
        let ka = lowercase_of(a.name@);
        let kb = lowercase_of(b.name@);
        let kc = lowercase_of(c.name@);
        lemma_chars_before_irreflexive(ka);
        if chars_before(ka, kb) && chars_before(kb, ka) {
            lemma_chars_before_transitive(ka, kb, ka);
        }
        if chars_before(ka, kb) && chars_before(kb, kc) {
            lemma_chars_before_transitive(ka, kb, kc);
        }
        if !chars_before(ka, kb) && !chars_before(kb, kc) && chars_before(ka, kc) {
            if ka != kb {
                lemma_chars_before_total(ka, kb);
                lemma_chars_before_transitive(kb, ka, kc);
            }
        }
    }
}

/// Whether `a` must be listed before `b` under `order`.
fn project_goes_before(order: SortOrder, a: &Project, b: &Project) -> (r: bool)
    ensures
        r == goes_before(order, *a, *b),
{
    match order {
        SortOrder::Alphabetical => {
            let ka = lowercase(a.name.as_str());
            let kb = lowercase(b.name.as_str());
            str_before(ka.as_str(), kb.as_str())
        },
        SortOrder::TimeUpdated => b.last_updated.before(&a.last_updated),
        SortOrder::TaskCount => {
            let na = a.not_done.len() as u128 + a.in_progress.len() as u128 + a.done.len() as u128;
            let nb = b.not_done.len() as u128 + b.in_progress.len() as u128 + b.done.len() as u128;
            nb < na
        },
    }
}

/// Swaps two elements of a slice (`<[T]>::swap`), which panics unless both
/// indices are in bounds.
pub assume_specification<T>[ <[T]>::swap ](s: &mut [T], a: usize, b: usize)
    requires
        a < old(s)@.len(),
        b < old(s)@.len(),
    ensures
        final(s)@ == old(s)@.update(a as int, old(s)@[b as int]).update(b as int, old(s)@[a as int]),
;

/// One step of insertion: the element at `j`, which must come before its left
/// neighbour, trades places with it, and the witness of the rearrangement
/// trades the same two entries.
proof fn lemma_swap_keeps_rearrangement(
    before: Seq<Project>,
    after: Seq<Project>,
    orig: Seq<Project>,
    order: SortOrder,
    old_perm: Seq<int>,
    perm: Seq<int>,
    j: int,
    i: int,
)
    requires
        0 < j <= i < before.len(),
        after == before.update(j - 1, before[j]).update(j, before[j - 1]),
        perm == old_perm.update(j - 1, old_perm[j]).update(j, old_perm[j - 1]),
        rearranged_stably(before, orig, order, old_perm),
        old_perm[j] == i,
        forall|k: int| 0 <= k <= i ==> #[trigger] old_perm[k] <= i,
        forall|k: int| i < k < before.len() ==> #[trigger] old_perm[k] == k,
        goes_before(order, before[j], before[j - 1]),
        forall|a: int, b: int| 0 <= a < b <= i && a != j && b != j
            ==> !goes_before(order, #[trigger] before[b], #[trigger] before[a]),
        forall|b: int| j < b <= i ==> goes_before(order, before[j], #[trigger] before[b]),
    ensures
        rearranged_stably(after, orig, order, perm),
        perm[j - 1] == i,
        forall|k: int| 0 <= k <= i ==> #[trigger] perm[k] <= i,
        forall|k: int| i < k < after.len() ==> #[trigger] perm[k] == k,
        forall|a: int, b: int| 0 <= a < b <= i && a != j - 1 && b != j - 1
            ==> !goes_before(order, #[trigger] after[b], #[trigger] after[a]),
        forall|b: int| j - 1 < b <= i ==> goes_before(order, after[j - 1], #[trigger] after[b]),
{
    let n = before.len();
    let x = before[j];
    let y = before[j - 1];
    assert(after[j - 1] == x && after[j] == y);
    assert forall|a: int, b: int| 0 <= a < b < n && ties(order, #[trigger] after[a], #[trigger] after[b])
        implies perm[a] < perm[b] by {
        lemma_goes_before_strict_weak(order, x, y, y);
        if a == j - 1 && b == j {
        } else if a == j - 1 {
            assert(after[b] == before[b]);
            if b <= i {
                assert(goes_before(order, x, before[b]));
            } else {
                assert(perm[b] == b);
            }
        } else if a == j {
            assert(after[b] == before[b]);
            assert(ties(order, before[j - 1], before[b]));
        } else if b == j - 1 {
            assert(after[a] == before[a]);
            assert(old_perm[a] != old_perm[j]);
        } else if b == j {
            assert(after[a] == before[a]);
            assert(ties(order, before[a], before[j - 1]));
        } else {
            assert(after[a] == before[a] && after[b] == before[b]);
        }
    }
    assert forall|i1: int, j1: int| 0 <= i1 < j1 < n implies #[trigger] perm[i1] != #[trigger] perm[j1] by {
        if i1 != j - 1 && i1 != j && j1 != j - 1 && j1 != j {
            assert(old_perm[i1] != old_perm[j1]);
        } else if i1 == j - 1 && j1 == j {
            assert(old_perm[j - 1] != old_perm[j]);
        } else if i1 == j - 1 {
            assert(old_perm[j] != old_perm[j1]);
        } else if i1 == j {
            assert(old_perm[j - 1] != old_perm[j1]);
        } else if j1 == j - 1 {
            assert(old_perm[i1] != old_perm[j]);
        } else {
            assert(old_perm[i1] != old_perm[j - 1]);
        }
    }
    assert forall|k: int| 0 <= k < n implies 0 <= #[trigger] perm[k] < orig.len() && after[k] == orig[perm[k]] by {
        if k == j - 1 {
            assert(before[j] == orig[old_perm[j]]);
        } else if k == j {
            assert(before[j - 1] == orig[old_perm[j - 1]]);
        } else {
            assert(before[k] == orig[old_perm[k]]);
        }
    }
    assert forall|k: int| 0 <= k <= i implies #[trigger] perm[k] <= i by {
        if k == j - 1 {
            assert(old_perm[j] <= i);
        } else if k == j {
            assert(old_perm[j - 1] <= i);
        } else {
            assert(old_perm[k] <= i);
        }
    }
    assert forall|a: int, b: int| 0 <= a < b <= i && a != j - 1 && b != j - 1
        implies !goes_before(order, #[trigger] after[b], #[trigger] after[a]) by {
        if b == j {
            assert(after[a] == before[a]);
            assert(!goes_before(order, before[j - 1], before[a]));
        } else if a == j {
            assert(after[b] == before[b]);
            assert(!goes_before(order, before[b], before[j - 1]));
        } else {
            assert(after[a] == before[a] && after[b] == before[b]);
        }
    }
    assert forall|b: int| j - 1 < b <= i implies goes_before(order, after[j - 1], #[trigger] after[b]) by {
        if b > j {
            assert(after[b] == before[b]);
        }
    }
}

/// The inserted element at `j` need not come before its left neighbour and
/// must come before everything to its right: the first `i + 1` elements are
/// then in order.
proof fn lemma_insertion_done(s: Seq<Project>, order: SortOrder, j: int, i: int)
    requires
        0 <= j <= i < s.len(),
        forall|a: int, b: int| 0 <= a < b <= i && a != j && b != j
            ==> !goes_before(order, #[trigger] s[b], #[trigger] s[a]),
        forall|b: int| j < b <= i ==> goes_before(order, s[j], #[trigger] s[b]),
        j > 0 ==> !goes_before(order, s[j], s[j - 1]),
    ensures
        forall|a: int, b: int| 0 <= a < b <= i ==> !goes_before(order, #[trigger] s[b], #[trigger] s[a]),
{
    assert forall|a: int, b: int| 0 <= a < b <= i implies !goes_before(order, #[trigger] s[b], #[trigger] s[a]) by {
        if b == j {
            if a < j - 1 {
                assert(!goes_before(order, s[j - 1], s[a]));
                lemma_goes_before_strict_weak(order, s[j], s[j - 1], s[a]);
            }
        } else if a == j {
            lemma_goes_before_strict_weak(order, s[j], s[b], s[b]);
        }
    }
}

/// Sorts the projects in place, stably: alphabetically by lower-cased name,
/// most recently updated first, or most tasks first.
pub fn sort_projects(projects: &mut [Project], order: SortOrder)
    ensures
        is_stable_sort_of(final(projects)@, old(projects)@, order),
{
    let n = projects.len();
    let ghost orig = projects@;
    let ghost mut perm: Seq<int> = Seq::new(n as nat, |k: int| k);
    let mut i: usize = 0;
    while i < n
        invariant
            n == projects@.len(),
            orig.len() == n,
            i <= n,
            rearranged_stably(projects@, orig, order, perm),
            forall|k: int| i <= k < n ==> #[trigger] perm[k] == k,
            forall|k: int| 0 <= k < i ==> #[trigger] perm[k] < i,
            forall|a: int, b: int| 0 <= a < b < i ==> !goes_before(order, #[trigger] projects@[b], #[trigger] projects@[a]),
        decreases n - i,
    {
        let mut j: usize = i;
        loop
            invariant
                n == projects@.len(),
                orig.len() == n,
                i < n,
                j <= i,
                rearranged_stably(projects@, orig, order, perm),
                forall|k: int| i < k < n ==> #[trigger] perm[k] == k,
                forall|k: int| 0 <= k <= i ==> #[trigger] perm[k] <= i,
                perm[j as int] == i,
                forall|a: int, b: int| 0 <= a < b <= i && a != j && b != j
                    ==> !goes_before(order, #[trigger] projects@[b], #[trigger] projects@[a]),
                forall|b: int| j < b <= i ==> goes_before(order, projects@[j as int], #[trigger] projects@[b]),
            ensures
                n == projects@.len(),
                j <= i,
                rearranged_stably(projects@, orig, order, perm),
                forall|k: int| i < k < n ==> #[trigger] perm[k] == k,
                forall|k: int| 0 <= k <= i ==> #[trigger] perm[k] <= i,
                forall|a: int, b: int| 0 <= a < b <= i && a != j && b != j
                    ==> !goes_before(order, #[trigger] projects@[b], #[trigger] projects@[a]),
                forall|b: int| j < b <= i ==> goes_before(order, projects@[j as int], #[trigger] projects@[b]),
                j > 0 ==> !goes_before(order, projects@[j as int], projects@[j - 1]),
            decreases j,
        {
            if j == 0 {
                break;
            }
            if !project_goes_before(order, &projects[j], &projects[j - 1]) {
                break;
            }
            let ghost before = projects@;
            let ghost old_perm = perm;
            projects.swap(j - 1, j);
            proof {
                perm = perm.update(j - 1, old_perm[j as int]).update(j as int, old_perm[j - 1]);
                lemma_swap_keeps_rearrangement(before, projects@, orig, order, old_perm, perm, j as int, i as int);
            }
            j = j - 1;
        }
        proof {
            lemma_insertion_done(projects@, order, j as int, i as int);
        }
        i = i + 1;
    }
    proof {
        assert(rearranged_stably(projects@, orig, order, perm));
    }
}


/// A strictly increasing sequence of `n` integers below `n` and not below 0 is
/// `0, 1, ..., n - 1`.
proof fn lemma_increasing_is_identity(p: Seq<int>)
    requires
        forall|i: int| 0 <= i < p.len() ==> 0 <= #[trigger] p[i] < p.len(),
        forall|i: int, j: int| 0 <= i < j < p.len() ==> #[trigger] p[i] < #[trigger] p[j],
    ensures
        forall|i: int| 0 <= i < p.len() ==> #[trigger] p[i] == i,
{
    let n = p.len() as int;
    assert forall|i: int| 0 <= i < n implies #[trigger] p[i] >= i by {
        lemma_increasing_lower(p, i);
    }
    assert forall|i: int| 0 <= i < n implies #[trigger] p[i] <= i by {
        lemma_increasing_upper(p, i);
    }
}

proof fn lemma_increasing_lower(p: Seq<int>, i: int)
    requires
        0 <= i < p.len(),
        forall|k: int| 0 <= k < p.len() ==> 0 <= #[trigger] p[k] < p.len(),
        forall|a: int, b: int| 0 <= a < b < p.len() ==> #[trigger] p[a] < #[trigger] p[b],
    ensures
        p[i] >= i,
    decreases i,
{
    if i > 0 {
        lemma_increasing_lower(p, i - 1);
        assert(p[i - 1] < p[i]);
    }
}

proof fn lemma_increasing_upper(p: Seq<int>, i: int)
    requires
        0 <= i < p.len(),
        forall|k: int| 0 <= k < p.len() ==> 0 <= #[trigger] p[k] < p.len(),
        forall|a: int, b: int| 0 <= a < b < p.len() ==> #[trigger] p[a] < #[trigger] p[b],
    ensures
        p[i] <= i,
    decreases p.len() - i,
{
    if i < p.len() - 1 {
        lemma_increasing_upper(p, i + 1);
        assert(p[i] < p[i + 1]);
    }
}

/// Sorting a list that is already in order leaves it as it is; so sorting
/// twice by the same order gives what sorting once gives.
pub proof fn lemma_sorting_sorted_changes_nothing(inp: Seq<Project>, out: Seq<Project>, order: SortOrder)
    requires
        is_sorted_by(inp, order),
        is_stable_sort_of(out, inp, order),
    ensures
        out == inp,
{
    let p = choose|p: Seq<int>| rearranged_stably(out, inp, order, p);
    assert forall|i: int, j: int| 0 <= i < j < p.len() implies #[trigger] p[i] < #[trigger] p[j] by {
        assert(p[i] != p[j]);
        if p[j] < p[i] {
            assert(out[i] == inp[p[i]] && out[j] == inp[p[j]]);
            assert(!goes_before(order, inp[p[i]], inp[p[j]]));
            assert(!goes_before(order, out[j], out[i]));
            assert(ties(order, out[i], out[j]));
        }
    }
    lemma_increasing_is_identity(p);
    assert forall|i: int| 0 <= i < out.len() implies out[i] == inp[i] by {
        assert(p[i] == i);
    }
    assert(out =~= inp);
}

/// Adding a task to one of the three columns adds one to the number of tasks;
/// any other column index adds none.
pub proof fn lemma_add_counts_one(before: Project, after: Project, column_index: int, task: Task)
    requires
        adds_task(before, after, column_index, task),
        column_index >= 0,
    ensures
        after.task_count() == before.task_count() + (if column_index < 3 { 1int } else { 0int }),
{
    assert(after.columns()[0] == after.not_done@);
    assert(after.columns()[1] == after.in_progress@);
    assert(after.columns()[2] == after.done@);
}

/// Deleting a task that exists takes one from the number of tasks; asking
/// for one past the end of the column takes none.
pub proof fn lemma_delete_counts_one(before: Project, after: Project, column_index: int, task_index: int)
    requires
        deletes_task(before, after, column_index, task_index),
        task_index >= 0,
    ensures
        after.task_count() == before.task_count() - (if task_index < before.column(column_index).len() { 1int } else { 0int }),
{
    assert(after.columns()[0] == after.not_done@);
    assert(after.columns()[1] == after.in_progress@);
    assert(after.columns()[2] == after.done@);
}

/// Moving a task to another column and then moving it back (from the end of
/// that column, where it landed) leaves the other column as it was and puts
/// the task at the end of its first column; the rest of that column keeps
/// its order.  If the task was last in its column, the board is as before.
pub proof fn lemma_move_and_back(cols: Seq<Seq<Task>>, from: int, task_index: int, to: int)
    requires
        cols.len() == 3,
        from >= 0,
        to >= 0,
        slot(from) != slot(to),
        0 <= task_index < cols[slot(from)].len(),
    ensures
        ({
            let moved = columns_after_move(cols, from, task_index, to);
            let back = columns_after_move(moved, to, moved[slot(to)].len() - 1, from);
            &&& back[slot(to)] == cols[slot(to)]
            &&& back[slot(from)] == cols[slot(from)].remove(task_index).push(cols[slot(from)][task_index])
            &&& forall|c: int| 0 <= c < 3 && c != slot(from) && c != slot(to) ==> back[c] == cols[c]
            &&& task_index == cols[slot(from)].len() - 1 ==> back == cols
        }),
{
    let moved = columns_after_move(cols, from, task_index, to);
    let back = columns_after_move(moved, to, moved[slot(to)].len() - 1, from);
    let t = cols[slot(from)][task_index];
    assert(moved[slot(to)] == cols[slot(to)].push(t));
    assert(moved[slot(to)].remove(moved[slot(to)].len() - 1) =~= cols[slot(to)]);
    assert(back[slot(to)] == cols[slot(to)]);
    if task_index == cols[slot(from)].len() - 1 {
        assert(cols[slot(from)].remove(task_index).push(t) =~= cols[slot(from)]);
        assert(back =~= cols);
    }
}

/// The tasks of a project's column `c`, read straight from its fields
/// (0 not done, 1 in progress, 2 done).
pub open spec fn field_column(p: Project, c: int) -> Seq<Task> {
    if c == 0 {
        p.not_done@
    } else if c == 1 {
        p.in_progress@
    } else {
        p.done@
    }
}

/// In a sorted list, for any two positions `i < j`: alphabetically, the
/// lower-cased name at `j` does not come before the one at `i`; by time,
/// the project at `i` was not changed earlier than the one at `j`; by task
/// count, the project at `i` has at least as many tasks, counting all three
/// columns, as the one at `j`.
pub proof fn lemma_sorted_means(s: Seq<Project>, order: SortOrder, i: int, j: int)
    requires
        is_sorted_by(s, order),
        0 <= i < j < s.len(),
    ensures
        order == SortOrder::Alphabetical ==> !chars_before(lowercase_of(s[j].name@), lowercase_of(s[i].name@)),
        order == SortOrder::TimeUpdated ==> !(s[i].last_updated.secs < s[j].last_updated.secs
            || (s[i].last_updated.secs == s[j].last_updated.secs && s[i].last_updated.nanos < s[j].last_updated.nanos)),
        order == SortOrder::TaskCount ==> s[i].not_done@.len() + s[i].in_progress@.len() + s[i].done@.len()
            >= s[j].not_done@.len() + s[j].in_progress@.len() + s[j].done@.len(),
{
    assert(!goes_before(order, s[j], s[i]));
}

/// What adding a task does, field by field: the task goes to the end of
/// the column the index names (0, 1 or 2), every other column stays, and an
/// index of 3 or more changes no column.
pub proof fn lemma_add_task_means(before: Project, after: Project, column_index: int, task: Task)
    requires
        adds_task(before, after, column_index, task),
        column_index >= 0,
    ensures
        after.name == before.name,
        forall|c: int| 0 <= c < 3 ==> #[trigger] field_column(after, c) == if c == column_index {
            field_column(before, c).push(task)
        } else {
            field_column(before, c)
        },
{
    assert forall|c: int| 0 <= c < 3 implies #[trigger] field_column(after, c) == if c == column_index {
        field_column(before, c).push(task)
    } else {
        field_column(before, c)
    } by {
        assert(after.columns()[c] == field_column(after, c));
        assert(before.columns()[c] == field_column(before, c));
    }
}

/// What deleting a task does, field by field: for an index inside the
/// column (index 2 and above all mean done), the tasks before it stay, the
/// ones after it close up, and the other columns stay; for an index past the
/// end, nothing changes, not even the time stamp.
pub proof fn lemma_delete_task_means(before: Project, after: Project, column_index: int, task_index: int)
    requires
        deletes_task(before, after, column_index, task_index),
        column_index >= 0,
        task_index >= 0,
    ensures
        ({
            let c = if column_index >= 2 { 2 } else { column_index };
            let old_col = field_column(before, c);
            let new_col = field_column(after, c);
            &&& after.name == before.name
            &&& task_index < old_col.len() ==> {
                &&& new_col.len() == old_col.len() - 1
                &&& forall|k: int| 0 <= k < task_index ==> new_col[k] == old_col[k]
                &&& forall|k: int| task_index <= k < new_col.len() ==> new_col[k] == old_col[k + 1]
                &&& forall|d: int| 0 <= d < 3 && d != c ==> #[trigger] field_column(after, d) == field_column(before, d)
            }
            &&& task_index >= old_col.len() ==> {
                &&& forall|d: int| 0 <= d < 3 ==> #[trigger] field_column(after, d) == field_column(before, d)
                &&& after.last_updated == before.last_updated
            }
        }),
{
    assert(after.columns()[0] == field_column(after, 0) && before.columns()[0] == field_column(before, 0));
    assert(after.columns()[1] == field_column(after, 1) && before.columns()[1] == field_column(before, 1));
    assert(after.columns()[2] == field_column(after, 2) && before.columns()[2] == field_column(before, 2));
}

/// What moving a task does, field by field, for columns `from` and `to`
/// among 0, 1 and 2: when they differ and the task exists, the result is the
/// task's new index, which is the old length of `to`; the task leaves `from`
/// (the rest closing up) and is appended to `to`; the third column stays.
/// When the two indices are equal, or both are 2 or more (both meaning
/// done), or there is no such task, the result is `None` and nothing
/// changes, not even the time stamp.
pub proof fn lemma_move_task_means(
    before: Project,
    after: Project,
    from: int,
    task_index: int,
    to: int,
    r: Option<usize>,
)
    requires
        moves_task(before, after, from, task_index, to, r),
        from >= 0,
        to >= 0,
        task_index >= 0,
    ensures
        ({
            let f = if from >= 2 { 2 } else { from };
            let t = if to >= 2 { 2 } else { to };
            let src = field_column(before, f);
            &&& after.name == before.name
            &&& (f == t || task_index >= src.len()) ==> {
                &&& r is None
                &&& forall|d: int| 0 <= d < 3 ==> #[trigger] field_column(after, d) == field_column(before, d)
                &&& after.last_updated == before.last_updated
            }
            &&& (f != t && task_index < src.len()) ==> {
                &&& r == Some(field_column(before, t).len() as usize)
                &&& field_column(after, f).len() == src.len() - 1
                &&& forall|k: int| 0 <= k < task_index ==> field_column(after, f)[k] == src[k]
                &&& forall|k: int| task_index <= k < src.len() - 1 ==> field_column(after, f)[k] == src[k + 1]
                &&& field_column(after, t) == field_column(before, t).push(src[task_index])
                &&& forall|d: int| 0 <= d < 3 && d != f && d != t ==> #[trigger] field_column(after, d) == field_column(before, d)
            }
        }),
{
    assert(after.columns()[0] == field_column(after, 0) && before.columns()[0] == field_column(before, 0));
    assert(after.columns()[1] == field_column(after, 1) && before.columns()[1] == field_column(before, 1));
    assert(after.columns()[2] == field_column(after, 2) && before.columns()[2] == field_column(before, 2));
}

} // verus!