//! The text that the terminal front end shows: the labels of the project
//! bar, the lines of the columns and the bar of actions at the bottom.

use vstd::prelude::*;
use vstd::string::StringExecFns;
use crate::model::{InputMode, SortOrder};

verus! {

/// The help line shown while no text is being typed.
pub const HELP_TEXT: &'static str = " [t] add task  [p] add project  [d] delete project  [x] delete task  [[ / ]] move task  [Tab] column  [\u{2190}/\u{2192}] project  [\u{2191}/\u{2193}] task  [s] sort  [q] quit ";

/// The decimal digits of `n`, most significant first, without leading zeros
/// (`0` is written "0").
pub open spec fn decimal(n: nat) -> Seq<char>
    decreases n,
{
    if n < 10 {
        seq![digit_char(n)]
    } else {
        decimal(n / 10).push(digit_char(n % 10))
    }
}

/// The character of a decimal digit.
pub open spec fn digit_char(d: nat) -> char {
    if d == 0 { '0' } else if d == 1 { '1' } else if d == 2 { '2' } else if d == 3 { '3' } else if d == 4 {
        '4'
    } else if d == 5 { '5' } else if d == 6 { '6' } else if d == 7 { '7' } else if d == 8 { '8' } else {
        '9'
    }
}

fn digit(d: usize) -> (c: char)
    requires
        d < 10,
    ensures
        c == digit_char(d as nat),
{
    if d == 0 { '0' } else if d == 1 { '1' } else if d == 2 { '2' } else if d == 3 { '3' } else if d == 4 {
        '4'
    } else if d == 5 { '5' } else if d == 6 { '6' } else if d == 7 { '7' } else if d == 8 { '8' } else {
        '9'
    }
}

/// `n` written in decimal, as `usize::to_string` writes it.
pub fn decimal_string(n: usize) -> (r: String)
    ensures
        r@ == decimal(n as nat),
{
    // digits[k] is the k-th digit counted from the least significant one
    let mut digits: Vec<char> = Vec::new();
    let mut rest = n;
    let ghost mut done: Seq<char> = Seq::empty();
    while rest >= 10
        invariant
            decimal(n as nat) == decimal(rest as nat) + done,
            digits@ == done.reverse(),
        decreases rest,
    {
        let d = digit(rest % 10);
        proof {
            assert(decimal(rest as nat) == decimal((rest / 10) as nat).push(d));
            assert(decimal((rest / 10) as nat).push(d) + done =~= decimal((rest / 10) as nat) + seq![d].add(done));
            assert(seq![d].add(done).reverse() =~= done.reverse().push(d));
            done = seq![d].add(done);
        }
        digits.push(d);
        rest = rest / 10;
    }
    let first = digit(rest);
    proof {
        done = seq![first].add(done);
    }
    digits.push(first);
    let mut r = String::new();
    let mut k = digits.len();
    while k > 0
        invariant
            k <= digits@.len(),
            digits@ == done.reverse(),
            decimal(n as nat) == done,
            r@ == done.take(digits@.len() - k),
        decreases k,
    {
        k = k - 1;
        let c = digits[k];
        proof {
            assert(done.take(digits@.len() - k) =~= done.take(digits@.len() - k - 1).push(c));
        }
        r.push(c);
    }
    proof {
        assert(done.take(digits@.len() as int) =~= done);
    }
    r
}

/// The name that `{:?}` prints for a sort order.
pub open spec fn order_name(order: SortOrder) -> Seq<char> {
    match order {
        SortOrder::Alphabetical => "Alphabetical"@,
        SortOrder::TimeUpdated => "TimeUpdated"@,
        SortOrder::TaskCount => "TaskCount"@,
    }
}

/// The label of the sort order at the end of the project bar:
/// " | Sort: " and the order's name.
pub fn sort_label(order: SortOrder) -> (r: String)
    ensures
        r@ == " | Sort: "@ + order_name(order),
{
    let name = match order {
        SortOrder::Alphabetical => "Alphabetical",
        SortOrder::TimeUpdated => "TimeUpdated",
        SortOrder::TaskCount => "TaskCount",
    };
    String::from_str(" | Sort: ").concat(name)
}

/// The label of one project in the project bar: its name, its number of
/// tasks in brackets and the time of its last change in parentheses.
pub fn project_label(name: &str, total_tasks: usize, time: &str) -> (r: String)
    ensures
        r@ == " "@ + name@ + " ["@ + decimal(total_tasks as nat) + "] ("@ + time@ + ") "@,
{
    let count = decimal_string(total_tasks);
    String::from_str(" ").concat(name).concat(" [").concat(count.as_str()).concat("] (").concat(time).concat(") ")
}

/// Whether row `row` of column `column_index` is the highlighted one: it is
/// when that column is under the cursor and the row is the selected task.
pub fn is_highlighted(current_column: usize, selected_task: usize, column_index: usize, row: usize) -> (r: bool)
    ensures
        r == (column_index == current_column && row == selected_task),
{
    column_index == current_column && row == selected_task
}

/// The line of a task in its column: "> " before the highlighted task, two
/// spaces before any other.
pub fn task_line(title: &str, highlighted: bool) -> (r: String)
    ensures
        r@ == (if highlighted { "> "@ } else { "  "@ }) + title@,
{
    if highlighted {
        String::from_str("> ").concat(title)
    } else {
        String::from_str("  ").concat(title)
    }
}

/// The bar at the bottom: what is being typed, with a cursor mark, or the
/// list of keys.
pub fn bottom_text(input_mode: &InputMode, input_text: &str) -> (r: String)
    ensures
        *input_mode == InputMode::AddTask ==> r@ == " Adding task: "@ + input_text@ + "_"@,
        *input_mode == InputMode::AddProject ==> r@ == " Adding project: "@ + input_text@ + "_"@,
        *input_mode == InputMode::Normal ==> r@ == HELP_TEXT@,
{
    match input_mode {
        InputMode::AddTask => String::from_str(" Adding task: ").concat(input_text).concat("_"),
        InputMode::AddProject => String::from_str(" Adding project: ").concat(input_text).concat("_"),
        InputMode::Normal => String::from_str(HELP_TEXT),
    }
}

} // verus!
