//! The one-line text form of a task and of the column header.

use vstd::prelude::*;
use vstd::string::{StrSliceExecFns, StringExecFns};
use crate::date::{shows, surely_shown, timestamp_to_local_str, DateError};
use crate::status::Status;
use crate::task::Task;

verus! {

/// `n` blanks.
pub open spec fn spaces(n: nat) -> Seq<char> {
    Seq::new(n, |i: int| ' ')
}

/// `text` followed by as many blanks as it takes to reach `width`
/// characters; longer text is left as it is.
pub open spec fn padded_end(text: Seq<char>, width: nat) -> Seq<char> {
    if text.len() >= width {
        text
    } else {
        text + spaces((width - text.len()) as nat)
    }
}

/// `text` in the middle of `width` characters; where the blanks cannot be
/// split evenly the odd one goes to the right. Longer text is left as it is.
pub open spec fn centered(text: Seq<char>, width: nat) -> Seq<char> {
    if text.len() >= width {
        text
    } else {
        let gap = (width - text.len()) as nat;
        spaces(gap / 2) + text + spaces((gap - gap / 2) as nat)
    }
}

/// The character of one decimal digit.
pub open spec fn digit_char(d: int) -> char {
    if d == 0 {
        '0'
    } else if d == 1 {
        '1'
    } else if d == 2 {
        '2'
    } else if d == 3 {
        '3'
    } else if d == 4 {
        '4'
    } else if d == 5 {
        '5'
    } else if d == 6 {
        '6'
    } else if d == 7 {
        '7'
    } else if d == 8 {
        '8'
    } else {
        '9'
    }
}

/// The decimal digits of a natural number, without leading zeros.
pub open spec fn digits(n: nat) -> Seq<char>
    decreases n,
{
    if n < 10 {
        seq![digit_char(n as int)]
    } else {
        digits(n / 10).push(digit_char((n % 10) as int))
    }
}

/// An integer in decimal, with a minus sign where it is negative.
pub open spec fn decimal_text(n: int) -> Seq<char> {
    if n < 0 {
        seq!['-'] + digits((-n) as nat)
    } else {
        digits(n as nat)
    }
}

/// The mark shown for a priority: `.` `-` `~` `!` for 1 to 4, `!!!` for
/// anything else.
pub open spec fn glyph(priority: i64) -> Seq<char> {
    if priority == 1 {
        "."@
    } else if priority == 2 {
        "-"@
    } else if priority == 3 {
        "~"@
    } else if priority == 4 {
        "!"@
    } else {
        "!!!"@
    }
}

/// The line shown for a task: id, status, priority mark, creation date, due
/// date and description, in columns.
pub open spec fn row_text(
    id: i64,
    status: Status,
    priority: i64,
    created: Seq<char>,
    due: Seq<char>,
    task: Seq<char>,
) -> Seq<char> {
    padded_end(decimal_text(id as int), 4) + " "@ + padded_end(status.spec_label(), 11) + " ["@
        + centered(glyph(priority), 3) + "]  "@ + padded_end(created, 11) + " "@ + padded_end(
        due,
        11,
    ) + " \""@ + task + "\""@
}

/// The line of column titles that goes above the tasks.
pub open spec fn header_text() -> Seq<char> {
    padded_end("ID"@, 4) + " "@ + padded_end("STATUS"@, 11) + " "@ + padded_end("PRIO"@, 6) + " "@
        + padded_end("CREATED"@, 11) + " "@ + padded_end("DUE"@, 11) + " "@ + "TASK"@
}

/// What stands in a date column: the date where there is one, a fixed note
/// where the timestamp cannot be shown.
pub open spec fn date_column_text(shown: Result<String, DateError>) -> Seq<char> {
    match shown {
        Ok(text) => text@,
        Err(_) => "Invalid Date"@,
    }
}

/// Appends `count` blanks.
fn push_spaces(out: &mut String, count: usize)
    ensures
        final(out)@ == old(out)@ + spaces(count as nat),
{
    let mut k: usize = 0;
    proof {
        assert(out@ =~= old(out)@ + spaces(0));
    }
    while k < count
        invariant
            k <= count,
            out@ == old(out)@ + spaces(k as nat),
        decreases count - k,
    {
        proof {
            reveal_strlit(" ");
            assert(" "@ =~= seq![' ']);
            assert(old(out)@ + spaces(k as nat) + seq![' '] =~= old(out)@ + spaces((k + 1) as nat));
        }
        out.append(" ");
        k += 1;
    }
}

/// Pads `text` with blanks at the end to `width` characters.
pub fn pad_end(text: &str, width: usize) -> (out: String)
    ensures
        out@ == padded_end(text@, width as nat),
{
    let n = text.unicode_len();
    let mut out = String::from_str(text);
    if n < width {
        push_spaces(&mut out, width - n);
    }
    out
}

/// Puts `text` in the middle of `width` characters.
pub fn pad_center(text: &str, width: usize) -> (out: String)
    ensures
        out@ == centered(text@, width as nat),
{
    let n = text.unicode_len();
    if n >= width {
        return String::from_str(text);
    }
    let gap = width - n;
    let left = gap / 2;
    let mut out = String::new();
    push_spaces(&mut out, left);
    out.append(text);
    push_spaces(&mut out, gap - left);
    proof {
        assert(Seq::<char>::empty() + spaces(left as nat) =~= spaces(left as nat));
    }
    out
}

/// The text of one decimal digit.
fn digit_str(d: u64) -> (s: &'static str)
    requires
        d < 10,
    ensures
        s@ == seq![digit_char(d as int)],
{
    proof {
        reveal_strlit("0");
        reveal_strlit("1");
        reveal_strlit("2");
        reveal_strlit("3");
        reveal_strlit("4");
        reveal_strlit("5");
        reveal_strlit("6");
        reveal_strlit("7");
        reveal_strlit("8");
        reveal_strlit("9");
        assert("0"@ =~= seq!['0']);
        assert("1"@ =~= seq!['1']);
        assert("2"@ =~= seq!['2']);
        assert("3"@ =~= seq!['3']);
        assert("4"@ =~= seq!['4']);
        assert("5"@ =~= seq!['5']);
        assert("6"@ =~= seq!['6']);
        assert("7"@ =~= seq!['7']);
        assert("8"@ =~= seq!['8']);
        assert("9"@ =~= seq!['9']);
    }
    if d == 0 {
        "0"
    } else if d == 1 {
        "1"
    } else if d == 2 {
        "2"
    } else if d == 3 {
        "3"
    } else if d == 4 {
        "4"
    } else if d == 5 {
        "5"
    } else if d == 6 {
        "6"
    } else if d == 7 {
        "7"
    } else if d == 8 {
        "8"
    } else {
        "9"
    }
}

/// The decimal digits of `m`.
fn digits_of(m: u64) -> (out: String)
    ensures
        out@ == digits(m as nat),
    decreases m,
{
    if m < 10 {
        String::from_str(digit_str(m))
    } else {
        let front = digits_of(m / 10);
        let out = front.concat(digit_str(m % 10));
        proof {
            assert(digits((m / 10) as nat) + seq![digit_char((m % 10) as int)] =~= digits(
                (m / 10) as nat,
            ).push(digit_char((m % 10) as int)));
        }
        out
    }
}

/// Writes an integer in decimal.
pub fn decimal(n: i64) -> (out: String)
    ensures
        out@ == decimal_text(n as int),
{
    if n >= 0 {
        digits_of(n as u64)
    } else {
        let m: u64 = (-(n + 1)) as u64 + 1;
        let tail = digits_of(m);
        proof {
            reveal_strlit("-");
            assert("-"@ =~= seq!['-']);
        }
        String::from_str("-").concat(tail.as_str())
    }
}

/// The mark shown for a priority.
pub fn priority_glyph(priority: i64) -> (s: &'static str)
    ensures
        s@ == glyph(priority),
{
    if priority == 1 {
        "."
    } else if priority == 2 {
        "-"
    } else if priority == 3 {
        "~"
    } else if priority == 4 {
        "!"
    } else {
        "!!!"
    }
}

/// The line of column titles.
pub fn task_header() -> (out: String)
    ensures
        out@ == header_text(),
{
    let mut out = pad_end("ID", 4);
    out.append(" ");
    out.append(pad_end("STATUS", 11).as_str());
    out.append(" ");
    out.append(pad_end("PRIO", 6).as_str());
    out.append(" ");
    out.append(pad_end("CREATED", 11).as_str());
    out.append(" ");
    out.append(pad_end("DUE", 11).as_str());
    out.append(" ");
    out.append("TASK");
    out
}

/// The line shown for `task`, with the two dates already turned into text.
pub fn format_task(task: &Task, created: &str, due: &str) -> (out: String)
    ensures
        out@ == row_text(task.id, task.status, task.priority, created@, due@, task.task@),
{
    let mut out = pad_end(decimal(task.id).as_str(), 4);
    out.append(" ");
    out.append(pad_end(task.status.label(), 11).as_str());
    out.append(" [");
    out.append(pad_center(priority_glyph(task.priority), 3).as_str());
    out.append("]  ");
    out.append(pad_end(created, 11).as_str());
    out.append(" ");
    out.append(pad_end(due, 11).as_str());
    out.append(" \"");
    out.append(task.task.as_str());
    out.append("\"");
    out
}

/// What stands in a date column for the outcome of showing a timestamp.
pub fn date_column(shown: Result<String, DateError>) -> (out: String)
    ensures
        out@ == date_column_text(shown),
{
    match shown {
        Ok(text) => text,
        Err(_) => String::from_str("Invalid Date"),
    }
}

/// `text` can stand in a date column for the timestamp: it is the local
/// date that `chrono` writes for it at some offset under a day, or, only
/// for a timestamp outside 1970 to 9999, the note that the date is invalid.
pub open spec fn fills_date_column(timestamp: i64, text: Seq<char>) -> bool {
    shows(timestamp, text) || (!surely_shown(timestamp) && text == "Invalid Date"@)
}

/// `text` can stand in the due column: `Never` where there is no due date,
/// else what fills a date column for it.
pub open spec fn fills_due_column(due_at: Option<i64>, text: Seq<char>) -> bool {
    match due_at {
        None => text == "Never"@,
        Some(t) => fills_date_column(t, text),
    }
}

impl Task {
    /// The line shown for the task, with its dates in local time. The due
    /// column reads `Never` where the task has no due date.
    pub fn to_text(&self) -> (out: String)
        ensures
            exists|created: Seq<char>, due: Seq<char>|
                out@ == #[trigger] row_text(
                    self.id,
                    self.status,
                    self.priority,
                    created,
                    due,
                    self.task@,
                ) && fills_date_column(self.created_at, created) && fills_due_column(
                    self.due_at,
                    due,
                ),
    {
        let created = date_column(timestamp_to_local_str(self.created_at));
        let due = match self.due_at {
            None => String::from_str("Never"),
            Some(t) => date_column(timestamp_to_local_str(t)),
        };
        format_task(self, created.as_str(), due.as_str())
    }
}

} // verus!
