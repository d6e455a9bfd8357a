//! The stored form of a task: plain columns, with instants and dates as text.

use vstd::prelude::*;

use chrono::Datelike;

use crate::command::opt_text;
use crate::hierarchy::{
    current_time, priority_code, priority_of_code, Date, Priority, Task, TaskModel, Timestamp,
};

verus! {

/// The RFC 3339 text of the UTC instant `(seconds, nanoseconds)`, when the
/// instant can be represented.
pub uninterp spec fn instant_text(t: (i64, u32)) -> Option<Seq<char>>;

/// The UTC instant, as `(seconds, nanoseconds)`, that an RFC 3339 text denotes.
pub uninterp spec fn instant_of_text(s: Seq<char>) -> Option<(i64, u32)>;

/// The `YYYY-MM-DD` text of the date `(year, month, day)`, when it is a date.
pub uninterp spec fn date_text(d: (i32, u32, u32)) -> Option<Seq<char>>;

/// The date `(year, month, day)` that a `YYYY-MM-DD` text denotes.
pub uninterp spec fn date_of_text(s: Seq<char>) -> Option<(i32, u32, u32)>;

/// Relies on chrono's `DateTime::<Utc>::from_timestamp`, which gives no value
/// for an instant out of range, and `DateTime::to_rfc3339`, which writes the
/// text; the text depends on the instant alone.
#[verifier::external_body]
fn format_instant(t: Timestamp) -> (r: Option<String>)
    ensures
        opt_text(r) == instant_text((t.secs, t.nanos)),
{
    match chrono::DateTime::from_timestamp(t.secs, t.nanos) {
        Some(d) => Some(d.to_rfc3339()),
        None => None,
    }
}

/// Relies on chrono's `DateTime::parse_from_rfc3339`, which reads an RFC 3339
/// text or fails; the instant is taken in UTC.
#[verifier::external_body]
fn parse_instant(s: &str) -> (r: Option<Timestamp>)
    ensures
        match r {
            Some(t) => instant_of_text(s@) == Some((t.secs, t.nanos)),
            None => instant_of_text(s@).is_none(),
        },
{
    match chrono::DateTime::parse_from_rfc3339(s) {
        Ok(d) => Some(Timestamp { secs: d.timestamp(), nanos: d.timestamp_subsec_nanos() }),
        Err(_) => None,
    }
}

/// Relies on chrono's `NaiveDate::from_ymd_opt`, which gives no value for a
/// day that does not exist, and on the `YYYY-MM-DD` display of `NaiveDate`.
#[verifier::external_body]
fn format_date(d: Date) -> (r: Option<String>)
    ensures
        opt_text(r) == date_text((d.year, d.month, d.day)),
{
    match chrono::NaiveDate::from_ymd_opt(d.year, d.month, d.day) {
        Some(n) => Some(n.to_string()),
        None => None,
    }
}

/// Relies on chrono's `NaiveDate::parse_from_str` with the `%Y-%m-%d` format,
/// which reads a date or fails.
#[verifier::external_body]
fn parse_date(s: &str) -> (r: Option<Date>)
    ensures
        match r {
            Some(d) => date_of_text(s@) == Some((d.year, d.month, d.day)),
            None => date_of_text(s@).is_none(),
        },
{
    match chrono::NaiveDate::parse_from_str(s, "%Y-%m-%d") {
        Ok(n) => Some(Date { year: n.year(), month: n.month(), day: n.day() }),
        Err(_) => None,
    }
}

/// What a stored task row holds.
pub ghost struct TaskRowModel {
    pub id: usize,
    pub project_id: usize,
    pub name: Seq<char>,
    pub description: Seq<char>,
    pub priority: int,
    pub created_at: Seq<char>,
    pub due_time: Option<Seq<char>>,
    pub completed_at: Option<Seq<char>>,
}

/// A task as its columns are stored.
#[derive(Debug)]
pub struct TaskRow {
    pub id: usize,
    pub project_id: usize,
    pub name: String,
    pub description: String,
    pub priority: i32,
    pub created_at: String,
    pub due_time: Option<String>,
    pub completed_at: Option<String>,
}

impl View for TaskRow {
    type V = TaskRowModel;

    open spec fn view(&self) -> TaskRowModel {
        TaskRowModel {
            id: self.id,
            project_id: self.project_id,
            name: self.name@,
            description: self.description@,
            priority: self.priority as int,
            created_at: self.created_at@,
            due_time: opt_text(self.due_time),
            completed_at: opt_text(self.completed_at),
        }
    }
}

/// The text of an instant, or nothing when it cannot be written.
pub open spec fn stamp_text(t: Timestamp) -> Option<Seq<char>> {
    instant_text((t.secs, t.nanos))
}

/// The instant that a text denotes.
pub open spec fn stamp_of_text(s: Seq<char>) -> Option<Timestamp> {
    match instant_of_text(s) {
        Some(p) => Some(Timestamp { secs: p.0, nanos: p.1 }),
        None => None,
    }
}

/// The row that stores a task: the priority as its code, instants and the due
/// date as text; a creation time that cannot be written is stored empty, and
/// an optional field that cannot be written is left out.
pub open spec fn row_of(t: TaskModel) -> TaskRowModel {
    TaskRowModel {
        id: t.id,
        project_id: t.project_id,
        name: t.name,
        description: t.description,
        priority: priority_code(t.priority),
        created_at: match stamp_text(t.created_at) {
            Some(s) => s,
            None => Seq::empty(),
        },
        due_time: match t.due_time {
            Some(d) => date_text((d.year, d.month, d.day)),
            None => None,
        },
        completed_at: match t.completed_at {
            Some(c) => stamp_text(c),
            None => None,
        },
    }
}

/// The task that a row stores, read at `now`: an unreadable creation time
/// reads as `now`, and an unreadable due date or completion time as absent.
pub open spec fn task_of_row(r: TaskRowModel, now: Timestamp) -> TaskModel {
    TaskModel {
        id: r.id,
        project_id: r.project_id,
        name: r.name,
        description: r.description,
        priority: priority_of_code(r.priority),
        created_at: match stamp_of_text(r.created_at) {
            Some(t) => t,
            None => now,
        },
        due_time: match r.due_time {
            Some(s) => match date_of_text(s) {
                Some(d) => Some(Date { year: d.0, month: d.1, day: d.2 }),
                None => None,
            },
            None => None,
        },
        completed_at: match r.completed_at {
            Some(s) => stamp_of_text(s),
            None => None,
        },
    }
}

/// The row that stores `t`.
pub fn task_row(t: &Task) -> (r: TaskRow)
    ensures
        r@ == row_of(t@),
{
    let created_at = match format_instant(*t.created_at()) {
        Some(s) => s,
        None => String::new(),
    };
    let due_time = match t.due_time() {
        Some(d) => format_date(d),
        None => None,
    };
    let completed_at = match t.completed_at() {
        Some(c) => format_instant(c),
        None => None,
    };
    TaskRow {
        id: t.id(),
        project_id: t.project_id(),
        name: t.name().clone(),
        description: t.description().clone(),
        priority: t.priority().code(),
        created_at,
        due_time,
        completed_at,
    }
}

/// The task that `row` stores, read at `now`.
pub fn task_from_row_at(row: TaskRow, now: Timestamp) -> (r: Task)
    ensures
        r@ == task_of_row(row@, now),
{
    let created_at = match parse_instant(row.created_at.as_str()) {
        Some(t) => t,
        None => now,
    };
    let due_time = match &row.due_time {
        Some(s) => parse_date(s.as_str()),
        None => None,
    };
    let completed_at = match &row.completed_at {
        Some(s) => parse_instant(s.as_str()),
        None => None,
    };
    Task::new(
        row.id,
        row.project_id,
        row.name,
        row.description,
        Priority::from_code(row.priority),
        created_at,
        due_time,
        completed_at,
    )
}

/// The task that `row` stores, read now.
pub fn task_from_row(row: TaskRow) -> (r: Task)
    ensures
        exists|now: Timestamp| r@ == #[trigger] task_of_row(row@, now),
{
    let now = current_time();
    task_from_row_at(row, now)
}

/// Whether an instant reads back from its text as itself.
pub open spec fn stamp_survives_text(t: Timestamp) -> bool {
    stamp_text(t) matches Some(s) && stamp_of_text(s) == Some(t)
}

/// Whether a date reads back from its text as itself.
pub open spec fn date_survives_text(d: Date) -> bool {
    date_text((d.year, d.month, d.day)) matches Some(s) && date_of_text(s) == Some((d.year, d.month, d.day))
}

/// Storing a task and reading it back gives the same task: ids, name,
/// description and priority always, and its instants and due date whenever
/// their text form reads back as themselves.
pub proof fn lemma_task_row_round_trip(t: TaskModel, now: Timestamp)
    requires
        stamp_survives_text(t.created_at),
        t.due_time matches Some(d) ==> date_survives_text(d),
        t.completed_at matches Some(c) ==> stamp_survives_text(c),
    ensures
        task_of_row(row_of(t), now) == t,
{
}

} // verus!
