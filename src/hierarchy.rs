//! Projects, tasks and priorities, and the construction of a task from a
//! parsed command.

use vstd::prelude::*;

use crate::command::{Command, ParamsModel};
use crate::text::same_text;

verus! {

/// How urgent a task is, ordered `Unset < Low < Medium < High`.
#[derive(Debug, Clone, Copy, PartialEq, Eq, Structural)]
pub enum Priority {
    Unset,
    Low,
    Medium,
    High,
}

/// The lower-case form of a text, as Unicode case mapping gives it.
pub uninterp spec fn lower_of(s: Seq<char>) -> Seq<char>;

/// Relies on `str::to_lowercase`: the lower-case mapping of each character,
/// which depends on the characters alone.
#[verifier::external_body]
fn lowercase(s: &str) -> (r: String)
    ensures
        r@ == lower_of(s@),
{
    s.to_lowercase()
}

/// The priority that an already lower-cased word names.
pub open spec fn priority_named(s: Seq<char>) -> Priority {
    if s == "low"@ || s == "l"@ {
        Priority::Low
    } else if s == "medium"@ || s == "m"@ {
        Priority::Medium
    } else if s == "high"@ || s == "h"@ {
        Priority::High
    } else {
        Priority::Unset
    }
}

/// The number that stands for a priority in storage, in the priority order.
pub open spec fn priority_code(p: Priority) -> int {
    match p {
        Priority::Unset => 0,
        Priority::Low => 1,
        Priority::Medium => 2,
        Priority::High => 3,
    }
}

/// The priority stored as `code`; an unknown code reads as `Unset`.
pub open spec fn priority_of_code(code: int) -> Priority {
    if code == 1 {
        Priority::Low
    } else if code == 2 {
        Priority::Medium
    } else if code == 3 {
        Priority::High
    } else {
        Priority::Unset
    }
}

impl Priority {
    /// Maps a user-supplied priority word, in any letter case, to a priority.
    pub fn translate_priority(priority: &str) -> (r: Self)
        ensures
            r == priority_named(lower_of(priority@)),
    {
        let lowered = lowercase(priority);
        Self::from_lowered(lowered.as_str())
    }

    /// Maps a lower-case priority word (`low`/`l`, `medium`/`m`, `high`/`h`)
    /// to a priority; any other word gives `Unset`.
    pub fn from_lowered(word: &str) -> (r: Self)
        ensures
            r == priority_named(word@),
    {
        proof {
            reveal_strlit("low");
            reveal_strlit("l");
            reveal_strlit("medium");
            reveal_strlit("m");
            reveal_strlit("high");
            reveal_strlit("h");
        }
        if same_text(word, "low") || same_text(word, "l") {
            Priority::Low
        } else if same_text(word, "medium") || same_text(word, "m") {
            Priority::Medium
        } else if same_text(word, "high") || same_text(word, "h") {
            Priority::High
        } else {
            Priority::Unset
        }
    }

    /// The storage code of this priority.
    pub fn code(self) -> (r: i32)
        ensures
            r as int == priority_code(self),
    {
        match self {
            Priority::Unset => 0,
            Priority::Low => 1,
            Priority::Medium => 2,
            Priority::High => 3,
        }
    }

    /// The priority stored as `code`.
    pub fn from_code(code: i32) -> (r: Self)
        ensures
            r == priority_of_code(code as int),
    {
        if code == 1 {
            Priority::Low
        } else if code == 2 {
            Priority::Medium
        } else if code == 3 {
            Priority::High
        } else {
            Priority::Unset
        }
    }

    /// Whether `self` ranks strictly below `other`.
    pub fn is_below(self, other: Priority) -> (r: bool)
        ensures
            r == (priority_code(self) < priority_code(other)),
    {
        self.code() < other.code()
    }
}

impl Default for Priority {
    fn default() -> (r: Self)
        ensures
            r == Priority::Unset,
    {
        Priority::Unset
    }
}

/// An instant, in UTC: whole seconds since the Unix epoch and the
/// nanoseconds past that second.
#[derive(Debug, Clone, Copy, PartialEq, Eq, Structural)]
pub struct Timestamp {
    pub secs: i64,
    pub nanos: u32,
}

/// A calendar date.
#[derive(Debug, Clone, Copy, PartialEq, Eq, Structural)]
pub struct Date {
    pub year: i32,
    pub month: u32,
    pub day: u32,
}

/// Relies on `chrono::Utc::now`: the present time, read from the system clock.
/// Nothing is promised of the value.
#[verifier::external_body]
pub(crate) fn current_time() -> (r: Timestamp) {
    let now = chrono::Utc::now();
    Timestamp { secs: now.timestamp(), nanos: now.timestamp_subsec_nanos() }
}

/// What a task holds.
pub ghost struct TaskModel {
    pub id: usize,
    pub project_id: usize,
    pub name: Seq<char>,
    pub description: Seq<char>,
    pub priority: Priority,
    pub created_at: Timestamp,
    pub due_time: Option<Date>,
    pub completed_at: Option<Timestamp>,
}

/// A named unit of work, owned by one project.
#[derive(Debug, Clone)]
pub struct Task {
    name: String,
    priority: Priority,
    project_id: usize,
    id: usize,
    description: String,
    created_at: Timestamp,
    due_time: Option<Date>,
    completed_at: Option<Timestamp>,
}

impl View for Task {
    type V = TaskModel;

    closed spec fn view(&self) -> TaskModel {
        TaskModel {
            id: self.id,
            project_id: self.project_id,
            name: self.name@,
            description: self.description@,
            priority: self.priority,
            created_at: self.created_at,
            due_time: self.due_time,
            completed_at: self.completed_at,
        }
    }
}

/// The task that a command describes: its first free word is the name, and an
/// unset description or priority takes its default.
pub open spec fn built_task(
    p: ParamsModel,
    id: usize,
    project_id: usize,
    now: Timestamp,
) -> TaskModel
    recommends
        p.tasks.len() > 0,
{
    TaskModel {
        id,
        project_id,
        name: p.tasks[0],
        description: match p.description {
            Some(d) => d,
            None => Seq::empty(),
        },
        priority: match p.priority {
            Some(q) => q,
            None => Priority::Unset,
        },
        created_at: now,
        due_time: None,
        completed_at: None,
    }
}

/// Builds the task that `command` describes, created at `now`; fails when the
/// command names no task.
pub fn task_from_command_at(
    command: &Command,
    id: usize,
    project_id: usize,
    now: Timestamp,
) -> (r: Result<Task, &'static str>)
    ensures
        r.is_err() <==> command@.parameters.tasks.len() == 0,
        r matches Err(e) ==> e@ == "missing task name"@,
        r matches Ok(t) ==> t@ == built_task(command@.parameters, id, project_id, now),
{
    let parameters = command.parameters();
    let tasks = parameters.tasks();
    if tasks.len() == 0 {
        return Err("missing task name");
    }
    let name = tasks[0].clone();
    let (_, description, priority) = parameters.fields();
    let description = match description {
        Some(d) => d.clone(),
        None => String::new(),
    };
    let priority = match priority {
        Some(q) => *q,
        None => Priority::Unset,
    };
    Ok(Task {
        id,
        project_id,
        name,
        description,
        priority,
        created_at: now,
        due_time: None,
        completed_at: None,
    })
}

/// Builds the task that `command` describes, created now; fails when the
/// command names no task.
pub fn task_from_command(command: &Command, id: usize, project_id: usize) -> (r: Result<
    Task,
    &'static str,
>)
    ensures
        r.is_err() <==> command@.parameters.tasks.len() == 0,
        r matches Err(e) ==> e@ == "missing task name"@,
        r matches Ok(t) ==> t@ == built_task(command@.parameters, id, project_id, t@.created_at),
{
    let now = current_time();
    task_from_command_at(command, id, project_id, now)
}

impl Task {
    pub fn new(
        id: usize,
        project_id: usize,
        name: String,
        description: String,
        priority: Priority,
        created_at: Timestamp,
        due_time: Option<Date>,
        completed_at: Option<Timestamp>,
    ) -> (r: Self)
        ensures
            r@ == (TaskModel {
                id,
                project_id,
                name: name@,
                description: description@,
                priority,
                created_at,
                due_time,
                completed_at,
            }),
    {
        Task { id, project_id, name, description, priority, created_at, due_time, completed_at }
    }

    pub fn id(&self) -> (r: usize)
        ensures
            r == self@.id,
    {
        self.id
    }

    pub fn project_id(&self) -> (r: usize)
        ensures
            r == self@.project_id,
    {
        self.project_id
    }

    pub fn name(&self) -> (r: &String)
        ensures
            r@ == self@.name,
    {
        &self.name
    }

    pub fn description(&self) -> (r: &String)
        ensures
            r@ == self@.description,
    {
        &self.description
    }

    pub fn priority(&self) -> (r: Priority)
        ensures
            r == self@.priority,
    {
        self.priority
    }

    pub fn created_at(&self) -> (r: &Timestamp)
        ensures
            *r == self@.created_at,
    {
        &self.created_at
    }

    pub fn due_time(&self) -> (r: Option<Date>)
        ensures
            r == self@.due_time,
    {
        self.due_time
    }

    pub fn completed_at(&self) -> (r: Option<Timestamp>)
        ensures
            r == self@.completed_at,
    {
        self.completed_at
    }

    /// Records that the task was completed at `at`, replacing any earlier record.
    pub fn mark_complete(&mut self, at: Timestamp)
        ensures
            final(self)@ == (TaskModel { completed_at: Some(at), ..old(self)@ }),
    {
        self.completed_at = Some(at);
    }
}

/// What a project holds.
pub ghost struct ProjectModel {
    pub name: Seq<char>,
    pub id: usize,
    pub parent_id: usize,
    pub tasks: Seq<TaskModel>,
}

/// A named group of tasks, nested under the project `parent_id`.
#[derive(Debug, Clone)]
pub struct Project {
    pub name: String,
    pub id: usize,
    pub parent_id: usize,
    pub tasks: Vec<Task>,
}

impl View for Project {
    type V = ProjectModel;

    open spec fn view(&self) -> ProjectModel {
        ProjectModel {
            name: self.name@,
            id: self.id,
            parent_id: self.parent_id,
            tasks: self.tasks@.map_values(|t: Task| t@),
        }
    }
}

} // verus!
