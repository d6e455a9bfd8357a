use todo::hierarchy::{Date, Priority, Task, Timestamp};
use todo::storage::{task_from_row, task_from_row_at, task_row, TaskRow};

fn sample() -> Task {
    Task::new(
        7,
        2,
        "Write report".to_string(),
        "quarterly".to_string(),
        Priority::High,
        Timestamp { secs: 1_700_000_000, nanos: 123_456_789 },
        Some(Date { year: 2024, month: 2, day: 29 }),
        Some(Timestamp { secs: 1_700_000_100, nanos: 0 }),
    )
}

#[test]
fn row_holds_text_columns() {
    let row = task_row(&sample());
    assert_eq!(row.id, 7);
    assert_eq!(row.project_id, 2);
    assert_eq!(row.priority, 3);
    assert_eq!(row.created_at, "2023-11-14T22:13:20.123456789+00:00");
    assert_eq!(row.due_time.as_deref(), Some("2024-02-29"));
    assert_eq!(row.completed_at.as_deref(), Some("2023-11-14T22:15:00+00:00"));
}

#[test]
fn stored_task_reads_back() {
    let t = sample();
    let back = task_from_row_at(task_row(&t), Timestamp { secs: 1, nanos: 0 });
    assert_eq!(back.id(), t.id());
    assert_eq!(back.project_id(), t.project_id());
    assert_eq!(back.name(), t.name());
    assert_eq!(back.description(), t.description());
    assert_eq!(back.priority(), t.priority());
    assert_eq!(back.created_at(), t.created_at());
    assert_eq!(back.due_time(), t.due_time());
    assert_eq!(back.completed_at(), t.completed_at());
}

#[test]
fn unreadable_columns_fall_back() {
    let now = Timestamp { secs: 42, nanos: 0 };
    let row = TaskRow {
        id: 1,
        project_id: 0,
        name: "x".to_string(),
        description: String::new(),
        priority: 9,
        created_at: "yesterday".to_string(),
        due_time: Some("2023-02-30".to_string()),
        completed_at: Some("soon".to_string()),
    };
    let t = task_from_row_at(row, now);
    assert_eq!(*t.created_at(), now);
    assert_eq!(t.due_time(), None);
    assert_eq!(t.completed_at(), None);
    assert_eq!(t.priority(), Priority::Unset);
}

#[test]
fn offset_text_reads_in_utc() {
    let row = TaskRow {
        id: 1,
        project_id: 0,
        name: "x".to_string(),
        description: String::new(),
        priority: 1,
        created_at: "1970-01-01T01:00:00+01:00".to_string(),
        due_time: None,
        completed_at: None,
    };
    let t = task_from_row(row);
    assert_eq!(*t.created_at(), Timestamp { secs: 0, nanos: 0 });
    assert_eq!(t.priority(), Priority::Low);
}
