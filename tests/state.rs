use todo::app_state::{AppState, OutlineLine};
use todo::command::Command;
use todo::hierarchy::{Project, Task, Priority, Timestamp};

fn cmd(words: &[&str]) -> Command {
    let mut args = vec!["todo".to_string()];
    for w in words {
        args.push(w.to_string());
    }
    Command::new(args)
}

fn fresh() -> AppState {
    AppState::new(Vec::new(), 0)
}

fn lines(v: &[OutlineLine]) -> Vec<(usize, bool, String)> {
    v.iter().map(|l| (l.depth, l.is_task, l.name.clone())).collect()
}

fn task_ids(s: &AppState) -> Vec<(usize, usize)> {
    let mut out = Vec::new();
    for p in s.projects() {
        for t in &p.tasks {
            out.push((p.id, t.id()));
        }
    }
    out
}

#[test]
fn new_state_holds_home() {
    let s = fresh();
    assert_eq!(s.projects().len(), 1);
    assert_eq!(s.projects()[0].name, "Home");
    assert_eq!(s.projects()[0].id, 0);
    assert_eq!(s.next_task_id(), 0);
    let stored = vec![Project { name: "Work".to_string(), id: 4, parent_id: 0, tasks: Vec::new() }];
    let s = AppState::new(stored, 9);
    assert_eq!(s.projects()[0].name, "Work");
    assert_eq!(s.next_task_id(), 9);
    assert_eq!(s.largest_project_id(), 4);
}

#[test]
fn scenario_milk_and_report() {
    let mut s = fresh();
    assert_eq!(s.handle_add(&cmd(&["add", "Buy milk"]), false), Ok(()));
    assert_eq!(task_ids(&s), vec![(0, 0)]);
    assert_eq!(s.find_project_id("Work"), None);
    assert_eq!(s.handle_add(&cmd(&["add", "Write report", "-p", "Work"]), true), Ok(()));
    assert_eq!(s.find_project_id("Work"), Some(1));
    assert_eq!(task_ids(&s), vec![(0, 0), (1, 1)]);
    assert_eq!(
        lines(&s.handle_list(0)),
        vec![
            (0, false, "Home".to_string()),
            (1, true, "Buy milk".to_string()),
            (1, false, "Work".to_string()),
            (2, true, "Write report".to_string()),
        ]
    );
    let at = Timestamp { secs: 1_700_000_000, nanos: 0 };
    assert_eq!(s.handle_complete_at(&cmd(&["complete", "0"]), at), Ok(()));
    assert_eq!(s.projects()[0].tasks[0].completed_at(), Some(at));
    assert_eq!(s.projects()[1].tasks[0].completed_at(), None);
    assert_eq!(
        s.handle_remove_project(&cmd(&["remove-project", "Work"])),
        Err("project has tasks, use --force to remove anyway")
    );
    assert_eq!(s.projects().len(), 2);
    assert_eq!(s.handle_remove_project(&cmd(&["remove-project", "Work", "-f"])), Ok(()));
    assert_eq!(
        lines(&s.handle_list(0)),
        vec![(0, false, "Home".to_string()), (1, true, "Buy milk".to_string())]
    );
}

#[test]
fn ids_increase_across_removal() {
    let mut s = fresh();
    s.handle_add(&cmd(&["add", "a"]), false).unwrap();
    s.handle_add(&cmd(&["add", "b"]), false).unwrap();
    s.handle_remove(&cmd(&["rm", "1"])).unwrap();
    s.handle_add(&cmd(&["add", "c"]), false).unwrap();
    assert_eq!(task_ids(&s), vec![(0, 0), (0, 2)]);
    assert_eq!(s.next_task_id(), 3);
}

#[test]
fn removed_task_is_not_shown() {
    let mut s = fresh();
    s.handle_add(&cmd(&["add", "a"]), false).unwrap();
    assert!(s.handle_show(&cmd(&["show", "0"])).is_ok());
    assert_eq!(s.handle_remove(&cmd(&["rm", "0"])), Ok(()));
    assert_eq!(s.handle_show(&cmd(&["show", "0"])).unwrap_err(), "task not found");
    assert_eq!(s.handle_remove(&cmd(&["rm", "0"])), Err("task not found"));
    assert_eq!(s.handle_remove(&cmd(&["rm"])), Err("task ID required"));
}

#[test]
fn show_gives_task_and_project() {
    let mut s = fresh();
    s.handle_create_project(&cmd(&["project", "Work"])).unwrap();
    s.handle_add(&cmd(&["add", "Plan", "-p", "Work", "--priority", "h"]), false).unwrap();
    let (p, t) = s.handle_show(&cmd(&["show", "0"])).unwrap();
    assert_eq!(p.name, "Work");
    assert_eq!(t.name(), "Plan");
    assert_eq!(t.priority(), Priority::High);
    assert_eq!(s.handle_show(&cmd(&["show"])).unwrap_err(), "task ID required");
}

#[test]
fn complete_again_overwrites() {
    let mut s = fresh();
    s.handle_add(&cmd(&["add", "a"]), false).unwrap();
    let t1 = Timestamp { secs: 10, nanos: 1 };
    let t2 = Timestamp { secs: 20, nanos: 2 };
    assert_eq!(s.handle_complete_at(&cmd(&["done", "0"]), t1), Ok(()));
    assert_eq!(s.handle_complete_at(&cmd(&["done", "0"]), t1), Ok(()));
    assert_eq!(s.projects()[0].tasks[0].completed_at(), Some(t1));
    assert_eq!(s.handle_complete_at(&cmd(&["done", "0"]), t2), Ok(()));
    assert_eq!(s.projects()[0].tasks[0].completed_at(), Some(t2));
    assert_eq!(s.handle_complete_at(&cmd(&["done", "5"]), t2), Err("task not found"));
    assert_eq!(s.handle_complete_at(&cmd(&["done"]), t2), Err("task ID required"));
}

#[test]
fn complete_reads_the_clock() {
    let mut s = fresh();
    s.handle_add(&cmd(&["add", "a"]), false).unwrap();
    assert_eq!(s.handle_complete(&cmd(&["done", "0"])), Ok(()));
    assert!(s.projects()[0].tasks[0].completed_at().unwrap().secs > 0);
}

#[test]
fn home_cannot_be_removed() {
    let mut s = fresh();
    assert_eq!(s.handle_remove_project(&cmd(&["rmp", "Home"])), Err("cannot remove Home project"));
    assert_eq!(s.handle_remove_project(&cmd(&["rmp", "Home", "-f"])), Err("cannot remove Home project"));
    assert_eq!(s.projects().len(), 1);
}

#[test]
fn project_errors() {
    let mut s = fresh();
    assert_eq!(s.handle_create_project(&cmd(&["project"])), Err("project name required"));
    assert_eq!(s.handle_create_project(&cmd(&["project", "Home"])), Err("project already exists"));
    assert_eq!(s.handle_create_project(&cmd(&["project", "-p", "Work"])), Ok(()));
    assert_eq!(s.find_project_id("Work"), Some(1));
    assert_eq!(s.handle_remove_project(&cmd(&["rmp"])), Err("project name required"));
    assert_eq!(s.handle_remove_project(&cmd(&["rmp", "Nope"])), Err("project not found"));
    assert_eq!(s.handle_remove_project(&cmd(&["rmp", "Work"])), Ok(()));
    assert_eq!(s.find_project_id("Work"), None);
}

#[test]
fn project_ids_follow_the_largest() {
    let stored = vec![
        Project { name: "Home".to_string(), id: 0, parent_id: 0, tasks: Vec::new() },
        Project { name: "Old".to_string(), id: 7, parent_id: 0, tasks: Vec::new() },
    ];
    let mut s = AppState::new(stored, 0);
    s.handle_create_project(&cmd(&["project", "New"])).unwrap();
    assert_eq!(s.find_project_id("New"), Some(8));
}

#[test]
fn add_errors() {
    let mut s = fresh();
    assert_eq!(s.handle_add(&cmd(&["add", "x", "-p", "Work"]), false), Err("project not created"));
    assert_eq!(s.projects().len(), 1);
    assert_eq!(s.handle_add(&cmd(&["add"]), false), Err("missing task name"));
    assert_eq!(s.next_task_id(), 0);
    let stored = vec![Project { name: "Work".to_string(), id: 3, parent_id: 0, tasks: Vec::new() }];
    let mut s = AppState::new(stored, 0);
    assert_eq!(s.handle_add(&cmd(&["add", "x"]), false), Err("project not found"));
}

#[test]
fn modify_rebuilds_task() {
    let mut s = fresh();
    s.handle_add(&cmd(&["add", "a", "--priority", "high", "-d", "old"]), false).unwrap();
    let at = Timestamp { secs: 50, nanos: 0 };
    s.handle_complete_at(&cmd(&["done", "0"]), at).unwrap();
    let later = Timestamp { secs: 60, nanos: 0 };
    assert_eq!(s.handle_modify_at(&cmd(&["mod", "0", "b"]), later), Ok(()));
    let t = &s.projects()[0].tasks[0];
    assert_eq!(t.id(), 0);
    assert_eq!(t.name(), "b");
    assert_eq!(t.description(), "");
    assert_eq!(t.priority(), Priority::Unset);
    assert_eq!(*t.created_at(), later);
    assert_eq!(t.completed_at(), None);
    assert_eq!(s.handle_modify_at(&cmd(&["mod", "0"]), later), Err("invalid command fields"));
    assert_eq!(s.handle_modify_at(&cmd(&["mod", "4", "c"]), later), Err("task not found"));
    assert_eq!(s.handle_modify(&cmd(&["mod"])), Err("task ID required"));
    assert_eq!(s.handle_modify(&cmd(&["mod", "0", "d"])), Ok(()));
    assert_eq!(s.projects()[0].tasks[0].name(), "d");
}

#[test]
fn remove_and_modify_task_by_id() {
    let mut s = fresh();
    s.handle_add(&cmd(&["add", "a"]), false).unwrap();
    s.handle_add(&cmd(&["add", "b"]), false).unwrap();
    s.handle_modify_task(1, &cmd(&["mod", "z"]));
    assert_eq!(s.projects()[0].tasks[1].name(), "z");
    s.handle_remove_task(0, 5);
    assert_eq!(task_ids(&s), vec![(0, 0), (0, 1)]);
    s.handle_remove_task(0, 0);
    assert_eq!(task_ids(&s), vec![(0, 1)]);
}

#[test]
fn list_survives_parent_cycle() {
    let stored = vec![
        Project { name: "Home".to_string(), id: 0, parent_id: 0, tasks: Vec::new() },
        Project { name: "A".to_string(), id: 1, parent_id: 2, tasks: Vec::new() },
        Project { name: "B".to_string(), id: 2, parent_id: 1, tasks: Vec::new() },
    ];
    let s = AppState::new(stored, 0);
    assert_eq!(lines(&s.handle_list(0)), vec![(0, false, "Home".to_string())]);
    let out = lines(&s.handle_list(1));
    assert_eq!(out.len(), 3);
    assert_eq!(out[0], (0, false, "A".to_string()));
    assert_eq!(out[1], (1, false, "B".to_string()));
    assert_eq!(out[2], (2, false, "A".to_string()));
    assert!(s.handle_list(9).is_empty());
}

#[test]
fn task_new_keeps_fields() {
    let at = Timestamp { secs: 3, nanos: 4 };
    let t = Task::new(2, 1, "n".to_string(), "d".to_string(), Priority::Medium, at, None, Some(at));
    assert_eq!(t.id(), 2);
    assert_eq!(t.project_id(), 1);
    assert_eq!(t.completed_at(), Some(at));
}
