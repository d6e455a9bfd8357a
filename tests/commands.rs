use todo::command::{Command, Flag};
use todo::hierarchy::{task_from_command, task_from_command_at, Priority, Timestamp};
use todo::text::{parse_index, same_text};

fn cmd(words: &[&str]) -> Command {
    let mut args = vec!["todo".to_string()];
    for w in words {
        args.push(w.to_string());
    }
    Command::new(args)
}

#[test]
fn op_is_second_argument() {
    let c = cmd(&["add", "Buy milk"]);
    assert_eq!(c.op(), "add");
    assert_eq!(c.get_tasks(), vec!["Buy milk".to_string()]);
}

#[test]
fn flags_take_following_value() {
    let c = cmd(&["add", "Write report", "-p", "Work", "-d", "quarterly", "--priority", "high"]);
    let p = c.parameters();
    let (project, description, priority) = p.fields();
    assert_eq!(project.as_deref(), Some("Work"));
    assert_eq!(description.as_deref(), Some("quarterly"));
    assert_eq!(*priority, Some(Priority::High));
    assert_eq!(p.tasks(), &vec!["Write report".to_string()]);
    assert_eq!(p.task_id(), None);
    assert!(!p.force());
}

#[test]
fn long_flag_spellings() {
    let c = cmd(&["add", "x", "--project", "Home", "--description", "d", "--force"]);
    let (project, description, _) = c.parameters().fields();
    assert_eq!(project.as_deref(), Some("Home"));
    assert_eq!(description.as_deref(), Some("d"));
    assert!(c.parameters().force());
}

#[test]
fn missing_flag_value_is_dropped() {
    let c = cmd(&["add", "x", "-p"]);
    let (project, _, _) = c.parameters().fields();
    assert_eq!(*project, None);
    assert_eq!(c.get_tasks(), vec!["x".to_string()]);
}

#[test]
fn first_integer_is_task_id() {
    let c = cmd(&["modify", "3", "Task", "2"]);
    assert_eq!(c.parameters().task_id(), Some(3));
    assert_eq!(c.get_tasks(), vec!["Task".to_string(), "2".to_string()]);
}

#[test]
fn short_force_flag_takes_no_value() {
    let c = cmd(&["rmp", "-f", "Work"]);
    assert!(c.parameters().force());
    assert_eq!(c.get_tasks(), vec!["Work".to_string()]);
}

#[test]
fn priority_words_in_any_case() {
    assert_eq!(Priority::translate_priority("HIGH"), Priority::High);
    assert_eq!(Priority::translate_priority("M"), Priority::Medium);
    assert_eq!(Priority::translate_priority("Low"), Priority::Low);
    assert_eq!(Priority::translate_priority("urgent"), Priority::Unset);
    assert_eq!(Priority::from_lowered("l"), Priority::Low);
    assert_eq!(Priority::from_lowered("HIGH"), Priority::Unset);
    assert_eq!(Priority::default(), Priority::Unset);
}

#[test]
fn priority_codes_round_trip() {
    for q in [Priority::Unset, Priority::Low, Priority::Medium, Priority::High] {
        assert_eq!(Priority::from_code(q.code()), q);
    }
    assert_eq!(Priority::High.code(), 3);
    assert_eq!(Priority::from_code(9), Priority::Unset);
    assert!(Priority::Unset.is_below(Priority::Low));
    assert!(!Priority::High.is_below(Priority::Medium));
}

#[test]
fn classify_each_flag() {
    assert_eq!(Flag::classify_flag("-p"), Flag::Project);
    assert_eq!(Flag::classify_flag("--description"), Flag::Description);
    assert_eq!(Flag::classify_flag("--priority"), Flag::Priority);
    assert_eq!(Flag::classify_flag("-f"), Flag::Force);
    assert_eq!(Flag::classify_flag("-x"), Flag::Other);
}

#[test]
fn decimal_indexes() {
    assert_eq!(parse_index("0"), Some(0));
    assert_eq!(parse_index("007"), Some(7));
    assert_eq!(parse_index("+5"), Some(5));
    assert_eq!(parse_index("18446744073709551615"), Some(usize::MAX));
    assert_eq!(parse_index("18446744073709551616"), None);
    assert_eq!(parse_index(""), None);
    assert_eq!(parse_index("+"), None);
    assert_eq!(parse_index("-1"), None);
    assert_eq!(parse_index("12a"), None);
    assert!(same_text("abc", "abc"));
    assert!(!same_text("abc", "abd"));
}

#[test]
fn task_built_from_command() {
    let c = cmd(&["add", "Buy milk", "-d", "two litres", "--priority", "l"]);
    let at = Timestamp { secs: 100, nanos: 5 };
    let t = task_from_command_at(&c, 4, 2, at).unwrap();
    assert_eq!(t.id(), 4);
    assert_eq!(t.project_id(), 2);
    assert_eq!(t.name(), "Buy milk");
    assert_eq!(t.description(), "two litres");
    assert_eq!(t.priority(), Priority::Low);
    assert_eq!(*t.created_at(), at);
    assert_eq!(t.due_time(), None);
    assert_eq!(t.completed_at(), None);
}

#[test]
fn task_defaults_and_missing_name() {
    let c = cmd(&["add", "x"]);
    let t = task_from_command(&c, 0, 0).unwrap();
    assert_eq!(t.description(), "");
    assert_eq!(t.priority(), Priority::Unset);
    assert!(t.created_at().secs > 0);
    let empty = cmd(&["add"]);
    assert_eq!(task_from_command(&empty, 0, 0).unwrap_err(), "missing task name");
}
