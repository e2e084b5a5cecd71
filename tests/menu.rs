use todo_tray::linear::{eq_ignore_case, is_in_progress, join_messages, next_page_cursor, LinearIssue};
use todo_tray::menu::{build_menu, format_task_menu_item, format_tray_title, parse_menu_event, truncate, MenuEntry, TrayCommand};
use todo_tray::notification::{completed_notice, newly_overdue, overdue_notice};
use todo_tray::task::{group_tasks, TodoTask};
use todo_tray::time::{local_instant, Clock};

#[test]
fn tray_title_counts() {
    assert_eq!(format_tray_title(3, 5), "! 3");
    assert_eq!(format_tray_title(0, 5), "5");
    assert_eq!(format_tray_title(0, 0), "0");
}

#[test]
fn long_names_are_cut() {
    assert_eq!(truncate("short", 10), "short");
    assert_eq!(truncate("abcdefghij", 5), "abcd\u{2026}");
    assert_eq!(truncate("abc", 0), "\u{2026}");
    let accents = "\u{e9}".repeat(18);
    assert_eq!(truncate(&accents, 35), format!("{}\u{2026}", "\u{e9}".repeat(17)));
    assert_eq!(truncate(&"\u{e9}".repeat(17), 35), "\u{e9}".repeat(17));
}

#[test]
fn menu_events_become_commands() {
    assert_eq!(parse_menu_event("refresh"), TrayCommand::RefreshTasks);
    assert_eq!(parse_menu_event("toggle_autostart"), TrayCommand::ToggleAutostart);
    assert_eq!(parse_menu_event("quit"), TrayCommand::Quit);
    assert_eq!(parse_menu_event("123"), TrayCommand::CompleteTask("123".to_string()));
    assert_eq!(parse_menu_event("header"), TrayCommand::RefreshTasks);
    assert_eq!(parse_menu_event(""), TrayCommand::RefreshTasks);
}

#[test]
fn menu_lists_groups_and_controls() {
    let clock = Clock::at(local_instant(1771934400).unwrap());
    let t = TodoTask::from_todoist(
        todo_tray::task::TodoistTask { id: "9".into(), content: "Pay rent".into(), due: None },
        clock,
    );
    assert_eq!(format_task_menu_item(&t), "Pay rent");
    let empty = group_tasks(vec![]);
    let menu = build_menu(&empty, true, true);
    let texts: Vec<String> = menu
        .iter()
        .map(|e| match e {
            MenuEntry::Header(h) => h.clone(),
            MenuEntry::Task { text, .. } => text.clone(),
            MenuEntry::Separator => "-".to_string(),
            MenuEntry::Action { text, .. } => text.clone(),
        })
        .collect();
    assert_eq!(texts, vec!["No tasks for today", "-", "Refresh", "\u{2713} Autostart", "Quit"]);
}

#[test]
fn notices_read_well() {
    assert_eq!(overdue_notice(0, &vec![]), None);
    assert_eq!(
        overdue_notice(1, &vec!["Pay rent".to_string()]),
        Some(("Task Overdue".to_string(), "Pay rent".to_string()))
    );
    assert_eq!(
        overdue_notice(3, &vec!["a".to_string()]),
        Some(("3 Tasks Overdue".to_string(), "3 tasks need attention".to_string()))
    );
    assert_eq!(newly_overdue(1, &vec!["a".to_string(), "b".to_string()]), Some(vec!["b".to_string()]));
    assert_eq!(newly_overdue(2, &vec!["a".to_string()]), None);
    assert_eq!(completed_notice("done"), "done");
}

#[test]
fn issue_states_in_progress() {
    let issue = |name: &str, kind: &str| LinearIssue {
        id: "1".into(),
        identifier: "ENG-1".into(),
        title: "t".into(),
        due_date: None,
        state_name: name.into(),
        state_type: kind.into(),
    };
    assert!(is_in_progress(&issue("Doing", "STARTED")));
    assert!(is_in_progress(&issue("in Progress", "unstarted")));
    assert!(!is_in_progress(&issue("Todo", "unstarted")));
    assert!(eq_ignore_case("AbC", "aBc"));
    assert!(!eq_ignore_case("abc", "abd"));
    assert_eq!(next_page_cursor(true, Some("c".into())), Some("c".to_string()));
    assert_eq!(next_page_cursor(false, Some("c".into())), None);
    assert_eq!(join_messages(&vec!["a".into(), "b".into()]), "a; b");
}
