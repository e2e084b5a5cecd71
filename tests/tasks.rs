use todo_tray::task::{
    date_flags, group_tasks, parse_due_instant, sort_tasks, todoist_items, TaskSource, TodoTask,
    TodoistDue, TodoistTask,
};
use todo_tray::time::{local_instant, Clock, LocalInstant};

const NOON_FEB_24: i64 = 1771934400;

fn clock_at(utc: i64) -> Clock {
    Clock::at(local_instant(utc).unwrap())
}

fn todoist(id: &str, due: Option<&str>) -> TodoistTask {
    TodoistTask {
        id: id.to_string(),
        content: format!("Task {}", id),
        due: due.map(|d| TodoistDue { date: d.to_string() }),
    }
}

fn local_to_utc(text: &str) -> i64 {
    let naive = chrono::NaiveDateTime::parse_from_str(text, "%Y-%m-%dT%H:%M:%S").unwrap();
    naive.and_local_timezone(chrono::Local).earliest().unwrap().timestamp()
}

#[test]
fn undated_items_have_no_flags() {
    let clock = clock_at(NOON_FEB_24);
    assert_eq!(date_flags(None, clock), (false, false, false));
    let t = TodoTask::from_todoist(todoist("1", None), clock);
    assert!(!t.is_overdue && !t.is_today && !t.is_tomorrow);
    assert_eq!(t.display_time, "no due date");
    let l = TodoTask::from_linear("i".into(), "ENG-1".into(), "Fix".into(), None, clock);
    assert!(!l.is_overdue && !l.is_today && !l.is_tomorrow);
    assert_eq!(l.display_time, "In progress");
    assert_eq!(l.content, "[ENG-1] Fix");
    assert!(!l.can_complete);
    assert_eq!(l.source, TaskSource::Linear);
}

#[test]
fn date_only_due_is_end_of_local_day() {
    let expected = local_to_utc("2026-02-24T23:59:59");
    assert_eq!(parse_due_instant("2026-02-24"), Some(expected));
    let before = TodoTask::from_todoist(todoist("1", Some("2026-02-24")), clock_at(NOON_FEB_24));
    assert_eq!(before.due.map(|d| d.wall), Some(20508 * 86400 + 86399));
    assert_eq!(before.due.map(|d| d.utc), Some(expected));
    assert!(!before.is_overdue);
    let after = TodoTask::from_todoist(todoist("1", Some("2026-02-24")), clock_at(expected + 1));
    assert!(after.is_overdue);
    assert_eq!(after.display_time, "overdue");
    let later = TodoTask::from_todoist(todoist("1", Some("2026-02-24")), clock_at(expected + 2 * 86400 + 10));
    assert_eq!(later.display_time, "2d ago");
    let hours = TodoTask::from_todoist(todoist("1", Some("2026-02-24")), clock_at(expected + 5 * 3600));
    assert_eq!(hours.display_time, "5h ago");
}

#[test]
fn due_forms_are_read() {
    assert_eq!(parse_due_instant("2026-02-24T09:00:00Z"), Some(1771923600));
    assert_eq!(parse_due_instant("2026-02-24T09:00:00"), Some(local_to_utc("2026-02-24T09:00:00")));
    assert_eq!(parse_due_instant("tomorrow"), None);
    assert_eq!(parse_due_instant("2026-02-30"), None);
}

#[test]
fn flags_follow_local_days() {
    let clock = clock_at(NOON_FEB_24);
    let today = TodoTask::from_todoist(todoist("a", Some("2026-02-24T18:00:00Z")), clock);
    let tomorrow = TodoTask::from_todoist(todoist("b", Some("2026-02-25T18:00:00Z")), clock);
    let wall = local_instant(1771956000).unwrap().wall;
    let expected_today = wall.div_euclid(86400) == clock.today;
    assert_eq!(today.is_today, expected_today);
    assert!(!today.is_overdue);
    assert_eq!(tomorrow.is_tomorrow, local_instant(1772042400).unwrap().wall.div_euclid(86400) == clock.today + 1);
    let at = LocalInstant { utc: NOON_FEB_24 - 1, wall: NOON_FEB_24 - 1 };
    assert_eq!(date_flags(Some(at), Clock { now: NOON_FEB_24, today: 20508 }), (true, true, false));
}

#[test]
fn sorting_puts_overdue_first_then_by_due() {
    let clock = clock_at(NOON_FEB_24);
    let mut tasks = todoist_items(
        vec![
            todoist("none", None),
            todoist("later", Some("2026-02-24T20:00:00Z")),
            todoist("old", Some("2026-02-20T08:00:00Z")),
            todoist("soon", Some("2026-02-24T13:00:00Z")),
            todoist("older", Some("2026-02-19T08:00:00Z")),
        ],
        clock,
    );
    sort_tasks(&mut tasks);
    let ids: Vec<&str> = tasks.iter().map(|t| t.id.as_str()).collect();
    assert_eq!(ids, vec!["older", "old", "soon", "later", "none"]);
}

#[test]
fn sorting_keeps_ties_in_order() {
    let clock = clock_at(NOON_FEB_24);
    let mut tasks = todoist_items(vec![todoist("x", None), todoist("y", None), todoist("z", None)], clock);
    sort_tasks(&mut tasks);
    let ids: Vec<&str> = tasks.iter().map(|t| t.id.as_str()).collect();
    assert_eq!(ids, vec!["x", "y", "z"]);
}

#[test]
fn grouping_fills_the_buckets() {
    let clock = clock_at(NOON_FEB_24);
    let mut items = todoist_items(
        vec![
            todoist("past", Some("2026-02-20T08:00:00Z")),
            todoist("today", Some("2026-02-24T13:00:00Z")),
            todoist("next", Some("2026-02-25T13:00:00Z")),
            todoist("far", Some("2026-03-25T13:00:00Z")),
        ],
        clock,
    );
    items.push(TodoTask::from_linear("l1".into(), "ENG-2".into(), "Ship".into(), Some("2026-02-24".into()), clock));
    let list = group_tasks(items);
    let ids = |v: &Vec<TodoTask>| v.iter().map(|t| t.id.clone()).collect::<Vec<_>>();
    assert_eq!(ids(&list.overdue), vec!["past"]);
    assert_eq!(ids(&list.in_progress), vec!["l1"]);
    if local_instant(NOON_FEB_24).unwrap().wall.div_euclid(86400) == local_instant(1771938000).unwrap().wall.div_euclid(86400) {
        assert_eq!(ids(&list.today), vec!["today"]);
    }
    assert!(!ids(&list.today).contains(&"far".to_string()));
    assert!(!ids(&list.tomorrow).contains(&"far".to_string()));
}

#[test]
fn current_clock_reads_the_system_time() {
    let clock = Clock::current().unwrap();
    let now = chrono::Utc::now().timestamp();
    assert!((clock.now - now).abs() <= 5);
    let wall = local_instant(clock.now).unwrap().wall;
    assert_eq!(clock.today, wall.div_euclid(86400));
    assert!(clock.now > 1_700_000_000);
}

#[test]
fn overdue_task_is_never_also_in_tomorrow() {
    let clock = clock_at(NOON_FEB_24);
    let mut t = TodoTask::from_todoist(todoist("odd", Some("2026-02-24T09:00:00Z")), clock);
    t.is_overdue = true;
    t.is_tomorrow = true;
    let list = group_tasks(vec![t]);
    assert_eq!(list.overdue.len(), 1);
    assert!(list.tomorrow.is_empty());
    assert!(list.today.is_empty());
}
