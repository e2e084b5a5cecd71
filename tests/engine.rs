use todo_tray::engine::{
    apply_account_refresh, apply_autostart, apply_full_refresh, apply_task_refresh, count_of, find_account,
    merge_single_section, parse_snooze_duration, plan_complete, plan_snooze, record_refresh_failure,
    snooze_durations_from_labels, AppState, SnoozeLabelError, TodoTrayError,
};
use todo_tray::github::{GithubNotification, GithubNotificationSection};
use todo_tray::task::{todoist_items, TodoTask, TodoistDue, TodoistTask};
use todo_tray::time::{local_instant, Clock};

const NOON_FEB_24: i64 = 1771934400;

fn clock_at(utc: i64) -> Clock {
    Clock::at(local_instant(utc).unwrap())
}

fn todoist(id: &str, due: Option<&str>) -> TodoistTask {
    TodoistTask { id: id.to_string(), content: format!("Task {}", id), due: due.map(|d| TodoistDue { date: d.to_string() }) }
}

fn note(id: &str) -> GithubNotification {
    GithubNotification {
        thread_id: id.to_string(),
        title: "t".to_string(),
        repository: "o/r".to_string(),
        reason: "Mention".to_string(),
        web_url: "https://github.com/o/r".to_string(),
        updated_at: None,
        display_time: "recent".to_string(),
    }
}

fn section(name: &str, ids: &[&str]) -> GithubNotificationSection {
    GithubNotificationSection { account_name: name.to_string(), notifications: ids.iter().map(|i| note(i)).collect() }
}

fn names(s: &[GithubNotificationSection]) -> Vec<(String, usize)> {
    s.iter().map(|x| (x.account_name.clone(), x.notifications.len())).collect()
}

fn state_with_tasks(clock: Clock) -> AppState {
    let mut state = AppState::initial(vec!["1d".to_string()], false);
    let mut items = todoist_items(
        vec![todoist("t1", Some("2026-02-24T09:00:00Z")), todoist("t2", Some("2026-02-24T18:00:00Z"))],
        clock,
    );
    items.push(TodoTask::from_linear("l1".into(), "ENG-1".into(), "Read only".into(), None, clock));
    apply_full_refresh(&mut state, items, vec![section("work", &["1"]), section("empty", &[])], vec![]);
    state
}

#[test]
fn merging_twice_equals_merging_once() {
    let existing = vec![section("a", &["1"]), section("b", &["2"]), section("c", &["3"])];
    let updated = section("b", &["4", "5"]);
    let once = merge_single_section(existing.clone(), updated.clone());
    let twice = merge_single_section(once.clone(), updated.clone());
    assert_eq!(names(&once), names(&twice));
    assert_eq!(names(&once), vec![("a".into(), 1), ("b".into(), 2), ("c".into(), 1)]);
}

#[test]
fn merging_empty_section_drops_account_and_new_account_goes_last() {
    let existing = vec![section("a", &["1"]), section("b", &["2"])];
    let dropped = merge_single_section(existing.clone(), section("a", &[]));
    assert_eq!(names(&dropped), vec![("b".into(), 1)]);
    let added = merge_single_section(existing, section("z", &["9"]));
    assert_eq!(names(&added), vec![("a".into(), 1), ("b".into(), 1), ("z".into(), 1)]);
}

#[test]
fn full_refresh_fills_state() {
    let clock = clock_at(NOON_FEB_24);
    let state = state_with_tasks(clock);
    assert_eq!(state.overdue_count, 1);
    assert_eq!(state.in_progress_count, 1);
    assert_eq!(names(&state.github_notifications), vec![("work".into(), 1)]);
    assert_eq!(state.github_notification_count, 1);
    assert_eq!(state.calendar_event_count, 0);
    assert!(!state.is_loading);
    assert_eq!(state.error_message, None);
}

#[test]
fn completing_read_only_item_is_refused() {
    let state = state_with_tasks(clock_at(NOON_FEB_24));
    match plan_complete(&state, &"l1".to_string()) {
        Err(TodoTrayError::Unexpected { message }) => assert!(message.contains("read-only")),
        other => panic!("unexpected outcome: {:?}", other),
    }
    assert!(matches!(plan_complete(&state, &"missing".to_string()), Err(TodoTrayError::NotFound { .. })));
    assert_eq!(plan_complete(&state, &"t1".to_string()).unwrap(), "Task t1");
}

#[test]
fn snooze_one_day_moves_due_by_a_day() {
    let state = state_with_tasks(clock_at(NOON_FEB_24));
    let durations = snooze_durations_from_labels(vec!["1d".to_string()]).unwrap();
    let plan = plan_snooze(&state, &durations, &"t1".to_string(), &"1d".to_string()).unwrap();
    assert_eq!(plan.due_text, "2026-02-25T09:00:00Z");
    assert_eq!(plan.new_due, 1772010000);
    assert!(matches!(
        plan_snooze(&state, &durations, &"t1".to_string(), &"2h".to_string()),
        Err(TodoTrayError::Unexpected { .. })
    ));
    assert!(matches!(
        plan_snooze(&state, &durations, &"l1".to_string(), &"1d".to_string()),
        Err(TodoTrayError::NotFound { .. })
    ));
}

#[test]
fn snooze_labels_are_read() {
    assert_eq!(parse_snooze_duration("30m"), Ok(1800));
    assert_eq!(parse_snooze_duration(" 2H "), Ok(7200));
    assert_eq!(parse_snooze_duration("1d"), Ok(86400));
    assert_eq!(parse_snooze_duration("d"), Err(SnoozeLabelError::Malformed));
    assert_eq!(parse_snooze_duration("xd"), Err(SnoozeLabelError::Malformed));
    assert_eq!(parse_snooze_duration("0m"), Err(SnoozeLabelError::NotPositive));
    assert_eq!(parse_snooze_duration("-5m"), Err(SnoozeLabelError::NotPositive));
    assert_eq!(parse_snooze_duration("5w"), Err(SnoozeLabelError::UnknownUnit));
    assert_eq!(parse_snooze_duration("9999999999999999d"), Err(SnoozeLabelError::TooLong));
}

#[test]
fn snooze_choices_default_and_reject_bad_labels() {
    let d = snooze_durations_from_labels(vec![]).unwrap();
    let pairs: Vec<(String, i64)> = d.iter().map(|x| (x.label.clone(), x.seconds)).collect();
    assert_eq!(pairs, vec![("30m".to_string(), 1800), ("1d".to_string(), 86400)]);
    assert!(matches!(snooze_durations_from_labels(vec!["5w".into()]), Err(TodoTrayError::Config { .. })));
}

#[test]
fn failures_keep_cached_data() {
    let mut state = state_with_tasks(clock_at(NOON_FEB_24));
    record_refresh_failure(&mut state, "Network error: down".to_string());
    assert_eq!(state.error_message.as_deref(), Some("Network error: down"));
    assert_eq!(state.overdue_count, 1);
    assert_eq!(state.github_notification_count, 1);
}

#[test]
fn narrow_refreshes_keep_other_sources() {
    let clock = clock_at(NOON_FEB_24);
    let mut state = state_with_tasks(clock);
    apply_task_refresh(&mut state, todoist_items(vec![], clock));
    assert_eq!(state.overdue_count, 0);
    assert_eq!(state.in_progress_count, 1);
    assert_eq!(state.github_notification_count, 1);
    apply_account_refresh(&mut state, section("work", &["1", "2", "3"]));
    assert_eq!(state.github_notification_count, 3);
    apply_autostart(&mut state, true);
    assert!(state.autostart_enabled);
}

#[test]
fn accounts_are_found_by_name() {
    let names = vec!["work".to_string(), "home".to_string()];
    assert_eq!(find_account(&names, &"home".to_string()).unwrap(), 1);
    assert!(matches!(find_account(&names, &"Home".to_string()), Err(TodoTrayError::NotFound { .. })));
}

#[test]
fn errors_describe_themselves() {
    let e = TodoTrayError::Network { message: "down".to_string() };
    assert_eq!(e.describe(), "Network error: down");
    assert_eq!(count_of(3), 3);
}
