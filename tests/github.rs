use todo_tray::github::{
    api_subject_url_to_web_url, build_web_url, fetch_next_page, format_relative_time, humanize_reason,
    notification_from_thread, unread_notifications, GithubRepository, GithubSubject, GithubThread,
    MAX_PAGES, PAGE_SIZE,
};
use todo_tray::time::{local_instant, Clock, LocalInstant};

fn clock_at(utc: i64) -> Clock {
    Clock::at(local_instant(utc).unwrap())
}

fn thread(id: &str, unread: bool, reason: &str, updated_at: &str, url: Option<&str>) -> GithubThread {
    GithubThread {
        id: id.to_string(),
        unread,
        reason: reason.to_string(),
        updated_at: updated_at.to_string(),
        subject: GithubSubject { title: format!("Title {}", id), url: url.map(|u| u.to_string()) },
        repository: GithubRepository { full_name: "octo-org/octo-repo".to_string() },
    }
}

#[test]
fn converts_issue_subject_url_to_web_url() {
    let url = "https://api.github.com/repos/octo-org/octo-repo/issues/123";
    assert_eq!(
        api_subject_url_to_web_url(url).as_deref(),
        Some("https://github.com/octo-org/octo-repo/issues/123")
    );
}

#[test]
fn converts_pull_subject_url_to_web_url() {
    let url = "https://api.github.com/repos/octo-org/octo-repo/pulls/456";
    assert_eq!(
        api_subject_url_to_web_url(url).as_deref(),
        Some("https://github.com/octo-org/octo-repo/pull/456")
    );
}

#[test]
fn returns_none_for_other_subject_url_types() {
    let url = "https://api.github.com/repos/octo-org/octo-repo/commits/abcdef";
    assert_eq!(api_subject_url_to_web_url(url), None);
}

#[test]
fn converts_release_subject_url_to_releases_page() {
    let url = "https://api.github.com/repos/octo-org/octo-repo/releases/123456";
    assert_eq!(
        api_subject_url_to_web_url(url).as_deref(),
        Some("https://github.com/octo-org/octo-repo/releases")
    );
}

#[test]
fn pull_url_of_short_owner_maps_to_pull_page() {
    assert_eq!(
        api_subject_url_to_web_url("https://api.github.com/repos/o/r/pulls/456").as_deref(),
        Some("https://github.com/o/r/pull/456")
    );
}

#[test]
fn other_hosts_and_short_paths_have_no_web_page() {
    assert_eq!(api_subject_url_to_web_url("https://example.com/repos/o/r/issues/1"), None);
    assert_eq!(api_subject_url_to_web_url("https://api.github.com/repos/o/r/issues"), None);
    assert_eq!(api_subject_url_to_web_url("https://api.github.com/users/o/r/issues/1"), None);
    assert_eq!(api_subject_url_to_web_url(""), None);
}

#[test]
fn unknown_kind_falls_back_to_inbox_thread() {
    let t = thread("77", true, "mention", "2026-02-24T09:00:00Z", Some("https://api.github.com/repos/o/r/commits/abc"));
    assert_eq!(build_web_url(&t), "https://github.com/notifications?query=thread%3A77");
    let t = thread("78", true, "mention", "2026-02-24T09:00:00Z", None);
    assert_eq!(build_web_url(&t), "https://github.com/notifications?query=thread%3A78");
    let t = thread("79", true, "mention", "2026-02-24T09:00:00Z", Some("https://api.github.com/repos/o/r/issues/9"));
    assert_eq!(build_web_url(&t), "https://github.com/o/r/issues/9");
}

#[test]
fn reasons_are_capitalised() {
    assert_eq!(humanize_reason("review_requested"), "Review_requested");
    assert_eq!(humanize_reason("mention"), "Mention");
    assert_eq!(humanize_reason(""), "notification");
    assert_eq!(humanize_reason("émoji"), "Émoji");
}

#[test]
fn relative_time_counts_days_hours_minutes() {
    let now = 1771934400; // 2026-02-24T12:00:00Z
    let clock = clock_at(now);
    let at = |u: i64| Some(local_instant(u).unwrap());
    assert_eq!(format_relative_time(None, clock), "recent");
    assert_eq!(format_relative_time(at(now - 2 * 86400 - 5), clock), "2d ago");
    assert_eq!(format_relative_time(at(now - 3 * 3600), clock), "3h ago");
    assert_eq!(format_relative_time(at(now - 61), clock), "1m ago");
    let recent: LocalInstant = local_instant(now - 30).unwrap();
    let expected = chrono::DateTime::from_timestamp(now - 30, 0)
        .unwrap()
        .with_timezone(&chrono::Local)
        .format("%H:%M")
        .to_string();
    assert_eq!(format_relative_time(Some(recent), clock), expected);
}

#[test]
fn notification_reads_thread_fields() {
    let clock = clock_at(1771934400);
    let n = notification_from_thread(
        thread("42", true, "mention", "2026-02-24T09:00:00Z", Some("https://api.github.com/repos/o/r/pulls/456")),
        clock,
    );
    assert_eq!(n.thread_id, "42");
    assert_eq!(n.title, "Title 42");
    assert_eq!(n.repository, "octo-org/octo-repo");
    assert_eq!(n.reason, "Mention");
    assert_eq!(n.web_url, "https://github.com/o/r/pull/456");
    assert_eq!(n.updated_at.map(|u| u.utc), Some(1771923600));
    assert_eq!(n.display_time, "3h ago");
    let bad = notification_from_thread(thread("43", true, "mention", "yesterday", None), clock);
    assert_eq!(bad.updated_at, None);
    assert_eq!(bad.display_time, "recent");
}

#[test]
fn only_unread_threads_are_kept_in_order() {
    let clock = clock_at(1771934400);
    let page = vec![
        thread("1", true, "mention", "2026-02-24T09:00:00Z", None),
        thread("2", false, "mention", "2026-02-24T09:00:00Z", None),
        thread("3", true, "assign", "2026-02-24T09:00:00Z", None),
    ];
    let notes = unread_notifications(page, clock);
    let ids: Vec<&str> = notes.iter().map(|n| n.thread_id.as_str()).collect();
    assert_eq!(ids, vec!["1", "3"]);
}

#[test]
fn paging_stops_after_short_page() {
    let served = [PAGE_SIZE, PAGE_SIZE, 7, PAGE_SIZE];
    let mut fetches = 0;
    let mut page = 1;
    loop {
        let count = served[page - 1];
        fetches += 1;
        if !fetch_next_page(page, count) {
            break;
        }
        page += 1;
    }
    assert_eq!(fetches, 3);
}

#[test]
fn paging_stops_at_page_ceiling() {
    let mut fetches = 0;
    let mut page = 1;
    loop {
        fetches += 1;
        if !fetch_next_page(page, PAGE_SIZE) {
            break;
        }
        page += 1;
    }
    assert_eq!(fetches, MAX_PAGES);
    assert!(!fetch_next_page(1, 0));
}
