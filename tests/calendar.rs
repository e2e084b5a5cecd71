use todo_tray::calendar::{
    calendar_section, parse_ical_feed, raw_event_to_calendar_event, unescape_ical_text, unfold_lines,
    looks_like_date, normalize_event_url, parse_property_line, DayWindow, EventTime,
};
use todo_tray::time::{local_instant, Clock};

fn clock_at(utc: i64) -> Clock {
    Clock::at(local_instant(utc).unwrap())
}

fn chars(s: &str) -> Vec<char> {
    s.chars().collect()
}

fn text(v: &[char]) -> String {
    v.iter().collect()
}

fn local_hm(utc: i64) -> String {
    chrono::DateTime::from_timestamp(utc, 0)
        .unwrap()
        .with_timezone(&chrono::Local)
        .format("%H:%M")
        .to_string()
}

const NOON_FEB_24: i64 = 1771934400;

#[test]
fn parses_calendar_name_and_event_fields() {
    let ics = "BEGIN:VCALENDAR\r\nX-WR-CALNAME:Work Calendar\r\nBEGIN:VEVENT\r\nUID:abc123\r\nSUMMARY:Daily Sync\r\nDTSTART:20260224T090000Z\r\nDTEND:20260224T093000Z\r\nURL:https://example.com/event\r\nX-GOOGLE-CONFERENCE:https://meet.google.com/nsn-dwjm-vrk\r\nEND:VEVENT\r\nEND:VCALENDAR\r\n";
    let parsed = parse_ical_feed(ics);
    assert_eq!(parsed.calendar_name, "Work Calendar");
    assert_eq!(parsed.events.len(), 1);
    assert_eq!(parsed.events[0].uid.as_deref(), Some("abc123"));
    assert_eq!(parsed.events[0].summary.as_deref(), Some("Daily Sync"));
    assert_eq!(
        parsed.events[0].url.as_deref(),
        Some("https://example.com/event")
    );
    assert_eq!(
        parsed.events[0].conference_url.as_deref(),
        Some("https://meet.google.com/nsn-dwjm-vrk")
    );
}

#[test]
fn utc_event_parses_to_timed_event() {
    let ics = "BEGIN:VEVENT\nUID:sync\nSUMMARY:Daily Sync\nDTSTART:20260224T090000Z\nDTEND:20260224T093000Z\nEND:VEVENT\n";
    let parsed = parse_ical_feed(ics);
    assert_eq!(parsed.events[0].starts_at, Some(EventTime::Utc(1771923600)));
    assert_eq!(parsed.events[0].ends_at, Some(EventTime::Utc(1771925400)));
    let w = DayWindow::for_clock(clock_at(NOON_FEB_24)).unwrap();
    let e = raw_event_to_calendar_event(parsed.events[0].clone(), w).unwrap();
    assert_eq!(e.start_at.map(|s| s.utc), Some(1771923600));
    assert_eq!(e.end_at.map(|s| s.utc), Some(1771925400));
    assert_eq!(e.display_time, format!("{}-{}", local_hm(1771923600), local_hm(1771925400)));
    assert_eq!(e.event_id, "sync");
    assert_eq!(e.title, "Daily Sync");
}

#[test]
fn utc_event_shows_clock_range_in_utc_zone() {
    // The display is in local time; where the local zone is UTC it reads 09:00-09:30.
    let w = DayWindow::for_clock(clock_at(NOON_FEB_24)).unwrap();
    let parsed = parse_ical_feed("BEGIN:VEVENT\nDTSTART:20260224T090000Z\nDTEND:20260224T093000Z\nEND:VEVENT\n");
    let e = raw_event_to_calendar_event(parsed.events[0].clone(), w).unwrap();
    if local_instant(1771923600).unwrap().wall == 1771923600 {
        assert_eq!(e.display_time, "09:00-09:30");
    }
    assert_eq!(e.title, "(Untitled event)");
    assert!(e.event_id.starts_with("(Untitled event)-2026-02-24T09:00:00+00:00"));
}

#[test]
fn one_day_all_day_event_is_today_only_on_its_day() {
    let ics = "BEGIN:VEVENT\nSUMMARY:Holiday\nDTSTART;VALUE=DATE:20260224\nDTEND;VALUE=DATE:20260225\nEND:VEVENT\n";
    let parsed = parse_ical_feed(ics);
    assert_eq!(parsed.events[0].starts_at, Some(EventTime::Date(20508)));
    assert_eq!(parsed.events[0].ends_at, Some(EventTime::Date(20509)));
    for (now, shown) in [(NOON_FEB_24, true), (NOON_FEB_24 + 86400, false), (NOON_FEB_24 - 86400, false)] {
        let w = DayWindow::for_clock(clock_at(now)).unwrap();
        let e = raw_event_to_calendar_event(parsed.events[0].clone(), w);
        assert_eq!(e.is_some(), shown);
        if let Some(e) = e {
            assert_eq!(e.display_time, "All day");
            assert_eq!(e.event_id, "Holiday-2026-02-24");
        }
    }
}

#[test]
fn eight_digit_value_is_a_date_without_marker() {
    let parsed = parse_ical_feed("BEGIN:VEVENT\nDTSTART:20260224\nEND:VEVENT\n");
    assert_eq!(parsed.events[0].starts_at, Some(EventTime::Date(20508)));
    let w = DayWindow::for_clock(clock_at(NOON_FEB_24)).unwrap();
    assert!(raw_event_to_calendar_event(parsed.events[0].clone(), w).is_some());
}

#[test]
fn event_without_start_is_dropped_and_timed_default_is_one_hour() {
    let parsed = parse_ical_feed("BEGIN:VEVENT\nSUMMARY:No start\nEND:VEVENT\nBEGIN:VEVENT\nSUMMARY:Open\nDTSTART:20260224T100000Z\nEND:VEVENT\n");
    let w = DayWindow::for_clock(clock_at(NOON_FEB_24)).unwrap();
    assert!(raw_event_to_calendar_event(parsed.events[0].clone(), w).is_none());
    let e = raw_event_to_calendar_event(parsed.events[1].clone(), w).unwrap();
    assert_eq!(e.end_at.map(|x| x.utc), Some(1771927200 + 3600));
}

#[test]
fn events_of_other_days_are_left_out() {
    let parsed = parse_ical_feed("BEGIN:VEVENT\nDTSTART:20260226T100000Z\nDTEND:20260226T110000Z\nEND:VEVENT\n");
    let w = DayWindow::for_clock(clock_at(NOON_FEB_24)).unwrap();
    assert!(raw_event_to_calendar_event(parsed.events[0].clone(), w).is_none());
}

#[test]
fn section_sorts_events_and_falls_back_to_account_name() {
    let ics = "BEGIN:VEVENT\nUID:late\nDTSTART:20260224T150000Z\nEND:VEVENT\nBEGIN:VEVENT\nUID:early\nDTSTART:20260224T080000Z\nEND:VEVENT\n";
    let sec = calendar_section("Mine".to_string(), ics, clock_at(NOON_FEB_24)).unwrap();
    assert_eq!(sec.account_name, "Mine");
    let ids: Vec<&str> = sec.events.iter().map(|e| e.event_id.as_str()).collect();
    assert_eq!(ids, vec!["early", "late"]);
    let named = calendar_section("Mine".to_string(), "X-WR-CALNAME:Team\n", clock_at(NOON_FEB_24)).unwrap();
    assert_eq!(named.account_name, "Team");
    assert!(named.events.is_empty());
}

#[test]
fn conference_link_is_preferred_when_it_is_a_web_url() {
    let ics = "BEGIN:VEVENT\nDTSTART:20260224T100000Z\nURL: https://example.com/e \nX-GOOGLE-CONFERENCE:tel:123\nEND:VEVENT\n";
    let parsed = parse_ical_feed(ics);
    let w = DayWindow::for_clock(clock_at(NOON_FEB_24)).unwrap();
    let e = raw_event_to_calendar_event(parsed.events[0].clone(), w).unwrap();
    assert_eq!(e.open_url.as_deref(), Some("https://example.com/e"));
    assert_eq!(normalize_event_url("  http://x.org "), Some("http://x.org".to_string()));
    assert_eq!(normalize_event_url("ftp://x.org"), None);
}

#[test]
fn folded_lines_are_joined() {
    let lines = unfold_lines("SUMMARY:Long\r\n  title\r\n\tmore\rDESCRIPTION:x\n");
    let lines: Vec<String> = lines.iter().map(|l| text(l)).collect();
    assert_eq!(lines, vec!["SUMMARY:Longtitlemore".to_string(), "DESCRIPTION:x".to_string()]);
    assert!(unfold_lines("").is_empty());
    let lone: Vec<String> = unfold_lines(" orphan\nA:b").iter().map(|l| text(l)).collect();
    assert_eq!(lone, vec!["A:b".to_string()]);
}

#[test]
fn escapes_are_undone() {
    let v = unescape_ical_text(&chars("a\\, b\\; c\\nd\\\\e"));
    assert_eq!(text(&v), "a, b; c\nd\\e");
    let v = unescape_ical_text(&chars("a\\,b\\;c\\nd\\Ne\\\\n"));
    assert_eq!(text(&v), "a,b;c\nd\ne\\n");
    assert_eq!(text(&unescape_ical_text(&chars("x\\q"))), "x\\q");
}

#[test]
fn property_lines_split_name_params_and_value() {
    let p = parse_property_line(&chars("dtstart; value = date ;tzid=x:20260224")).unwrap();
    assert_eq!(text(&p.name), "DTSTART");
    assert_eq!(text(&p.value), "20260224");
    let params: Vec<(String, String)> = p.params.iter().map(|(k, v)| (text(k), text(v))).collect();
    assert_eq!(params, vec![("VALUE".to_string(), "date".to_string()), ("TZID".to_string(), "x".to_string())]);
    assert!(parse_property_line(&chars("no colon here")).is_none());
}

#[test]
fn date_shape_is_eight_digits() {
    assert!(looks_like_date(&chars("20260224")));
    assert!(!looks_like_date(&chars("2026022")));
    assert!(!looks_like_date(&chars("2026022x")));
}

#[test]
fn placing_one_day_event_depends_on_today_alone() {
    let parsed = parse_ical_feed("BEGIN:VEVENT\nUID:off\nDTSTART;VALUE=DATE:20260224\nDTEND;VALUE=DATE:20260225\nEND:VEVENT\n");
    let start = todo_tray::time::LocalInstant { utc: 1771891200, wall: 1771891200 };
    let end = todo_tray::time::LocalInstant { utc: 1771977600, wall: 1771977600 };
    for (today, shown) in [(20507, false), (20508, true), (20509, false)] {
        let e = todo_tray::calendar::place_all_day(parsed.events[0].clone(), 20508, 20509, start, end, today);
        assert_eq!(e.is_some(), shown);
        if let Some(e) = e {
            assert_eq!(e.display_time, "All day");
            assert_eq!(e.event_id, "off");
            assert_eq!(e.start_at, Some(start));
        }
    }
}

#[test]
fn placing_timed_event_writes_its_clock_range() {
    let parsed = parse_ical_feed("BEGIN:VEVENT\nSUMMARY:Sync\nDTSTART:20260224T090000Z\nDTEND:20260224T093000Z\nEND:VEVENT\n");
    let start = todo_tray::time::LocalInstant { utc: 1771923600, wall: 1771923600 };
    let end = todo_tray::time::LocalInstant { utc: 1771925400, wall: 1771925400 };
    let day = DayWindow { today: 20508, start: 1771891200, end: 1771977600 };
    let e = todo_tray::calendar::place_timed(parsed.events[0].clone(), start, end, day).unwrap();
    assert_eq!(e.display_time, "09:00-09:30");
    assert_eq!(e.event_id, "Sync-2026-02-24T09:00:00+00:00");
    let next_day = DayWindow { today: 20509, start: 1771977600, end: 1772064000 };
    assert!(todo_tray::calendar::place_timed(parsed.events[0].clone(), start, end, next_day).is_none());
    let point = todo_tray::calendar::place_timed(parsed.events[0].clone(), start, start, day).unwrap();
    assert_eq!(point.display_time, "09:00");
}

#[test]
fn events_with_the_same_start_keep_feed_order() {
    let ics = "BEGIN:VEVENT\nUID:b\nDTSTART:20260224T100000Z\nEND:VEVENT\nBEGIN:VEVENT\nUID:a\nDTSTART:20260224T100000Z\nEND:VEVENT\nBEGIN:VEVENT\nUID:c\nDTSTART:20260224T080000Z\nEND:VEVENT\n";
    let sec = calendar_section("Mine".to_string(), ics, clock_at(NOON_FEB_24)).unwrap();
    let ids: Vec<&str> = sec.events.iter().map(|e| e.event_id.as_str()).collect();
    assert_eq!(ids, vec!["c", "b", "a"]);
}

#[test]
fn all_day_event_starts_at_local_midnight() {
    let parsed = parse_ical_feed("BEGIN:VEVENT\nDTSTART;VALUE=DATE:20260224\nEND:VEVENT\n");
    let w = DayWindow::for_clock(clock_at(NOON_FEB_24)).unwrap();
    let e = raw_event_to_calendar_event(parsed.events[0].clone(), w).unwrap();
    assert_eq!(e.start_at.unwrap().wall, 20508 * 86400);
    assert_eq!(e.end_at.unwrap().wall, 20509 * 86400);
}
