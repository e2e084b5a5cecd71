use todo_tray::config::{
    autostart_change, core_setup, default_snooze_durations, CalendarFeedConfig, Config, ConfigProblem,
    GithubAccountConfig,
};

fn config() -> Config {
    Config {
        todoist_api_token: "tok".to_string(),
        linear_api_token: Some("  lin  ".to_string()),
        github_accounts: vec![GithubAccountConfig { name: " work ".to_string(), token: " ghp ".to_string() }],
        calendar_feeds: vec![CalendarFeedConfig { name: "Cal".to_string(), ical_url: " https://x/feed.ics ".to_string() }],
        snooze_durations: vec![],
        autostart: false,
    }
}

#[test]
fn default_snooze_choices() {
    assert_eq!(default_snooze_durations(), vec!["30m".to_string(), "1d".to_string()]);
}

#[test]
fn valid_config_passes() {
    assert!(config().validate().is_ok());
}

#[test]
fn placeholder_token_is_refused() {
    let mut c = config();
    c.todoist_api_token = "YOUR_TOKEN_HERE".to_string();
    assert!(matches!(c.validate(), Err(ConfigProblem::MissingToken)));
    c.todoist_api_token = String::new();
    assert!(matches!(c.validate(), Err(ConfigProblem::MissingToken)));
}

#[test]
fn account_problems_are_named() {
    let mut c = config();
    c.github_accounts.push(GithubAccountConfig { name: "  ".to_string(), token: "t".to_string() });
    assert!(matches!(c.validate(), Err(ConfigProblem::EmptyAccountName)));
    let mut c = config();
    c.github_accounts.push(GithubAccountConfig { name: "home".to_string(), token: " ".to_string() });
    assert!(matches!(c.validate(), Err(ConfigProblem::EmptyAccountToken { name }) if name == "home"));
    let mut c = config();
    c.github_accounts.push(GithubAccountConfig { name: "WORK".to_string(), token: "t".to_string() });
    assert!(matches!(c.validate(), Err(ConfigProblem::DuplicateAccount { name }) if name == "WORK"));
}

#[test]
fn feed_problems_are_named() {
    let mut c = config();
    c.calendar_feeds.push(CalendarFeedConfig { name: "".to_string(), ical_url: "u".to_string() });
    assert!(matches!(c.validate(), Err(ConfigProblem::EmptyFeedName)));
    let mut c = config();
    c.calendar_feeds.push(CalendarFeedConfig { name: "Other".to_string(), ical_url: "".to_string() });
    assert!(matches!(c.validate(), Err(ConfigProblem::EmptyFeedUrl { .. })));
    let mut c = config();
    c.calendar_feeds.push(CalendarFeedConfig { name: "cal".to_string(), ical_url: "u".to_string() });
    assert!(matches!(c.validate(), Err(ConfigProblem::DuplicateFeed { .. })));
}

#[test]
fn setup_trims_and_reads_choices() {
    let s = core_setup(config()).unwrap();
    assert_eq!(s.linear_api_token.as_deref(), Some("lin"));
    assert_eq!(s.github_accounts[0].name, "work");
    assert_eq!(s.github_accounts[0].token, "ghp");
    assert_eq!(s.calendar_feeds[0].ical_url, "https://x/feed.ics");
    assert_eq!(s.snooze_durations.len(), 2);
    let mut c = config();
    c.linear_api_token = Some("   ".to_string());
    c.snooze_durations = vec!["15m".to_string()];
    let s = core_setup(c).unwrap();
    assert_eq!(s.linear_api_token, None);
    assert_eq!(s.snooze_durations[0].seconds, 900);
    let mut c = config();
    c.snooze_durations = vec!["soon".to_string()];
    assert!(core_setup(c).is_err());
}

#[test]
fn autostart_follows_configuration() {
    assert_eq!(autostart_change(true, false), Some(true));
    assert_eq!(autostart_change(false, true), Some(false));
    assert_eq!(autostart_change(true, true), None);
    assert_eq!(autostart_change(false, false), None);
}
