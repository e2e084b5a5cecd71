//! The configuration: accounts, feeds, snooze choices, and what makes it usable.
use crate::engine::{
    all_labels_read, choices_of, snooze_durations_from_labels, snooze_labels, SnoozeDuration,
    TodoTrayError,
};
use crate::text::{chars_of, lower_of, string_of, to_lower, trim, trim_of};
use vstd::prelude::*;

verus! {

/// The application's configuration, as read from its file.
#[derive(Clone, Debug)]
pub struct Config {
    pub todoist_api_token: String,
    pub linear_api_token: Option<String>,
    pub github_accounts: Vec<GithubAccountConfig>,
    pub calendar_feeds: Vec<CalendarFeedConfig>,
    pub snooze_durations: Vec<String>,
    pub autostart: bool,
}

/// One notification account: a name to show and an access token.
#[derive(Clone, Debug)]
pub struct GithubAccountConfig {
    pub name: String,
    pub token: String,
}

/// One calendar feed: a name to show and the feed's private URL.
#[derive(Clone, Debug)]
pub struct CalendarFeedConfig {
    pub name: String,
    pub ical_url: String,
}

/// Why a configuration cannot be used.
#[derive(Clone, Debug)]
pub enum ConfigProblem {
    /// The task tracker's token is missing or still the placeholder.
    MissingToken,
    /// A notification account has no name.
    EmptyAccountName,
    /// A notification account has no token.
    EmptyAccountToken { name: String },
    /// Two notification accounts share a name, letter case aside.
    DuplicateAccount { name: String },
    /// A calendar feed has no name.
    EmptyFeedName,
    /// A calendar feed has no URL.
    EmptyFeedUrl { name: String },
    /// Two calendar feeds share a name, letter case aside.
    DuplicateFeed { name: String },
}

/// The snooze choices offered when the configuration names none.
pub fn default_snooze_durations() -> (r: Vec<String>)
    ensures
        r@.map_values(|s: String| s@) == seq!["30m"@, "1d"@],
{
    let r = vec!["30m".to_string(), "1d".to_string()];
    assert(r@.map_values(|s: String| s@) =~= seq!["30m"@, "1d"@]);
    r
}

/// Whether the task tracker's token is set.
pub open spec fn token_ok(t: Seq<char>) -> bool {
    t.len() > 0 && t != "YOUR_TOKEN_HERE"@
}

/// The key two entries must not share: the trimmed name, lower-cased.
pub open spec fn entry_key(name: Seq<char>) -> Seq<char> {
    lower_of(trim_of(name))
}

/// Whether named entries are usable: each has a name and a value once trimmed,
/// and no two names are the same letter case aside.
pub open spec fn entries_ok(e: Seq<(Seq<char>, Seq<char>)>) -> bool {
    &&& forall|i: int| 0 <= i < e.len() ==> trim_of((#[trigger] e[i]).0).len() > 0 && trim_of(e[i].1).len() > 0
    &&& forall|i: int, j: int|
        0 <= i < j < e.len() ==> entry_key((#[trigger] e[i]).0) != entry_key((#[trigger] e[j]).0)
}

/// The names and tokens of the notification accounts.
pub open spec fn account_entries(a: Seq<GithubAccountConfig>) -> Seq<(Seq<char>, Seq<char>)> {
    a.map_values(|x: GithubAccountConfig| (x.name@, x.token@))
}

/// The names and URLs of the calendar feeds.
pub open spec fn feed_entries(f: Seq<CalendarFeedConfig>) -> Seq<(Seq<char>, Seq<char>)> {
    f.map_values(|x: CalendarFeedConfig| (x.name@, x.ical_url@))
}

/// Whether a configuration can be used.
pub open spec fn config_ok(c: Config) -> bool {
    &&& token_ok(c.todoist_api_token@)
    &&& entries_ok(account_entries(c.github_accounts@))
    &&& entries_ok(feed_entries(c.calendar_feeds@))
}

/// Why named entries are not usable.
enum EntryProblem {
    EmptyName,
    EmptyValue(String),
    Duplicate(String),
}

fn check_entries(names: &Vec<String>, values: &Vec<String>) -> (r: Result<(), EntryProblem>)
    requires
        names@.len() == values@.len(),
    ensures
        r is Ok <==> entries_ok(
            names@.map_values(|s: String| s@).zip_with(values@.map_values(|s: String| s@)),
        ),
{
    let ghost e = names@.map_values(|s: String| s@).zip_with(values@.map_values(|s: String| s@));
    assert(e.len() == names@.len());
    let mut keys: Vec<Vec<char>> = Vec::new();
    for i in 0..names.len()
        invariant
            names@.len() == values@.len(),
            e == names@.map_values(|s: String| s@).zip_with(values@.map_values(|s: String| s@)),
            e.len() == names@.len(),
            keys@.len() == i,
            forall|k: int| 0 <= k < i ==> (#[trigger] keys@[k])@ == entry_key(e[k].0),
            forall|k: int| 0 <= k < i ==> trim_of((#[trigger] e[k]).0).len() > 0 && trim_of(e[k].1).len() > 0,
            forall|k: int, j: int| 0 <= k < j < i ==> entry_key((#[trigger] e[k]).0) != entry_key((#[trigger] e[j]).0),
    {
        assert(e[i as int] == (names@[i as int]@, values@[i as int]@));
        let name = trim(&chars_of(names[i].as_str()));
        if name.len() == 0 {
            return Err(EntryProblem::EmptyName);
        }
        let value = trim(&chars_of(values[i].as_str()));
        if value.len() == 0 {
            return Err(EntryProblem::EmptyValue(string_of(&name)));
        }
        let key = chars_of(to_lower(string_of(&name).as_str()).as_str());
        let mut j: usize = 0;
        while j < i
            invariant
                j <= i,
                i == keys@.len(),
                i < e.len(),
                names@.len() == values@.len(),
                e == names@.map_values(|s: String| s@).zip_with(values@.map_values(|s: String| s@)),
                e.len() == names@.len(),
                forall|k: int| 0 <= k < i ==> trim_of((#[trigger] e[k]).0).len() > 0 && trim_of(e[k].1).len() > 0,
                forall|k: int, l: int| 0 <= k < l < i ==> entry_key((#[trigger] e[k]).0) != entry_key((#[trigger] e[l]).0),
                key@ == entry_key(e[i as int].0),
                forall|k: int| 0 <= k < i ==> (#[trigger] keys@[k])@ == entry_key(e[k].0),
                forall|k: int| 0 <= k < j ==> entry_key((#[trigger] e[k]).0) != entry_key(e[i as int].0),
            decreases i - j,
        {
            if crate::text::same_chars(&keys[j], &key) {
                assert(entry_key(e[j as int].0) == entry_key(e[i as int].0));
                return Err(EntryProblem::Duplicate(string_of(&name)));
            }
            j = j + 1;
        }
        keys.push(key);
    }
    Ok(())
}

fn names_and_values_of_accounts(accts: &Vec<GithubAccountConfig>) -> (r: (Vec<String>, Vec<String>))
    ensures
        r.0@.len() == accts@.len() && r.1@.len() == accts@.len(),
        r.0@.map_values(|s: String| s@).zip_with(r.1@.map_values(|s: String| s@)) == account_entries(accts@),
{
    let mut names: Vec<String> = Vec::new();
    let mut values: Vec<String> = Vec::new();
    for i in 0..accts.len()
        invariant
            names@.len() == i && values@.len() == i,
            forall|k: int| 0 <= k < i ==> (#[trigger] names@[k])@ == accts@[k].name@,
            forall|k: int| 0 <= k < i ==> (#[trigger] values@[k])@ == accts@[k].token@,
    {
        let ghost before_names = names@;
        let ghost before_values = values@;
        let item = &accts[i];
        names.push(item.name.clone());
        values.push(item.token.clone());
        assert(names@ == before_names.push(item.name));
        assert(values@ == before_values.push(item.token));
    }
    assert(names@.map_values(|s: String| s@).zip_with(values@.map_values(|s: String| s@)) =~= account_entries(accts@));
    (names, values)
}

fn names_and_values_of_feeds(f: &Vec<CalendarFeedConfig>) -> (r: (Vec<String>, Vec<String>))
    ensures
        r.0@.len() == f@.len() && r.1@.len() == f@.len(),
        r.0@.map_values(|s: String| s@).zip_with(r.1@.map_values(|s: String| s@)) == feed_entries(f@),
{
    let mut names: Vec<String> = Vec::new();
    let mut values: Vec<String> = Vec::new();
    for i in 0..f.len()
        invariant
            names@.len() == i && values@.len() == i,
            forall|k: int| 0 <= k < i ==> (#[trigger] names@[k])@ == f@[k].name@,
            forall|k: int| 0 <= k < i ==> (#[trigger] values@[k])@ == f@[k].ical_url@,
    {
        let ghost before_names = names@;
        let ghost before_values = values@;
        let item = &f[i];
        names.push(item.name.clone());
        values.push(item.ical_url.clone());
        assert(names@ == before_names.push(item.name));
        assert(values@ == before_values.push(item.ical_url));
    }
    assert(names@.map_values(|s: String| s@).zip_with(values@.map_values(|s: String| s@)) =~= feed_entries(f@));
    (names, values)
}

impl Config {
    /// Checks that the configuration can be used: a real task-tracker token, and
    /// accounts and feeds that each have a name and a token or URL, with no name
    /// used twice, letter case aside.
    pub fn validate(&self) -> (r: Result<(), ConfigProblem>)
        ensures
            r is Ok <==> config_ok(*self),
            r matches Err(ConfigProblem::MissingToken) ==> !token_ok(self.todoist_api_token@),
            r matches Err(p) ==> !(p is MissingToken) ==> token_ok(self.todoist_api_token@),
    {
        let token = chars_of(self.todoist_api_token.as_str());
        if token.len() == 0 || crate::text::is_text(&token, "YOUR_TOKEN_HERE") {
            return Err(ConfigProblem::MissingToken);
        }
        let (names, values) = names_and_values_of_accounts(&self.github_accounts);
        match check_entries(&names, &values) {
            Ok(()) => {},
            Err(EntryProblem::EmptyName) => return Err(ConfigProblem::EmptyAccountName),
            Err(EntryProblem::EmptyValue(name)) => return Err(ConfigProblem::EmptyAccountToken { name }),
            Err(EntryProblem::Duplicate(name)) => return Err(ConfigProblem::DuplicateAccount { name }),
        }
        let (names, values) = names_and_values_of_feeds(&self.calendar_feeds);
        match check_entries(&names, &values) {
            Ok(()) => Ok(()),
            Err(EntryProblem::EmptyName) => Err(ConfigProblem::EmptyFeedName),
            Err(EntryProblem::EmptyValue(name)) => Err(ConfigProblem::EmptyFeedUrl { name }),
            Err(EntryProblem::Duplicate(name)) => Err(ConfigProblem::DuplicateFeed { name }),
        }
    }
}

/// What the core runs with: the configuration's credentials, names and URLs
/// trimmed, and its snooze choices read.
#[derive(Clone, Debug)]
pub struct CoreSetup {
    pub todoist_api_token: String,
    pub linear_api_token: Option<String>,
    pub github_accounts: Vec<GithubAccountConfig>,
    pub calendar_feeds: Vec<CalendarFeedConfig>,
    pub snooze_durations: Vec<SnoozeDuration>,
}

/// The issue tracker's token, trimmed, when there is one that is not blank.
pub open spec fn linear_token_of(t: Option<String>) -> Option<Seq<char>> {
    match t {
        Some(x) => if trim_of(x@).len() > 0 {
            Some(trim_of(x@))
        } else {
            None
        },
        None => None,
    }
}

/// Builds what the core runs with from a configuration. A snooze label that
/// cannot be read is a configuration error.
pub fn core_setup(config: Config) -> (r: Result<CoreSetup, TodoTrayError>)
    ensures
        r is Ok <==> all_labels_read(snooze_labels(config.snooze_durations@)),
        r matches Err(e) ==> e is Config,
        r matches Ok(s) ==> {
            &&& s.todoist_api_token == config.todoist_api_token
            &&& match s.linear_api_token {
                Some(t) => linear_token_of(config.linear_api_token) == Some(t@),
                None => linear_token_of(config.linear_api_token) is None,
            }
            &&& s.github_accounts@.len() == config.github_accounts@.len()
            &&& (forall|k: int|
                0 <= k < s.github_accounts@.len() ==> (#[trigger] s.github_accounts@[k]).name@ == trim_of(
                    config.github_accounts@[k].name@,
                ) && s.github_accounts@[k].token@ == trim_of(config.github_accounts@[k].token@))
            &&& s.calendar_feeds@.len() == config.calendar_feeds@.len()
            &&& (forall|k: int|
                0 <= k < s.calendar_feeds@.len() ==> (#[trigger] s.calendar_feeds@[k]).name@ == trim_of(
                    config.calendar_feeds@[k].name@,
                ) && s.calendar_feeds@[k].ical_url@ == trim_of(config.calendar_feeds@[k].ical_url@))
            &&& choices_of(s.snooze_durations@, snooze_labels(config.snooze_durations@))
        },
{
    let linear_api_token = match &config.linear_api_token {
        Some(t) => {
            let v = trim(&chars_of(t.as_str()));
            if v.len() > 0 {
                Some(string_of(&v))
            } else {
                None
            }
        },
        None => None,
    };
    let mut github_accounts: Vec<GithubAccountConfig> = Vec::new();
    for i in 0..config.github_accounts.len()
        invariant
            github_accounts@.len() == i,
            forall|k: int|
                0 <= k < i ==> (#[trigger] github_accounts@[k]).name@ == trim_of(config.github_accounts@[k].name@)
                    && github_accounts@[k].token@ == trim_of(config.github_accounts@[k].token@),
    {
        let a = &config.github_accounts[i];
        github_accounts.push(
            GithubAccountConfig {
                name: string_of(&trim(&chars_of(a.name.as_str()))),
                token: string_of(&trim(&chars_of(a.token.as_str()))),
            },
        );
    }
    let mut calendar_feeds: Vec<CalendarFeedConfig> = Vec::new();
    for i in 0..config.calendar_feeds.len()
        invariant
            calendar_feeds@.len() == i,
            forall|k: int|
                0 <= k < i ==> (#[trigger] calendar_feeds@[k]).name@ == trim_of(config.calendar_feeds@[k].name@)
                    && calendar_feeds@[k].ical_url@ == trim_of(config.calendar_feeds@[k].ical_url@),
    {
        let f = &config.calendar_feeds[i];
        calendar_feeds.push(
            CalendarFeedConfig {
                name: string_of(&trim(&chars_of(f.name.as_str()))),
                ical_url: string_of(&trim(&chars_of(f.ical_url.as_str()))),
            },
        );
    }
    let snooze_durations = snooze_durations_from_labels(config.snooze_durations)?;
    Ok(
        CoreSetup {
            todoist_api_token: config.todoist_api_token,
            linear_api_token,
            github_accounts,
            calendar_feeds,
            snooze_durations,
        },
    )
}

/// How to bring the login item in line with the configuration: `Some(true)` to
/// turn it on, `Some(false)` to turn it off, nothing when it already agrees.
pub fn autostart_change(wanted: bool, enabled: bool) -> (r: Option<bool>)
    ensures
        r == (if wanted && !enabled {
            Some(true)
        } else if !wanted && enabled {
            Some(false)
        } else {
            None::<bool>
        }),
{
    if wanted && !enabled {
        Some(true)
    } else if !wanted && enabled {
        Some(false)
    } else {
        None
    }
}

} // verus!
