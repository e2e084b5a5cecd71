//! The application state and the rules by which refreshes and commands change it.
use crate::calendar::CalendarEventSection;
use crate::github::GithubNotificationSection;
use crate::task::{
    buckets_of, group_tasks, in_overdue, in_today, in_tomorrow, sorted, tie_class, TaskList,
    TaskSource, TodoTask,
};
use crate::text::{chars_of, integer_of, lower_of, parse_i64, slice, string_of, to_lower, trim, trim_of};
use crate::time::{printable, show_wall, wall_text};
use vstd::prelude::*;

verus! {

/// What can go wrong, by kind, with a message for people.
#[derive(Clone, Debug)]
pub enum TodoTrayError {
    /// The configuration cannot be used.
    Config { message: String },
    /// A source could not be reached or answered with a failure.
    Network { message: String },
    /// A command named a task, account or thread that is not there.
    NotFound { message: String },
    /// Anything else: a read-only task, an unknown snooze label, a bad stored date.
    Unexpected { message: String },
}

impl TodoTrayError {
    /// The error as a sentence: its kind, then its message.
    pub fn describe(&self) -> (r: String)
        ensures
            r@ == match self {
                TodoTrayError::Config { message } => "Configuration error: "@ + message@,
                TodoTrayError::Network { message } => "Network error: "@ + message@,
                TodoTrayError::NotFound { message } => "Not found: "@ + message@,
                TodoTrayError::Unexpected { message } => "Unexpected error: "@ + message@,
            },
    {
        let (mut r, message) = match self {
            TodoTrayError::Config { message } => ("Configuration error: ".to_string(), message),
            TodoTrayError::Network { message } => ("Network error: ".to_string(), message),
            TodoTrayError::NotFound { message } => ("Not found: ".to_string(), message),
            TodoTrayError::Unexpected { message } => ("Unexpected error: ".to_string(), message),
        };
        r.append(message.as_str());
        r
    }
}

/// Everything the menu shows.
#[derive(Clone, Debug)]
pub struct AppState {
    pub overdue_count: u32,
    pub today_count: u32,
    pub tomorrow_count: u32,
    pub in_progress_count: u32,
    pub github_notification_count: u32,
    pub calendar_event_count: u32,
    pub tasks: TaskList,
    pub github_notifications: Vec<GithubNotificationSection>,
    pub calendar_events: Vec<CalendarEventSection>,
    pub snooze_durations: Vec<String>,
    pub is_loading: bool,
    pub error_message: Option<String>,
    pub autostart_enabled: bool,
}

/// Receives every change of the state, as a copy, and the outcome of commands.
pub trait EventHandler {
    /// The state has changed.
    fn on_state_changed(&self, state: AppState);

    /// A task was completed.
    fn on_task_completed(&self, task_name: String);

    /// Something failed.
    fn on_error(&self, error: String);
}

/// A count as shown: the length, or the largest `u32` where it does not fit.
pub open spec fn shown_count(n: int) -> u32 {
    if n <= u32::MAX {
        n as u32
    } else {
        u32::MAX
    }
}

/// A count as shown.
pub fn count_of(n: usize) -> (r: u32)
    ensures
        r == shown_count(n as int),
{
    if n <= 4294967295 {
        n as u32
    } else {
        4294967295
    }
}

impl AppState {
    /// The state before the first refresh: loading, with nothing fetched yet.
    pub fn initial(snooze_durations: Vec<String>, autostart_enabled: bool) -> (r: AppState)
        ensures
            r.is_loading,
            r.error_message is None,
            r.autostart_enabled == autostart_enabled,
            r.snooze_durations == snooze_durations,
            r.tasks.overdue@.len() == 0 && r.tasks.today@.len() == 0,
            r.tasks.tomorrow@.len() == 0 && r.tasks.in_progress@.len() == 0,
            r.github_notifications@.len() == 0,
            r.calendar_events@.len() == 0,
            r.overdue_count == 0 && r.today_count == 0 && r.tomorrow_count == 0,
            r.in_progress_count == 0 && r.github_notification_count == 0,
            r.calendar_event_count == 0,
    {
        AppState {
            overdue_count: 0,
            today_count: 0,
            tomorrow_count: 0,
            in_progress_count: 0,
            github_notification_count: 0,
            calendar_event_count: 0,
            tasks: TaskList::new(),
            github_notifications: Vec::new(),
            calendar_events: Vec::new(),
            snooze_durations,
            is_loading: true,
            error_message: None,
            autostart_enabled,
        }
    }
}

/// Puts freshly grouped tasks in the state, with their counts, and clears the
/// loading flag and any error.
pub fn apply_grouped_tasks_to_state(state: &mut AppState, grouped: TaskList)
    ensures
        final(state).tasks == grouped,
        final(state).overdue_count == shown_count(grouped.overdue@.len() as int),
        final(state).today_count == shown_count(grouped.today@.len() as int),
        final(state).tomorrow_count == shown_count(grouped.tomorrow@.len() as int),
        final(state).in_progress_count == shown_count(grouped.in_progress@.len() as int),
        !final(state).is_loading,
        final(state).error_message is None,
        final(state).github_notifications == old(state).github_notifications,
        final(state).github_notification_count == old(state).github_notification_count,
        final(state).calendar_events == old(state).calendar_events,
        final(state).calendar_event_count == old(state).calendar_event_count,
        final(state).snooze_durations == old(state).snooze_durations,
        final(state).autostart_enabled == old(state).autostart_enabled,
{
    state.overdue_count = count_of(grouped.overdue.len());
    state.today_count = count_of(grouped.today.len());
    state.tomorrow_count = count_of(grouped.tomorrow.len());
    state.in_progress_count = count_of(grouped.in_progress.len());
    state.tasks = grouped;
    state.is_loading = false;
    state.error_message = None;
}

/// The number of notifications over all sections.
pub open spec fn notification_total(s: Seq<GithubNotificationSection>) -> int
    decreases s.len(),
{
    if s.len() == 0 {
        0
    } else {
        notification_total(s.drop_last()) + s.last().notifications@.len()
    }
}

/// The number of events over all sections.
pub open spec fn event_total(s: Seq<CalendarEventSection>) -> int
    decreases s.len(),
{
    if s.len() == 0 {
        0
    } else {
        event_total(s.drop_last()) + s.last().events@.len()
    }
}

/// The number of notifications over all sections, as shown.
pub fn count_notifications(s: &Vec<GithubNotificationSection>) -> (r: u32)
    ensures
        r == shown_count(notification_total(s@)),
{
    let mut total: u64 = 0;
    let mut capped = false;
    for i in 0..s.len()
        invariant
            !capped ==> total == notification_total(s@.take(i as int)) && total <= u32::MAX,
            capped ==> notification_total(s@.take(i as int)) > u32::MAX,
    {
        assert(s@.take(i + 1).drop_last() =~= s@.take(i as int));
        proof {
            lemma_notification_total_nonneg(s@.take(i as int));
        }
        if !capped {
            let n = s[i].notifications.len() as u64;
            if n > 4294967295 - total {
                capped = true;
            } else {
                total = total + n;
            }
        }
    }
    assert(s@.take(s.len() as int) =~= s@);
    if capped {
        4294967295
    } else {
        total as u32
    }
}

proof fn lemma_notification_total_nonneg(s: Seq<GithubNotificationSection>)
    ensures
        notification_total(s) >= 0,
    decreases s.len(),
{
    if s.len() > 0 {
        lemma_notification_total_nonneg(s.drop_last());
    }
}

proof fn lemma_event_total_nonneg(s: Seq<CalendarEventSection>)
    ensures
        event_total(s) >= 0,
    decreases s.len(),
{
    if s.len() > 0 {
        lemma_event_total_nonneg(s.drop_last());
    }
}

/// The number of events over all sections, as shown.
pub fn count_events(s: &Vec<CalendarEventSection>) -> (r: u32)
    ensures
        r == shown_count(event_total(s@)),
{
    let mut total: u64 = 0;
    let mut capped = false;
    for i in 0..s.len()
        invariant
            !capped ==> total == event_total(s@.take(i as int)) && total <= u32::MAX,
            capped ==> event_total(s@.take(i as int)) > u32::MAX,
    {
        assert(s@.take(i + 1).drop_last() =~= s@.take(i as int));
        proof {
            lemma_event_total_nonneg(s@.take(i as int));
        }
        if !capped {
            let n = s[i].events.len() as u64;
            if n > 4294967295 - total {
                capped = true;
            } else {
                total = total + n;
            }
        }
    }
    assert(s@.take(s.len() as int) =~= s@);
    if capped {
        4294967295
    } else {
        total as u32
    }
}

/// The sections of `s` whose account is not `name`, in order.
pub open spec fn without(s: Seq<GithubNotificationSection>, name: Seq<char>) -> Seq<GithubNotificationSection>
    decreases s.len(),
{
    if s.len() == 0 {
        s
    } else if s[0].account_name@ == name {
        without(s.skip(1), name)
    } else {
        seq![s[0]] + without(s.skip(1), name)
    }
}

/// Where the first section of account `name` stands in `s`; `s.len()` when none does.
pub open spec fn position(s: Seq<GithubNotificationSection>, name: Seq<char>) -> int
    decreases s.len(),
{
    if s.len() == 0 {
        0
    } else if s[0].account_name@ == name {
        0
    } else {
        1 + position(s.skip(1), name)
    }
}

/// The sections after one account's refresh: that account's old sections leave,
/// and the new section takes the place of the first of them, or goes last where
/// the account had none; an empty new section is left out.
pub open spec fn merged(
    existing: Seq<GithubNotificationSection>,
    updated: GithubNotificationSection,
) -> Seq<GithubNotificationSection> {
    let name = updated.account_name@;
    let kept = without(existing, name);
    if updated.notifications@.len() == 0 {
        kept
    } else {
        kept.insert(position(existing, name), updated)
    }
}

/// Whether no section of `s` belongs to account `name`.
pub open spec fn lacks(s: Seq<GithubNotificationSection>, name: Seq<char>) -> bool {
    forall|i: int| 0 <= i < s.len() ==> (#[trigger] s[i]).account_name@ != name
}

proof fn lemma_without(s: Seq<GithubNotificationSection>, name: Seq<char>)
    ensures
        lacks(without(s, name), name),
        0 <= position(s, name) <= without(s, name).len(),
        position(s, name) <= s.len(),
        position(s, name) < s.len() ==> s[position(s, name)].account_name@ == name,
        without(s, name).take(position(s, name)) == s.take(position(s, name)),
        lacks(s, name) ==> without(s, name) == s && position(s, name) == s.len(),
    decreases s.len(),
{
    if s.len() > 0 {
        lemma_without(s.skip(1), name);
        let w = without(s.skip(1), name);
        if s[0].account_name@ == name {
            assert(s.take(0) =~= Seq::<GithubNotificationSection>::empty());
            assert(without(s, name).take(0) =~= Seq::<GithubNotificationSection>::empty());
        } else {
            assert(lacks(seq![s[0]] + w, name)) by {
                assert forall|i: int| 0 <= i < (seq![s[0]] + w).len() implies (#[trigger] (seq![s[0]]
                    + w)[i]).account_name@ != name by {
                    if i > 0 {
                        assert((seq![s[0]] + w)[i] == w[i - 1]);
                    }
                }
            }
            let p = position(s.skip(1), name);
            assert((seq![s[0]] + w).take(p + 1) =~= seq![s[0]] + w.take(p));
            assert(s.take(p + 1) =~= seq![s[0]] + s.skip(1).take(p));
            if lacks(s, name) {
                assert(lacks(s.skip(1), name)) by {
                    assert forall|i: int| 0 <= i < s.skip(1).len() implies (#[trigger] s.skip(1)[i]).account_name@
                        != name by {
                        assert(s.skip(1)[i] == s[i + 1]);
                    }
                }
                assert(seq![s[0]] + s.skip(1) =~= s);
            }
        }
    } else {
        assert(s.take(0) =~= s);
    }
}

proof fn lemma_lacks_insert(k: Seq<GithubNotificationSection>, i: int, u: GithubNotificationSection)
    requires
        lacks(k, u.account_name@),
        0 <= i <= k.len(),
    ensures
        without(k.insert(i, u), u.account_name@) == k,
        position(k.insert(i, u), u.account_name@) == i,
    decreases k.len(),
{
    let name = u.account_name@;
    let m = k.insert(i, u);
    if i == 0 {
        assert(m[0] == u);
        assert(m.skip(1) =~= k);
        lemma_without(k, name);
    } else {
        assert(m[0] == k[0]);
        assert(k[0].account_name@ != name);
        assert(lacks(k.skip(1), name)) by {
            assert forall|j: int| 0 <= j < k.skip(1).len() implies (#[trigger] k.skip(1)[j]).account_name@
                != name by {
                assert(k.skip(1)[j] == k[j + 1]);
            }
        }
        assert(m.skip(1) =~= k.skip(1).insert(i - 1, u));
        lemma_lacks_insert(k.skip(1), i - 1, u);
        assert(seq![k[0]] + k.skip(1) =~= k);
    }
}

/// Refreshing one account twice with the same section gives what refreshing it once does.
pub proof fn lemma_merge_idempotent(
    existing: Seq<GithubNotificationSection>,
    updated: GithubNotificationSection,
)
    ensures
        merged(merged(existing, updated), updated) == merged(existing, updated),
{
    let name = updated.account_name@;
    let kept = without(existing, name);
    lemma_without(existing, name);
    if updated.notifications@.len() == 0 {
        lemma_without(kept, name);
    } else {
        lemma_lacks_insert(kept, position(existing, name), updated);
    }
}

/// Merges one account's fresh section into the sections shown.
pub fn merge_single_section(
    existing: Vec<GithubNotificationSection>,
    updated: GithubNotificationSection,
) -> (r: Vec<GithubNotificationSection>)
    ensures
        r@ == merged(existing@, updated),
{
    let ghost all = existing@;
    let ghost name = updated.account_name@;
    let mut rest = existing;
    let n = rest.len();
    let mut pending: Vec<GithubNotificationSection> = Vec::new();
    while rest.len() > 0
        invariant
            rest@.len() + pending@.len() == n,
            n == all.len(),
            rest@ == all.take(rest@.len() as int),
            forall|k: int| 0 <= k < pending@.len() ==> #[trigger] pending@[k] == all[n - 1 - k],
        decreases rest.len(),
    {
        let s = rest.pop().unwrap();
        pending.push(s);
    }
    let mut kept: Vec<GithubNotificationSection> = Vec::new();
    let mut first: Option<usize> = None;
    let mut i: usize = 0;
    proof {
        lemma_without(all, name);
        assert(all.skip(0) =~= all);
    }
    while pending.len() > 0
        invariant
            i + pending@.len() == n,
            n == all.len(),
            forall|k: int| 0 <= k < pending@.len() ==> #[trigger] pending@[k] == all[n - 1 - k],
            name == updated.account_name@,
            kept@ + without(all.skip(i as int), name) == without(all, name),
            first is None ==> position(all, name) == i + position(all.skip(i as int), name) && kept@.len()
                == i,
            first matches Some(p) ==> p == position(all, name),
        decreases pending.len(),
    {
        let s = pending.pop().unwrap();
        let ghost tail = all.skip(i as int);
        assert(s == tail[0]);
        assert(tail.skip(1) =~= all.skip(i + 1));
        if s.account_name == updated.account_name {
            if first.is_none() {
                first = Some(kept.len());
            }
        } else {
            let ghost before = kept@;
            kept.push(s);
            assert(kept@ + without(all.skip(i + 1), name) =~= before + without(tail, name));
        }
        i = i + 1;
    }
    assert(all.skip(n as int) =~= Seq::<GithubNotificationSection>::empty());
    assert(kept@ =~= without(all, name));
    if updated.notifications.len() > 0 {
        let at = match first {
            Some(p) => p,
            None => kept.len(),
        };
        kept.insert(at, updated);
    }
    kept
}

/// Whether a section has something to show.
pub open spec fn has_notifications(s: GithubNotificationSection) -> bool {
    s.notifications@.len() > 0
}

/// Whether a section has something to show.
pub open spec fn has_events(s: CalendarEventSection) -> bool {
    s.events@.len() > 0
}

fn nonempty_notification_sections(v: Vec<GithubNotificationSection>) -> (r: Vec<GithubNotificationSection>)
    ensures
        r@ == v@.filter(|s: GithubNotificationSection| has_notifications(s)),
{
    let ghost all = v@;
    let mut rest = v;
    let n = rest.len();
    let mut pending: Vec<GithubNotificationSection> = Vec::new();
    while rest.len() > 0
        invariant
            rest@.len() + pending@.len() == n,
            n == all.len(),
            rest@ == all.take(rest@.len() as int),
            forall|k: int| 0 <= k < pending@.len() ==> #[trigger] pending@[k] == all[n - 1 - k],
        decreases rest.len(),
    {
        let s = rest.pop().unwrap();
        pending.push(s);
    }
    let mut out: Vec<GithubNotificationSection> = Vec::new();
    let mut i: usize = 0;
    proof {
        broadcast use vstd::seq_lib::group_filter_ensures;
        assert(all.take(0) =~= Seq::<GithubNotificationSection>::empty());
        assert(all.take(0).filter(|s: GithubNotificationSection| has_notifications(s)).len() == 0);
        assert(out@ =~= all.take(0).filter(|s: GithubNotificationSection| has_notifications(s)));
    }
    while pending.len() > 0
        invariant
            i + pending@.len() == n,
            n == all.len(),
            forall|k: int| 0 <= k < pending@.len() ==> #[trigger] pending@[k] == all[n - 1 - k],
            out@ == all.take(i as int).filter(|s: GithubNotificationSection| has_notifications(s)),
        decreases pending.len(),
    {
        let s = pending.pop().unwrap();
        proof {
            assert(s == all[i as int]);
            assert(all.take(i + 1) == all.take(i as int).push(all[i as int]));
            all.take(i as int).lemma_filter_push(all[i as int], |s: GithubNotificationSection| has_notifications(s));
        }
        if s.notifications.len() > 0 {
            out.push(s);
        }
        i = i + 1;
    }
    assert(all.take(n as int) =~= all);
    out
}

fn nonempty_event_sections(v: Vec<CalendarEventSection>) -> (r: Vec<CalendarEventSection>)
    ensures
        r@ == v@.filter(|s: CalendarEventSection| has_events(s)),
{
    let ghost all = v@;
    let mut rest = v;
    let n = rest.len();
    let mut pending: Vec<CalendarEventSection> = Vec::new();
    while rest.len() > 0
        invariant
            rest@.len() + pending@.len() == n,
            n == all.len(),
            rest@ == all.take(rest@.len() as int),
            forall|k: int| 0 <= k < pending@.len() ==> #[trigger] pending@[k] == all[n - 1 - k],
        decreases rest.len(),
    {
        let s = rest.pop().unwrap();
        pending.push(s);
    }
    let mut out: Vec<CalendarEventSection> = Vec::new();
    let mut i: usize = 0;
    proof {
        broadcast use vstd::seq_lib::group_filter_ensures;
        assert(all.take(0) =~= Seq::<CalendarEventSection>::empty());
        assert(all.take(0).filter(|s: CalendarEventSection| has_events(s)).len() == 0);
        assert(out@ =~= all.take(0).filter(|s: CalendarEventSection| has_events(s)));
    }
    while pending.len() > 0
        invariant
            i + pending@.len() == n,
            n == all.len(),
            forall|k: int| 0 <= k < pending@.len() ==> #[trigger] pending@[k] == all[n - 1 - k],
            out@ == all.take(i as int).filter(|s: CalendarEventSection| has_events(s)),
        decreases pending.len(),
    {
        let s = pending.pop().unwrap();
        proof {
            assert(s == all[i as int]);
            assert(all.take(i + 1) == all.take(i as int).push(all[i as int]));
            all.take(i as int).lemma_filter_push(all[i as int], |s: CalendarEventSection| has_events(s));
        }
        if s.events.len() > 0 {
            out.push(s);
        }
        i = i + 1;
    }
    assert(all.take(n as int) =~= all);
    out
}

/// Commits a full refresh: all four buckets rebuilt from the fetched tasks and
/// issues, and the notification and calendar sections replaced by the fetched
/// ones that are not empty, with every count.
pub fn apply_full_refresh(
    state: &mut AppState,
    tasks: Vec<TodoTask>,
    github: Vec<GithubNotificationSection>,
    calendar: Vec<CalendarEventSection>,
)
    ensures
        exists|s: Seq<TodoTask>|
            sorted(s) && s.to_multiset() == tasks@.to_multiset() && buckets_of(final(state).tasks, s) && (
            forall|x: TodoTask| #[trigger] tie_class(s, x) == tie_class(tasks@, x)),
        final(state).github_notifications@ == github@.filter(|s: GithubNotificationSection| has_notifications(s)),
        final(state).calendar_events@ == calendar@.filter(|s: CalendarEventSection| has_events(s)),
        final(state).overdue_count == shown_count(final(state).tasks.overdue@.len() as int),
        final(state).today_count == shown_count(final(state).tasks.today@.len() as int),
        final(state).tomorrow_count == shown_count(final(state).tasks.tomorrow@.len() as int),
        final(state).in_progress_count == shown_count(final(state).tasks.in_progress@.len() as int),
        final(state).github_notification_count == shown_count(notification_total(final(state).github_notifications@)),
        final(state).calendar_event_count == shown_count(event_total(final(state).calendar_events@)),
        !final(state).is_loading,
        final(state).error_message is None,
        final(state).snooze_durations == old(state).snooze_durations,
        final(state).autostart_enabled == old(state).autostart_enabled,
{
    let grouped = group_tasks(tasks);
    apply_grouped_tasks_to_state(state, grouped);
    let github = nonempty_notification_sections(github);
    let calendar = nonempty_event_sections(calendar);
    state.github_notification_count = count_notifications(&github);
    state.calendar_event_count = count_events(&calendar);
    state.github_notifications = github;
    state.calendar_events = calendar;
}

/// Commits a refresh of the task tracker alone: its fresh tasks fill the overdue,
/// today and tomorrow buckets as `group_tasks` deals them, and the issues already
/// shown stay as they are until the next full refresh.
pub fn apply_task_refresh(state: &mut AppState, fresh: Vec<TodoTask>)
    ensures
        exists|s: Seq<TodoTask>|
            sorted(s) && s.to_multiset() == fresh@.to_multiset() && (forall|x: TodoTask|
                #[trigger] tie_class(s, x) == tie_class(fresh@, x))
                && final(state).tasks.overdue@ == s.filter(|t: TodoTask| in_overdue(t))
                && final(state).tasks.today@ == s.filter(|t: TodoTask| in_today(t))
                && final(state).tasks.tomorrow@ == s.filter(|t: TodoTask| in_tomorrow(t)),
        final(state).tasks.in_progress == old(state).tasks.in_progress,
        final(state).overdue_count == shown_count(final(state).tasks.overdue@.len() as int),
        final(state).today_count == shown_count(final(state).tasks.today@.len() as int),
        final(state).tomorrow_count == shown_count(final(state).tasks.tomorrow@.len() as int),
        final(state).in_progress_count == shown_count(final(state).tasks.in_progress@.len() as int),
        !final(state).is_loading,
        final(state).error_message is None,
        final(state).github_notifications == old(state).github_notifications,
        final(state).github_notification_count == old(state).github_notification_count,
        final(state).calendar_events == old(state).calendar_events,
        final(state).calendar_event_count == old(state).calendar_event_count,
        final(state).snooze_durations == old(state).snooze_durations,
        final(state).autostart_enabled == old(state).autostart_enabled,
{
    let mut grouped = group_tasks(fresh);
    let mut cached: Vec<TodoTask> = Vec::new();
    std::mem::swap(&mut cached, &mut state.tasks.in_progress);
    grouped.in_progress = cached;
    apply_grouped_tasks_to_state(state, grouped);
}

/// Commits a refresh of one notification account: its section is merged in place.
pub fn apply_account_refresh(state: &mut AppState, section: GithubNotificationSection)
    ensures
        final(state).github_notifications@ == merged(old(state).github_notifications@, section),
        final(state).github_notification_count == shown_count(notification_total(final(state).github_notifications@)),
        !final(state).is_loading,
        final(state).error_message is None,
        final(state).tasks == old(state).tasks,
        final(state).overdue_count == old(state).overdue_count,
        final(state).today_count == old(state).today_count,
        final(state).tomorrow_count == old(state).tomorrow_count,
        final(state).in_progress_count == old(state).in_progress_count,
        final(state).calendar_events == old(state).calendar_events,
        final(state).calendar_event_count == old(state).calendar_event_count,
        final(state).snooze_durations == old(state).snooze_durations,
        final(state).autostart_enabled == old(state).autostart_enabled,
{
    let mut existing: Vec<GithubNotificationSection> = Vec::new();
    std::mem::swap(&mut existing, &mut state.github_notifications);
    let sections = merge_single_section(existing, section);
    state.github_notification_count = count_notifications(&sections);
    state.github_notifications = sections;
    state.is_loading = false;
    state.error_message = None;
}

/// Records a failed refresh: the message is shown and everything fetched before stays.
pub fn record_refresh_failure(state: &mut AppState, message: String)
    ensures
        final(state).error_message == Some(message),
        !final(state).is_loading,
        final(state).tasks == old(state).tasks,
        final(state).overdue_count == old(state).overdue_count,
        final(state).today_count == old(state).today_count,
        final(state).tomorrow_count == old(state).tomorrow_count,
        final(state).in_progress_count == old(state).in_progress_count,
        final(state).github_notifications == old(state).github_notifications,
        final(state).github_notification_count == old(state).github_notification_count,
        final(state).calendar_events == old(state).calendar_events,
        final(state).calendar_event_count == old(state).calendar_event_count,
        final(state).snooze_durations == old(state).snooze_durations,
        final(state).autostart_enabled == old(state).autostart_enabled,
{
    state.error_message = Some(message);
    state.is_loading = false;
}

/// Records whether the app now starts at login.
pub fn apply_autostart(state: &mut AppState, enabled: bool)
    ensures
        final(state).autostart_enabled == enabled,
        final(state).tasks == old(state).tasks,
        final(state).overdue_count == old(state).overdue_count,
        final(state).today_count == old(state).today_count,
        final(state).tomorrow_count == old(state).tomorrow_count,
        final(state).in_progress_count == old(state).in_progress_count,
        final(state).github_notifications == old(state).github_notifications,
        final(state).github_notification_count == old(state).github_notification_count,
        final(state).calendar_events == old(state).calendar_events,
        final(state).calendar_event_count == old(state).calendar_event_count,
        final(state).snooze_durations == old(state).snooze_durations,
        final(state).is_loading == old(state).is_loading,
        final(state).error_message == old(state).error_message,
{
    state.autostart_enabled = enabled;
}

/// The tasks of the list in menu order: overdue, today, tomorrow, in progress.
pub open spec fn listed(l: TaskList) -> Seq<TodoTask> {
    l.overdue@ + l.today@ + l.tomorrow@ + l.in_progress@
}

/// The first task of `s` with identifier `id`.
pub open spec fn first_with_id(s: Seq<TodoTask>, id: Seq<char>) -> Option<TodoTask>
    decreases s.len(),
{
    if s.len() == 0 {
        None
    } else if s[0].id@ == id {
        Some(s[0])
    } else {
        first_with_id(s.skip(1), id)
    }
}

fn find_in(s: &Vec<TodoTask>, id: &String) -> (r: Option<usize>)
    ensures
        r matches Some(i) ==> i < s@.len() && first_with_id(s@, id@) == Some(s@[i as int]),
        r is None ==> first_with_id(s@, id@) is None,
{
    let mut i: usize = 0;
    assert(s@.skip(0) =~= s@);
    while i < s.len()
        invariant
            i <= s.len(),
            first_with_id(s@, id@) == first_with_id(s@.skip(i as int), id@),
        decreases s.len() - i,
    {
        assert(s@.skip(i as int)[0] == s@[i as int]);
        assert(s@.skip(i as int).skip(1) =~= s@.skip(i + 1));
        if s[i].id == *id {
            return Some(i);
        }
        i = i + 1;
    }
    None
}

proof fn lemma_first_concat(a: Seq<TodoTask>, b: Seq<TodoTask>, id: Seq<char>)
    ensures
        first_with_id(a + b, id) == match first_with_id(a, id) {
            Some(t) => Some(t),
            None => first_with_id(b, id),
        },
    decreases a.len(),
{
    if a.len() > 0 {
        assert((a + b).skip(1) =~= a.skip(1) + b);
        assert((a + b)[0] == a[0]);
        lemma_first_concat(a.skip(1), b, id);
    } else {
        assert(a + b =~= b);
    }
}

/// The task with identifier `id` among those listed, in menu order.
pub fn find_task(list: &TaskList, id: &String) -> (r: Option<TodoTask>)
    ensures
        r == first_with_id(listed(*list), id@),
{
    proof {
        lemma_first_concat(list.overdue@ + list.today@ + list.tomorrow@, list.in_progress@, id@);
        lemma_first_concat(list.overdue@ + list.today@, list.tomorrow@, id@);
        lemma_first_concat(list.overdue@, list.today@, id@);
    }
    if let Some(i) = find_in(&list.overdue, id) {
        return Some(list.overdue[i].duplicate());
    }
    if let Some(i) = find_in(&list.today, id) {
        return Some(list.today[i].duplicate());
    }
    if let Some(i) = find_in(&list.tomorrow, id) {
        return Some(list.tomorrow[i].duplicate());
    }
    if let Some(i) = find_in(&list.in_progress, id) {
        return Some(list.in_progress[i].duplicate());
    }
    None
}

/// Decides a completion command before anything is sent: the task must be listed,
/// and completable. On success, the name of the task to complete.
pub fn plan_complete(state: &AppState, task_id: &String) -> (r: Result<String, TodoTrayError>)
    ensures
        first_with_id(listed(state.tasks), task_id@) is None ==> r matches Err(TodoTrayError::NotFound { .. }),
        first_with_id(listed(state.tasks), task_id@) matches Some(t) ==> (if t.can_complete {
            r matches Ok(name) && name@ == t.content@
        } else {
            r matches Err(TodoTrayError::Unexpected { .. })
        }),
{
    match find_task(&state.tasks, task_id) {
        None => {
            let mut message = "Task not found: ".to_string();
            message.append(task_id.as_str());
            Err(TodoTrayError::NotFound { message })
        },
        Some(t) => if t.can_complete {
            Ok(t.content)
        } else {
            Err(
                TodoTrayError::Unexpected {
                    message: "The task is read-only and cannot be completed from Todo Tray.".to_string(),
                },
            )
        },
    }
}

/// Why a snooze label cannot be used.
#[derive(Clone, Copy, Debug, PartialEq, Eq, Structural)]
pub enum SnoozeLabelError {
    /// Not a number followed by a unit.
    Malformed,
    /// The number is zero or negative.
    NotPositive,
    /// The unit is not `m`, `h` or `d`.
    UnknownUnit,
    /// The duration is longer than a time span can be.
    TooLong,
}

/// The longest snooze, in seconds: what fits in a span of `i64` milliseconds.
pub const MAX_SNOOZE_SECS: i64 = 9_223_372_036_854_775;

/// Seconds in one unit of a snooze label.
pub open spec fn unit_seconds(c: char) -> int {
    if c == 'm' {
        60
    } else if c == 'h' {
        3600
    } else if c == 'd' {
        86400
    } else {
        0
    }
}

/// What a snooze label means, once trimmed and lower-cased: a positive whole
/// number and a unit, `m`, `h` or `d`.
pub open spec fn lowered_snooze_seconds(v: Seq<char>) -> Result<int, SnoozeLabelError> {
    if v.len() < 2 {
        Err(SnoozeLabelError::Malformed)
    } else {
        match integer_of(v.drop_last()) {
            None => Err(SnoozeLabelError::Malformed),
            Some(n) => if n < i64::MIN || n > i64::MAX {
                Err(SnoozeLabelError::Malformed)
            } else if n <= 0 {
                Err(SnoozeLabelError::NotPositive)
            } else if unit_seconds(v.last()) == 0 {
                Err(SnoozeLabelError::UnknownUnit)
            } else if n * unit_seconds(v.last()) > MAX_SNOOZE_SECS {
                Err(SnoozeLabelError::TooLong)
            } else {
                Ok(n * unit_seconds(v.last()))
            },
        }
    }
}

/// What a snooze label means: read after trimming and lower-casing it.
pub open spec fn snooze_seconds(label: Seq<char>) -> Result<int, SnoozeLabelError> {
    lowered_snooze_seconds(lower_of(trim_of(label)))
}

/// Reads a trimmed, lower-cased snooze label such as `30m`, `2h` or `1d` into seconds.
pub fn snooze_seconds_of_lowered(v: &Vec<char>) -> (r: Result<i64, SnoozeLabelError>)
    ensures
        r matches Ok(n) ==> lowered_snooze_seconds(v@) == Ok::<int, SnoozeLabelError>(n as int),
        r matches Err(e) ==> lowered_snooze_seconds(v@) == Err::<int, SnoozeLabelError>(e),
{
    if v.len() < 2 {
        return Err(SnoozeLabelError::Malformed);
    }
    let number = slice(v, 0, v.len() - 1);
    assert(number@ =~= v@.drop_last());
    let amount = match parse_i64(&number) {
        Some(n) => n,
        None => return Err(SnoozeLabelError::Malformed),
    };
    if amount <= 0 {
        return Err(SnoozeLabelError::NotPositive);
    }
    let unit = v[v.len() - 1];
    let per: i64 = if unit == 'm' {
        60
    } else if unit == 'h' {
        3600
    } else if unit == 'd' {
        86400
    } else {
        return Err(SnoozeLabelError::UnknownUnit);
    };
    if amount > MAX_SNOOZE_SECS / per {
        assert(amount * per > MAX_SNOOZE_SECS) by (nonlinear_arith)
            requires amount > MAX_SNOOZE_SECS / per, per > 0;
        return Err(SnoozeLabelError::TooLong);
    }
    assert(amount * per <= MAX_SNOOZE_SECS) by (nonlinear_arith)
        requires amount <= MAX_SNOOZE_SECS / per, per > 0;
    Ok(amount * per)
}

/// Reads a snooze label such as `30m`, `2h` or `1d` into seconds.
pub fn parse_snooze_duration(input: &str) -> (r: Result<i64, SnoozeLabelError>)
    ensures
        r matches Ok(n) ==> snooze_seconds(input@) == Ok::<int, SnoozeLabelError>(n as int),
        r matches Err(e) ==> snooze_seconds(input@) == Err::<int, SnoozeLabelError>(e),
{
    let trimmed = string_of(&trim(&chars_of(input)));
    let v = chars_of(to_lower(trimmed.as_str()).as_str());
    snooze_seconds_of_lowered(&v)
}

/// A snooze choice: its label and its length in seconds.
#[derive(Clone, Debug)]
pub struct SnoozeDuration {
    pub label: String,
    pub seconds: i64,
}

/// The snooze labels in force: those configured, or the default ones where none are.
pub open spec fn snooze_labels(raw: Seq<String>) -> Seq<Seq<char>> {
    if raw.len() == 0 {
        seq!["30m"@, "1d"@]
    } else {
        raw.map_values(|s: String| s@)
    }
}

/// Whether every label can be read.
pub open spec fn all_labels_read(labels: Seq<Seq<char>>) -> bool {
    forall|k: int| 0 <= k < labels.len() ==> (#[trigger] snooze_seconds(labels[k])) is Ok
}

/// Whether `v` holds the choices that `labels` describe, in order.
pub open spec fn choices_of(v: Seq<SnoozeDuration>, labels: Seq<Seq<char>>) -> bool {
    &&& v.len() == labels.len()
    &&& forall|k: int|
        0 <= k < v.len() ==> (#[trigger] v[k]).label@ == trim_of(labels[k]) && snooze_seconds(labels[k])
            == Ok::<int, SnoozeLabelError>(v[k].seconds as int)
}

/// The snooze choices of the configuration: the labels given, or the default ones
/// where none are, each trimmed and read. A label that cannot be read is a
/// configuration error.
pub fn snooze_durations_from_labels(raw: Vec<String>) -> (r: Result<Vec<SnoozeDuration>, TodoTrayError>)
    ensures
        r is Ok <==> all_labels_read(snooze_labels(raw@)),
        r matches Ok(v) ==> choices_of(v@, snooze_labels(raw@)),
        r matches Err(e) ==> e is Config,
{
    let ghost raw_view = raw@;
    let ghost labels = snooze_labels(raw@);
    let labels_exec = if raw.len() == 0 {
        crate::config::default_snooze_durations()
    } else {
        raw
    };
    assert(labels_exec@.map_values(|s: String| s@) =~= labels);
    let mut out: Vec<SnoozeDuration> = Vec::new();
    for i in 0..labels_exec.len()
        invariant
            labels_exec@.map_values(|s: String| s@) == labels,
            raw_view == raw@,
            labels == snooze_labels(raw_view),
            out@.len() == i,
            forall|k: int| 0 <= k < i ==> (#[trigger] snooze_seconds(labels[k])) is Ok,
            forall|k: int|
                0 <= k < out@.len() ==> (#[trigger] out@[k]).label@ == trim_of(labels[k]) && snooze_seconds(labels[k])
                    == Ok::<int, SnoozeLabelError>(out@[k].seconds as int),
    {
        let raw_label = &labels_exec[i];
        assert(labels[i as int] == raw_label@);
        let label = string_of(&trim(&chars_of(raw_label.as_str())));
        match parse_snooze_duration(raw_label.as_str()) {
            Ok(seconds) => {
                out.push(SnoozeDuration { label, seconds });
            },
            Err(_) => {
                assert(!(snooze_seconds(labels[i as int]) is Ok));
                assert(!all_labels_read(labels));
                let mut message = "Invalid snooze duration '".to_string();
                message.append(raw_label.as_str());
                message.append("'");
                return Err(TodoTrayError::Config { message });
            },
        }
    }
    assert(all_labels_read(labels));
    assert(choices_of(out@, labels));
    Ok(out)
}

/// What a snooze command sends: the new due instant, and how the task tracker writes it.
#[derive(Clone, Debug)]
pub struct SnoozePlan {
    pub new_due: i64,
    pub due_text: String,
}

/// The first task of `s` with identifier `id` from the task tracker.
pub open spec fn first_todoist(s: Seq<TodoTask>, id: Seq<char>) -> Option<TodoTask>
    decreases s.len(),
{
    if s.len() == 0 {
        None
    } else if s[0].id@ == id && s[0].source == TaskSource::Todoist {
        Some(s[0])
    } else {
        first_todoist(s.skip(1), id)
    }
}

/// The first snooze choice with label `label`.
pub open spec fn snooze_choice(d: Seq<SnoozeDuration>, label: Seq<char>) -> Option<SnoozeDuration>
    decreases d.len(),
{
    if d.len() == 0 {
        None
    } else if d[0].label@ == label {
        Some(d[0])
    } else {
        snooze_choice(d.skip(1), label)
    }
}

fn find_todoist_in(s: &Vec<TodoTask>, id: &String) -> (r: Option<usize>)
    ensures
        r matches Some(i) ==> i < s@.len() && first_todoist(s@, id@) == Some(s@[i as int]),
        r is None ==> first_todoist(s@, id@) is None,
{
    let mut i: usize = 0;
    assert(s@.skip(0) =~= s@);
    while i < s.len()
        invariant
            i <= s.len(),
            first_todoist(s@, id@) == first_todoist(s@.skip(i as int), id@),
        decreases s.len() - i,
    {
        assert(s@.skip(i as int)[0] == s@[i as int]);
        assert(s@.skip(i as int).skip(1) =~= s@.skip(i + 1));
        if s[i].id == *id && s[i].source == TaskSource::Todoist {
            return Some(i);
        }
        i = i + 1;
    }
    None
}

proof fn lemma_first_todoist_concat(a: Seq<TodoTask>, b: Seq<TodoTask>, id: Seq<char>)
    ensures
        first_todoist(a + b, id) == match first_todoist(a, id) {
            Some(t) => Some(t),
            None => first_todoist(b, id),
        },
    decreases a.len(),
{
    if a.len() > 0 {
        assert((a + b).skip(1) =~= a.skip(1) + b);
        assert((a + b)[0] == a[0]);
        lemma_first_todoist_concat(a.skip(1), b, id);
    } else {
        assert(a + b =~= b);
    }
}

fn find_choice(d: &Vec<SnoozeDuration>, label: &String) -> (r: Option<i64>)
    ensures
        r matches Some(n) ==> snooze_choice(d@, label@) matches Some(c) && c.seconds == n,
        r is None ==> snooze_choice(d@, label@) is None,
{
    let mut i: usize = 0;
    assert(d@.skip(0) =~= d@);
    while i < d.len()
        invariant
            i <= d.len(),
            snooze_choice(d@, label@) == snooze_choice(d@.skip(i as int), label@),
        decreases d.len() - i,
    {
        assert(d@.skip(i as int)[0] == d@[i as int]);
        assert(d@.skip(i as int).skip(1) =~= d@.skip(i + 1));
        if d[i].label == *label {
            return Some(d[i].seconds);
        }
        i = i + 1;
    }
    None
}

/// Decides a snooze command before anything is sent. The label must be one of the
/// choices; the task must be a task-tracker task due overdue, today or tomorrow;
/// its new due instant is the old one moved on by the chosen length.
pub fn plan_snooze(
    state: &AppState,
    durations: &Vec<SnoozeDuration>,
    task_id: &String,
    label: &String,
) -> (r: Result<SnoozePlan, TodoTrayError>)
    requires
        forall|k: int| 0 <= k < durations@.len() ==> 0 < (#[trigger] durations@[k]).seconds <= MAX_SNOOZE_SECS,
    ensures
        snooze_choice(durations@, label@) is None ==> r matches Err(TodoTrayError::Unexpected { .. }),
        snooze_choice(durations@, label@) matches Some(c) ==> {
            let found = first_todoist(state.tasks.overdue@ + state.tasks.today@ + state.tasks.tomorrow@, task_id@);
            match found {
                Some(t) => match t.due {
                    Some(d) => {
                        let due = d.utc + c.seconds;
                        if printable(d.utc as int) && printable(due) {
                            r matches Ok(p) && p.new_due == due && p.due_text@ == wall_text(due as i64, "%Y-%m-%dT%H:%M:%SZ"@)
                        } else {
                            r matches Err(TodoTrayError::Unexpected { .. })
                        }
                    },
                    None => r matches Err(TodoTrayError::NotFound { .. }),
                },
                None => r matches Err(TodoTrayError::NotFound { .. }),
            }
        },
{
    let seconds = match find_choice(durations, label) {
        Some(n) => n,
        None => {
            let mut message = "Unknown snooze duration: ".to_string();
            message.append(label.as_str());
            return Err(TodoTrayError::Unexpected { message });
        },
    };
    proof {
        lemma_snooze_choice_in(durations@, label@);
        lemma_first_todoist_concat(state.tasks.overdue@ + state.tasks.today@, state.tasks.tomorrow@, task_id@);
        lemma_first_todoist_concat(state.tasks.overdue@, state.tasks.today@, task_id@);
    }
    let found = if let Some(i) = find_todoist_in(&state.tasks.overdue, task_id) {
        Some(state.tasks.overdue[i].due)
    } else if let Some(i) = find_todoist_in(&state.tasks.today, task_id) {
        Some(state.tasks.today[i].due)
    } else if let Some(i) = find_todoist_in(&state.tasks.tomorrow, task_id) {
        Some(state.tasks.tomorrow[i].due)
    } else {
        None
    };
    let due = match found {
        Some(Some(d)) => d,
        _ => {
            return Err(
                TodoTrayError::NotFound { message: "Todoist task with due date not found".to_string() },
            );
        },
    };
    if !(-8_000_000_000_000 <= due.utc && due.utc <= 8_000_000_000_000) {
        return Err(
            TodoTrayError::Unexpected { message: "Invalid due datetime on task".to_string() },
        );
    }
    let new_due = due.utc + seconds;
    if !(-8_000_000_000_000 <= new_due && new_due <= 8_000_000_000_000) {
        return Err(
            TodoTrayError::Unexpected { message: "Invalid due datetime on task".to_string() },
        );
    }
    let due_text = show_wall(new_due, "%Y-%m-%dT%H:%M:%SZ");
    Ok(SnoozePlan { new_due, due_text })
}

proof fn lemma_snooze_choice_in(d: Seq<SnoozeDuration>, label: Seq<char>)
    requires
        forall|k: int| 0 <= k < d.len() ==> 0 < (#[trigger] d[k]).seconds <= MAX_SNOOZE_SECS,
    ensures
        snooze_choice(d, label) matches Some(c) ==> 0 < c.seconds <= MAX_SNOOZE_SECS,
    decreases d.len(),
{
    if d.len() > 0 && d[0].label@ != label {
        assert forall|k: int| 0 <= k < d.skip(1).len() implies 0 < (#[trigger] d.skip(1)[k]).seconds
            <= MAX_SNOOZE_SECS by {
            assert(d.skip(1)[k] == d[k + 1]);
        }
        lemma_snooze_choice_in(d.skip(1), label);
    }
}

/// Where account `name` stands among the configured accounts.
pub fn find_account(names: &Vec<String>, name: &String) -> (r: Result<usize, TodoTrayError>)
    ensures
        r matches Ok(i) ==> i < names@.len() && names@[i as int]@ == name@ && forall|k: int|
            0 <= k < i ==> (#[trigger] names@[k])@ != name@,
        r is Err ==> (forall|k: int| 0 <= k < names@.len() ==> (#[trigger] names@[k])@ != name@),
        r matches Err(e) ==> e is NotFound,
{
    let mut i: usize = 0;
    while i < names.len()
        invariant
            i <= names.len(),
            forall|k: int| 0 <= k < i ==> (#[trigger] names@[k])@ != name@,
        decreases names.len() - i,
    {
        if names[i] == *name {
            return Ok(i);
        }
        i = i + 1;
    }
    let mut message = "GitHub account not found: ".to_string();
    message.append(name.as_str());
    Err(TodoTrayError::NotFound { message })
}

} // verus!
