//! Code-review notifications: what the notification API hands out and what is shown.
use crate::text::{
    chars_of, decimal, has_prefix, is_text, push_chars, push_decimal, slice, split, split_on,
    starts_with, string_of, to_upper, upper_of, views,
};
use crate::time::{clock_shown, local_instant, parse_rfc3339, rfc3339_parse, show_wall, Clock, LocalInstant};
use vstd::prelude::*;

verus! {

/// How many notifications one page asks for.
pub const PAGE_SIZE: usize = 50;

/// How many pages one fetch reads at most.
pub const MAX_PAGES: usize = 10;

/// One unread notification thread, as shown.
#[derive(Clone, Debug)]
pub struct GithubNotification {
    pub thread_id: String,
    pub title: String,
    pub repository: String,
    pub reason: String,
    pub web_url: String,
    pub updated_at: Option<LocalInstant>,
    pub display_time: String,
}

/// The unread notifications of one account.
#[derive(Clone, Debug)]
pub struct GithubNotificationSection {
    pub account_name: String,
    pub notifications: Vec<GithubNotification>,
}

/// A notification thread as the API hands it out.
#[derive(Clone, Debug)]
pub struct GithubThread {
    pub id: String,
    pub unread: bool,
    pub reason: String,
    pub updated_at: String,
    pub subject: GithubSubject,
    pub repository: GithubRepository,
}

/// What a notification thread is about.
#[derive(Clone, Debug)]
pub struct GithubSubject {
    pub title: String,
    pub url: Option<String>,
}

/// The repository of a notification thread.
#[derive(Clone, Debug)]
pub struct GithubRepository {
    pub full_name: String,
}

/// The web page of an API subject URL `https://api.github.com/repos/{owner}/{repo}/{kind}/{n}`:
/// the issue for `issues`, the pull request for `pulls`, the releases page for
/// `releases`; nothing for any other kind.
pub open spec fn web_url_of(url: Seq<char>) -> Option<Seq<char>> {
    let prefix = "https://api.github.com/"@;
    if !has_prefix(url, prefix) {
        None
    } else {
        let parts = split_on(url.skip(prefix.len() as int), '/');
        if parts.len() < 5 || parts[0] != "repos"@ {
            None
        } else if parts[3] == "issues"@ {
            Some("https://github.com/"@ + parts[1] + "/"@ + parts[2] + "/issues/"@ + parts[4])
        } else if parts[3] == "pulls"@ {
            Some("https://github.com/"@ + parts[1] + "/"@ + parts[2] + "/pull/"@ + parts[4])
        } else if parts[3] == "releases"@ {
            Some("https://github.com/"@ + parts[1] + "/"@ + parts[2] + "/releases"@)
        } else {
            None
        }
    }
}

/// The web page of an API subject URL, for the kinds that have one.
pub fn api_subject_url_to_web_url(url: &str) -> (r: Option<String>)
    ensures
        r matches Some(w) ==> web_url_of(url@) == Some(w@),
        r is None ==> web_url_of(url@) is None,
{
    let v = chars_of(url);
    if !starts_with(&v, "https://api.github.com/") {
        return None;
    }
    let prefix_len = chars_of("https://api.github.com/").len();
    let path = slice(&v, prefix_len, v.len());
    assert(path@ =~= url@.skip(prefix_len as int));
    let parts = split(&path, '/');
    let ghost p = views(parts@);
    if parts.len() < 5 || !is_text(&parts[0], "repos") {
        assert(parts.len() >= 5 ==> p[0] == parts@[0]@);
        return None;
    }
    assert(p[1] == parts@[1]@ && p[2] == parts@[2]@ && p[3] == parts@[3]@ && p[4] == parts@[4]@);
    let kind = &parts[3];
    let mut w = "https://github.com/".to_string();
    push_chars(&mut w, &parts[1]);
    w.append("/");
    push_chars(&mut w, &parts[2]);
    if is_text(kind, "issues") {
        w.append("/issues/");
        push_chars(&mut w, &parts[4]);
        Some(w)
    } else if is_text(kind, "pulls") {
        w.append("/pull/");
        push_chars(&mut w, &parts[4]);
        Some(w)
    } else if is_text(kind, "releases") {
        w.append("/releases");
        Some(w)
    } else {
        None
    }
}

/// Where a notification opens: the subject's web page where there is one, else
/// the inbox filtered to the thread.
pub open spec fn thread_url(id: Seq<char>, subject_url: Option<Seq<char>>) -> Seq<char> {
    match subject_url {
        Some(u) => match web_url_of(u) {
            Some(w) => w,
            None => "https://github.com/notifications?query=thread%3A"@ + id,
        },
        None => "https://github.com/notifications?query=thread%3A"@ + id,
    }
}

/// The view of an optional string.
pub open spec fn opt_view(s: Option<String>) -> Option<Seq<char>> {
    match s {
        Some(x) => Some(x@),
        None => None,
    }
}

/// Where a notification thread opens.
pub fn build_web_url(thread: &GithubThread) -> (r: String)
    ensures
        r@ == thread_url(thread.id@, opt_view(thread.subject.url)),
{
    if let Some(url) = &thread.subject.url {
        if let Some(w) = api_subject_url_to_web_url(url.as_str()) {
            return w;
        }
    }
    let mut r = "https://github.com/notifications?query=thread%3A".to_string();
    r.append(thread.id.as_str());
    r
}

/// A notification reason with its first letter capitalised; `notification` when empty.
pub open spec fn humanized(reason: Seq<char>) -> Seq<char> {
    if reason.len() == 0 {
        "notification"@
    } else {
        upper_of(seq![reason[0]]) + reason.skip(1)
    }
}

/// A notification reason with its first letter capitalised.
pub fn humanize_reason(reason: &str) -> (r: String)
    ensures
        r@ == humanized(reason@),
{
    let v = chars_of(reason);
    if v.len() == 0 {
        return "notification".to_string();
    }
    let first = string_of(&slice(&v, 0, 1));
    let mut r = to_upper(first.as_str());
    push_chars(&mut r, &slice(&v, 1, v.len()));
    assert(v@.subrange(0, 1) =~= seq![v@[0]]);
    assert(v@.subrange(1, v@.len() as int) =~= v@.skip(1));
    r
}

/// How long ago a notification was updated: whole days, hours or minutes, else
/// the local time of day; `recent` without a time.
pub open spec fn relative_text(updated: Option<LocalInstant>, clock: Clock) -> Seq<char> {
    match updated {
        None => "recent"@,
        Some(u) => {
            let diff = clock.now - u.utc;
            if diff >= 86400 {
                decimal((diff / 86400) as nat) + "d ago"@
            } else if diff >= 3600 {
                decimal((diff / 3600) as nat) + "h ago"@
            } else if diff >= 60 {
                decimal((diff / 60) as nat) + "m ago"@
            } else {
                clock_shown(u.wall as int)
            }
        },
    }
}

/// How long ago a notification was updated.
pub fn format_relative_time(updated: Option<LocalInstant>, clock: Clock) -> (r: String)
    requires
        clock.wf(),
        updated matches Some(u) ==> u.wf(),
    ensures
        r@ == relative_text(updated, clock),
{
    match updated {
        None => "recent".to_string(),
        Some(u) => {
            let diff = clock.now - u.utc;
            let mut r = String::new();
            if diff >= 86400 {
                push_decimal(&mut r, (diff / 86400) as u64);
                r.append("d ago");
            } else if diff >= 3600 {
                push_decimal(&mut r, (diff / 3600) as u64);
                r.append("h ago");
            } else if diff >= 60 {
                push_decimal(&mut r, (diff / 60) as u64);
                r.append("m ago");
            } else {
                r = show_wall(u.wall, "%H:%M");
            }
            r
        },
    }
}

/// Whether `n` is what a thread shows as at `clock`, its update time as read.
pub open spec fn is_notification_of(n: GithubNotification, t: GithubThread, clock: Clock) -> bool {
    &&& n.thread_id@ == t.id@
    &&& n.title@ == t.subject.title@
    &&& n.repository@ == t.repository.full_name@
    &&& n.reason@ == humanized(t.reason@)
    &&& n.web_url@ == thread_url(t.id@, opt_view(t.subject.url))
    &&& n.display_time@ == relative_text(n.updated_at, clock)
    &&& (n.updated_at matches Some(u) ==> u.wf() && rfc3339_parse(t.updated_at@) == Some(u.utc))
    &&& (rfc3339_parse(t.updated_at@) is None ==> n.updated_at is None)
}

/// What a notification thread shows as at `clock`.
pub fn notification_from_thread(thread: GithubThread, clock: Clock) -> (r: GithubNotification)
    requires
        clock.wf(),
    ensures
        is_notification_of(r, thread, clock),
{
    let updated = match parse_rfc3339(thread.updated_at.as_str()) {
        Some(u) => local_instant(u),
        None => None,
    };
    let web_url = build_web_url(&thread);
    let reason = humanize_reason(thread.reason.as_str());
    let display_time = format_relative_time(updated, clock);
    GithubNotification {
        thread_id: thread.id,
        title: thread.subject.title,
        repository: thread.repository.full_name,
        reason,
        web_url,
        updated_at: updated,
        display_time,
    }
}

/// Whether a thread is unread.
pub open spec fn is_unread(t: GithubThread) -> bool {
    t.unread
}

/// The unread threads of one page, as shown at `clock`, in page order.
pub fn unread_notifications(page: Vec<GithubThread>, clock: Clock) -> (r: Vec<GithubNotification>)
    requires
        clock.wf(),
    ensures
        r@.len() == page@.filter(|t: GithubThread| is_unread(t)).len(),
        forall|k: int|
            0 <= k < r@.len() ==> is_notification_of(
                #[trigger] r@[k],
                page@.filter(|t: GithubThread| is_unread(t))[k],
                clock,
            ),
{
    let ghost all = page@;
    let mut page = page;
    let mut rest: Vec<GithubThread> = Vec::new();
    proof {
        broadcast use vstd::seq_lib::group_filter_ensures;
        assert(all.take(0) =~= Seq::<GithubThread>::empty());
        assert(all.take(0).filter(|t: GithubThread| is_unread(t)).len() == 0);
    }
    let mut out: Vec<GithubNotification> = Vec::new();
    let mut i: usize = 0;
    let n = page.len();
    // Take the threads from the back, then read them front to back.
    while page.len() > 0
        invariant
            page@.len() + rest@.len() == n,
            n == all.len(),
            page@ == all.take(page@.len() as int),
            forall|k: int| 0 <= k < rest@.len() ==> #[trigger] rest@[k] == all[n - 1 - k],
        decreases page.len(),
    {
        let t = page.pop().unwrap();
        rest.push(t);
    }
    while rest.len() > 0
        invariant
            i + rest@.len() == n,
            n == all.len(),
            forall|k: int| 0 <= k < rest@.len() ==> #[trigger] rest@[k] == all[n - 1 - k],
            out@.len() == all.take(i as int).filter(|t: GithubThread| is_unread(t)).len(),
            forall|k: int|
                0 <= k < out@.len() ==> is_notification_of(
                    #[trigger] out@[k],
                    all.take(i as int).filter(|t: GithubThread| is_unread(t))[k],
                    clock,
                ),
            clock.wf(),
        decreases rest.len(),
    {
        let t = rest.pop().unwrap();
        proof {
            assert(t == all[i as int]);
            assert(all.take(i + 1) == all.take(i as int).push(all[i as int]));
            all.take(i as int).lemma_filter_push(all[i as int], |t: GithubThread| is_unread(t));
        }
        if t.unread {
            let note = notification_from_thread(t, clock);
            out.push(note);
        }
        i = i + 1;
    }
    assert(all.take(n as int) =~= all);
    out
}

/// After reading page `page` (counted from 1) with `count` threads, whether to
/// read the next: only after a full page, and never past the last allowed page.
pub fn fetch_next_page(page: usize, count: usize) -> (r: bool)
    ensures
        r == (count >= PAGE_SIZE && page < MAX_PAGES),
{
    count >= PAGE_SIZE && page < MAX_PAGES
}

} // verus!
