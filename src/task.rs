//! Tasks from every source, their date flags, their order and their buckets.
use crate::text::{chars_of, decimal, ends_with, has_suffix, index_from, find_char, push_decimal};
use crate::time::{
    chrono_span, datetime_parse, date_parse, local_instant, local_reading, parse_date,
    parse_datetime, shown, show_wall, clock_shown, Clock, LocalInstant, DAY_SECS,
};
use vstd::prelude::*;

verus! {

/// Where a task comes from.
#[derive(Clone, Copy, Debug, PartialEq, Eq, Structural)]
pub enum TaskSource {
    /// The task tracker: its tasks can be completed and snoozed from here.
    Todoist,
    /// The issue tracker: its issues are shown read-only.
    Linear,
}

/// One task or issue, with the date flags computed when it was fetched.
#[derive(Clone, Debug)]
pub struct TodoTask {
    pub id: String,
    pub content: String,
    pub source: TaskSource,
    pub can_complete: bool,
    pub due: Option<LocalInstant>,
    pub is_overdue: bool,
    pub is_today: bool,
    pub is_tomorrow: bool,
    pub display_time: String,
}

/// A task as the task tracker's API hands it out.
#[derive(Clone, Debug)]
pub struct TodoistTask {
    pub id: String,
    pub content: String,
    pub due: Option<TodoistDue>,
}

/// A due date as the task tracker's API writes it: `YYYY-MM-DD`,
/// `YYYY-MM-DDTHH:MM:SS` (local) or `YYYY-MM-DDTHH:MM:SSZ` (UTC).
#[derive(Clone, Debug)]
pub struct TodoistDue {
    pub date: String,
}

/// The four buckets of the task list, each in task order.
#[derive(Clone, Debug)]
pub struct TaskList {
    pub overdue: Vec<TodoTask>,
    pub today: Vec<TodoTask>,
    pub tomorrow: Vec<TodoTask>,
    pub in_progress: Vec<TodoTask>,
}

impl TodoTask {
    /// A copy of the task.
    pub fn duplicate(&self) -> (r: TodoTask)
        ensures
            r == *self,
    {
        TodoTask {
            id: self.id.clone(),
            content: self.content.clone(),
            source: self.source,
            can_complete: self.can_complete,
            due: self.due,
            is_overdue: self.is_overdue,
            is_today: self.is_today,
            is_tomorrow: self.is_tomorrow,
            display_time: self.display_time.clone(),
        }
    }

    /// The instant the task is due, if it has one.
    pub open spec fn due_utc(self) -> Option<i64> {
        match self.due {
            Some(d) => Some(d.utc),
            None => None,
        }
    }
}

impl TaskList {
    pub fn new() -> (r: TaskList)
        ensures
            r.overdue@.len() == 0,
            r.today@.len() == 0,
            r.tomorrow@.len() == 0,
            r.in_progress@.len() == 0,
    {
        TaskList { overdue: Vec::new(), today: Vec::new(), tomorrow: Vec::new(), in_progress: Vec::new() }
    }
}

/// Overdue, due today, due tomorrow: what a due instant says against a clock.
pub open spec fn flags_of(due: Option<LocalInstant>, clock: Clock) -> (bool, bool, bool) {
    match due {
        None => (false, false, false),
        Some(d) => (d.utc < clock.now, d.day() == clock.today, d.day() == clock.today + 1),
    }
}

/// The date flags of a due instant: overdue when it has passed, today or
/// tomorrow by the local calendar day it falls on. No due instant, no flag.
pub fn date_flags(due: Option<LocalInstant>, clock: Clock) -> (r: (bool, bool, bool))
    requires
        clock.wf(),
        due matches Some(d) ==> d.wf(),
    ensures
        r == flags_of(due, clock),
        due is None ==> !r.0 && !r.1 && !r.2,
{
    match due {
        None => (false, false, false),
        Some(d) => {
            let day = crate::time::day_number(d.wall);
            (d.utc < clock.now, day == clock.today, day == clock.today + 1)
        },
    }
}

/// An item without a due instant is neither overdue, nor due today, nor due tomorrow.
pub proof fn lemma_undated_unflagged(
    t: TodoTask,
    id: Seq<char>,
    content: Seq<char>,
    source: TaskSource,
    clock: Clock,
)
    requires
        is_item(t, id, content, source, None, clock),
    ensures
        !t.is_overdue && !t.is_today && !t.is_tomorrow,
{
}

/// How long ago an instant `diff` seconds back was: whole days, else whole hours.
pub open spec fn ago_text(diff: int) -> Seq<char> {
    if diff >= 86400 {
        decimal((diff / 86400) as nat) + "d ago"@
    } else if diff >= 3600 {
        decimal((diff / 3600) as nat) + "h ago"@
    } else {
        "overdue"@
    }
}

/// What a task-tracker task shows beside its name.
pub open spec fn todoist_display(due: Option<LocalInstant>, overdue: bool, clock: Clock) -> Seq<char> {
    match due {
        None => "no due date"@,
        Some(d) => if overdue {
            ago_text(clock.now - d.utc)
        } else {
            clock_shown(d.wall as int)
        },
    }
}

/// What an issue-tracker issue shows beside its name.
pub open spec fn linear_display(due: Option<LocalInstant>) -> Seq<char> {
    match due {
        None => "In progress"@,
        Some(d) => shown(d.wall as int, "%b %-d"@),
    }
}

/// Whether `t` is the item that a source makes of these fields at `clock`.
pub open spec fn is_item(
    t: TodoTask,
    id: Seq<char>,
    content: Seq<char>,
    source: TaskSource,
    due: Option<LocalInstant>,
    clock: Clock,
) -> bool {
    let f = flags_of(due, clock);
    &&& t.id@ == id
    &&& t.content@ == content
    &&& t.source == source
    &&& t.can_complete == (source == TaskSource::Todoist)
    &&& t.due == due
    &&& t.is_overdue == f.0
    &&& t.is_today == f.1
    &&& t.is_tomorrow == f.2
    &&& t.display_time@ == (if source == TaskSource::Todoist {
        todoist_display(due, f.0, clock)
    } else {
        linear_display(due)
    })
}

/// Writes how long ago an instant `diff` seconds back was.
fn ago(diff: i64) -> (r: String)
    requires
        0 <= diff,
    ensures
        r@ == ago_text(diff as int),
{
    let mut r = String::new();
    if diff >= 86400 {
        push_decimal(&mut r, (diff / 86400) as u64);
        r.append("d ago");
    } else if diff >= 3600 {
        push_decimal(&mut r, (diff / 3600) as u64);
        r.append("h ago");
    } else {
        r = "overdue".to_string();
    }
    r
}

/// Builds the item that a source makes of these fields at `clock`.
pub fn make_item(
    id: String,
    content: String,
    source: TaskSource,
    due: Option<LocalInstant>,
    clock: Clock,
) -> (r: TodoTask)
    requires
        clock.wf(),
        due matches Some(d) ==> d.wf(),
    ensures
        is_item(r, id@, content@, source, due, clock),
{
    let (is_overdue, is_today, is_tomorrow) = date_flags(due, clock);
    let display_time = match source {
        TaskSource::Todoist => match due {
            None => "no due date".to_string(),
            Some(d) => if is_overdue {
                ago(clock.now - d.utc)
            } else {
                show_wall(d.wall, "%H:%M")
            },
        },
        TaskSource::Linear => match due {
            None => "In progress".to_string(),
            Some(d) => show_wall(d.wall, "%b %-d"),
        },
    };
    TodoTask {
        id,
        content,
        can_complete: source == TaskSource::Todoist,
        source,
        due,
        is_overdue,
        is_today,
        is_tomorrow,
        display_time,
    }
}

/// How a due date text reads: an instant, a local wall-clock reading, or nothing.
pub enum DueReading {
    Instant(i64),
    Wall(i64),
    Unreadable,
}

/// How a due date text reads. A trailing `Z` makes it UTC; a `T` makes it a
/// local date and time; anything else is a local date, due at 23:59:59.
pub open spec fn due_reading(s: Seq<char>) -> DueReading {
    if has_suffix(s, "Z"@) {
        match datetime_parse(s, "%Y-%m-%dT%H:%M:%SZ"@) {
            Some(u) => DueReading::Instant(u),
            None => DueReading::Unreadable,
        }
    } else if find_char(s, 'T') < s.len() {
        match datetime_parse(s, "%Y-%m-%dT%H:%M:%S"@) {
            Some(w) => DueReading::Wall(w),
            None => DueReading::Unreadable,
        }
    } else {
        match date_parse(s, "%Y-%m-%d"@) {
            Some(w) => DueReading::Wall((w + DAY_SECS - 1) as i64),
            None => DueReading::Unreadable,
        }
    }
}

/// The instant a due date text names. A local reading maps to the first instant
/// the local clock shows it, and to none where the clock skips it.
pub fn parse_due_instant(s: &str) -> (r: Option<i64>)
    ensures
        due_reading(s@) is Unreadable ==> r is None,
        due_reading(s@) matches DueReading::Instant(u) ==> r == Some(u),
        due_reading(s@) matches DueReading::Wall(w) ==> (r matches Some(u) ==> w - DAY_SECS < u
            < w + DAY_SECS),
        r matches Some(u) ==> chrono_span(u as int),
{
    let v = chars_of(s);
    if ends_with(&v, "Z") {
        parse_datetime(s, "%Y-%m-%dT%H:%M:%SZ")
    } else if index_from(&v, 'T', 0) < v.len() {
        match parse_datetime(s, "%Y-%m-%dT%H:%M:%S") {
            Some(w) => instant_of(local_reading(w)),
            None => None,
        }
    } else {
        match parse_date(s, "%Y-%m-%d") {
            Some(w) => instant_of(local_reading(w + DAY_SECS - 1)),
            None => None,
        }
    }
}

fn instant_of(li: Option<LocalInstant>) -> (r: Option<i64>)
    ensures
        r == (match li {
            Some(d) => Some(d.utc),
            None => None::<i64>,
        }),
{
    match li {
        Some(d) => Some(d.utc),
        None => None,
    }
}

/// The due instant of a due date text, with the local clock's reading at it.
pub fn read_due(s: &str) -> (r: Option<LocalInstant>)
    ensures
        r matches Some(d) ==> d.wf() && parse_due_instant_spec(s@, d),
        due_reading(s@) is Unreadable ==> r is None,
{
    let v = chars_of(s);
    if ends_with(&v, "Z") {
        match parse_datetime(s, "%Y-%m-%dT%H:%M:%SZ") {
            Some(u) => local_instant(u),
            None => None,
        }
    } else if index_from(&v, 'T', 0) < v.len() {
        match parse_datetime(s, "%Y-%m-%dT%H:%M:%S") {
            Some(w) => local_reading(w),
            None => None,
        }
    } else {
        match parse_date(s, "%Y-%m-%d") {
            Some(w) => local_reading(w + DAY_SECS - 1),
            None => None,
        }
    }
}

/// Whether `d` is what a due date text names: exactly its instant, or an instant
/// at which the local clock shows its reading.
pub open spec fn parse_due_instant_spec(s: Seq<char>, d: LocalInstant) -> bool {
    match due_reading(s) {
        DueReading::Instant(x) => d.utc == x,
        DueReading::Wall(w) => d.wall == w,
        DueReading::Unreadable => false,
    }
}

impl TodoTask {
    /// The item for a task-tracker task: completable, with its due date read as
    /// `parse_due_instant` reads it and its flags computed at `clock`.
    pub fn from_todoist(task: TodoistTask, clock: Clock) -> (r: TodoTask)
        requires
            clock.wf(),
        ensures
            is_item(r, task.id@, task.content@, TaskSource::Todoist, r.due, clock),
            task.due is None ==> r.due is None,
            task.due matches Some(d) ==> (r.due matches Some(li) ==> parse_due_instant_spec(d.date@, li)),
            task.due matches Some(d) ==> (due_reading(d.date@) is Unreadable ==> r.due is None),
    {
        let due = match &task.due {
            Some(d) => read_due(d.date.as_str()),
            None => None,
        };
        make_item(task.id, task.content, TaskSource::Todoist, due, clock)
    }

    /// The item for an issue-tracker issue: read-only, named `[identifier] title`.
    pub fn from_linear(
        id: String,
        identifier: String,
        title: String,
        due_date: Option<String>,
        clock: Clock,
    ) -> (r: TodoTask)
        requires
            clock.wf(),
        ensures
            is_item(r, id@, "["@ + identifier@ + "] "@ + title@, TaskSource::Linear, r.due, clock),
            due_date is None ==> r.due is None,
            due_date matches Some(d) ==> (r.due matches Some(li) ==> parse_due_instant_spec(d@, li)),
            due_date matches Some(d) ==> (due_reading(d@) is Unreadable ==> r.due is None),
    {
        let due = match &due_date {
            Some(d) => read_due(d.as_str()),
            None => None,
        };
        let mut content = "[".to_string();
        content.append(identifier.as_str());
        content.append("] ");
        content.append(title.as_str());
        make_item(id, content, TaskSource::Linear, due, clock)
    }
}

/// Whether `a` may stand before `b` in task order: overdue tasks first, then by
/// due instant, earliest first, with undated tasks after dated ones.
pub open spec fn task_le(a: TodoTask, b: TodoTask) -> bool {
    if a.is_overdue != b.is_overdue {
        a.is_overdue
    } else {
        match (a.due_utc(), b.due_utc()) {
            (Some(x), Some(y)) => x <= y,
            (Some(_), None) => true,
            (None, Some(_)) => false,
            (None, None) => true,
        }
    }
}

/// Whether `s` is in task order.
pub open spec fn sorted(s: Seq<TodoTask>) -> bool {
    forall|i: int, j: int| 0 <= i < j < s.len() ==> task_le(#[trigger] s[i], #[trigger] s[j])
}

/// Whether two tasks tie in task order.
pub open spec fn tied(a: TodoTask, b: TodoTask) -> bool {
    task_le(a, b) && task_le(b, a)
}

/// The tasks of `s` that tie with `x`, in the order of `s`.
pub open spec fn tie_class(s: Seq<TodoTask>, x: TodoTask) -> Seq<TodoTask> {
    s.filter(|t: TodoTask| tied(t, x))
}

proof fn lemma_tie_class_insert(s: Seq<TodoTask>, p: int, t: TodoTask, x: TodoTask)
    requires
        0 <= p <= s.len(),
        forall|k: int| 0 <= k < p ==> !task_le(t, #[trigger] s[k]),
    ensures
        tie_class(s.insert(p, t), x) == if tied(t, x) {
            seq![t] + tie_class(s, x)
        } else {
            tie_class(s, x)
        },
{
    let pred = |y: TodoTask| tied(y, x);
    let head = s.subrange(0, p);
    let tail = s.subrange(p, s.len() as int);
    assert(s =~= head + tail);
    assert(s.insert(p, t) == head.push(t) + tail);
    Seq::filter_distributes_over_add(head.push(t), tail, pred);
    Seq::filter_distributes_over_add(head, tail, pred);
    head.lemma_filter_push(t, pred);
    if tied(t, x) {
        assert forall|k: int| 0 <= k < head.len() implies !pred(#[trigger] head[k]) by {
            assert(head[k] == s[k]);
            if tied(head[k], x) {
                lemma_le_trans(t, x, head[k]);
            }
        }
        assert(head.all(|y: TodoTask| !pred(y)));
        head.lemma_all_neg_filter_empty(pred);
        assert(head.filter(pred) =~= Seq::<TodoTask>::empty());
        assert(head.filter(pred).push(t) + tail.filter(pred) =~= seq![t] + tail.filter(pred));
        assert(head.filter(pred) + tail.filter(pred) =~= tail.filter(pred));
    }
}

proof fn lemma_le_total(a: TodoTask, b: TodoTask)
    ensures
        task_le(a, b) || task_le(b, a),
{
}

proof fn lemma_le_trans(a: TodoTask, b: TodoTask, c: TodoTask)
    requires
        task_le(a, b),
        task_le(b, c),
    ensures
        task_le(a, c),
{
}

/// Whether `a` may stand before `b` in task order.
pub fn before_or_tied(a: &TodoTask, b: &TodoTask) -> (r: bool)
    ensures
        r == task_le(*a, *b),
{
    if a.is_overdue != b.is_overdue {
        a.is_overdue
    } else {
        match (a.due, b.due) {
            (Some(x), Some(y)) => x.utc <= y.utc,
            (Some(_), None) => true,
            (None, Some(_)) => false,
            (None, None) => true,
        }
    }
}

/// Puts `t` into the ordered `out`, before the tasks it ties with.
fn insert_in_order(out: &mut Vec<TodoTask>, t: TodoTask)
    requires
        sorted(old(out)@),
    ensures
        sorted(final(out)@),
        final(out)@.to_multiset() == old(out)@.to_multiset().insert(t),
        forall|x: TodoTask|
            #[trigger] tie_class(final(out)@, x) == if tied(t, x) {
                seq![t] + tie_class(old(out)@, x)
            } else {
                tie_class(old(out)@, x)
            },
{
    let mut p: usize = 0;
    while p < out.len() && !before_or_tied(&t, &out[p])
        invariant
            p <= out.len(),
            sorted(out@),
            forall|k: int| 0 <= k < p ==> task_le(#[trigger] out@[k], t),
            forall|k: int| 0 <= k < p ==> !task_le(t, #[trigger] out@[k]),
        decreases out.len() - p,
    {
        proof {
            lemma_le_total(t, out@[p as int]);
        }
        p = p + 1;
    }
    let ghost before = out@;
    proof {
        assert forall|j: int| p <= j < before.len() implies task_le(t, #[trigger] before[j]) by {
            if j > p {
                lemma_le_trans(t, before[p as int], before[j]);
            }
        }
        vstd::seq_lib::to_multiset_insert(before, p as int, t);
    }
    out.insert(p, t);
    proof {
        assert(out@ == before.insert(p as int, t));
        assert forall|x: TodoTask| #[trigger] tie_class(out@, x) == if tied(t, x) {
            seq![t] + tie_class(before, x)
        } else {
            tie_class(before, x)
        } by {
            lemma_tie_class_insert(before, p as int, t, x);
        }
        assert forall|i: int, j: int| 0 <= i < j < out@.len() implies task_le(
            #[trigger] out@[i],
            #[trigger] out@[j],
        ) by {
            if j < p {
                assert(out@[i] == before[i] && out@[j] == before[j]);
            } else if j == p {
                assert(out@[i] == before[i]);
            } else if i < p {
                assert(out@[i] == before[i] && out@[j] == before[j - 1]);
                lemma_le_trans(before[i], t, before[j - 1]);
            } else if i == p {
                assert(out@[j] == before[j - 1]);
            } else {
                assert(out@[i] == before[i - 1] && out@[j] == before[j - 1]);
            }
        }
    }
}

/// Puts the tasks in task order, keeping tied tasks in the order they came in:
/// for every task, the tasks that tie with it form the same sequence before and after.
pub fn sort_tasks(tasks: &mut Vec<TodoTask>)
    ensures
        sorted(final(tasks)@),
        final(tasks)@.to_multiset() == old(tasks)@.to_multiset(),
        forall|x: TodoTask| #[trigger] tie_class(final(tasks)@, x) == tie_class(old(tasks)@, x),
{
    let ghost all = tasks@;
    let ghost start = tasks@.to_multiset();
    let mut out: Vec<TodoTask> = Vec::new();
    proof {
        broadcast use vstd::multiset::group_multiset_axioms;
        broadcast use vstd::seq_lib::group_to_multiset_ensures;
        assert(out@.to_multiset().len() == 0);
        assert(out@.to_multiset() =~= vstd::multiset::Multiset::empty());
        assert(out@.to_multiset().add(tasks@.to_multiset()) =~= start);
    }
    proof {
        broadcast use vstd::seq_lib::group_filter_ensures;
        assert forall|x: TodoTask| #[trigger] tie_class(out@, x) == tie_class(all.skip(all.len() as int), x) by {
            assert(out@ =~= Seq::<TodoTask>::empty());
            assert(all.skip(all.len() as int) =~= Seq::<TodoTask>::empty());
        }
    }
    while tasks.len() > 0
        invariant
            sorted(out@),
            out@.to_multiset().add(tasks@.to_multiset()) == start,
            tasks@ == all.take(tasks@.len() as int),
            tasks@.len() <= all.len(),
            forall|x: TodoTask| #[trigger] tie_class(out@, x) == tie_class(all.skip(tasks@.len() as int), x),
        decreases tasks.len(),
    {
        let ghost prior = tasks@;
        let t = tasks.pop().unwrap();
        proof {
            assert(prior == tasks@.push(t));
            vstd::seq_lib::to_multiset_build(tasks@, t);
        }
        let ghost prior_out = out@;
        insert_in_order(&mut out, t);
        proof {
            broadcast use vstd::multiset::group_multiset_axioms;
            assert(out@.to_multiset().add(tasks@.to_multiset()) =~= prior_out.to_multiset().add(
                prior.to_multiset(),
            ));
            let n = tasks@.len() as int;
            assert(t == all[n]);
            assert(tasks@ =~= all.take(n));
            assert(all.skip(n) =~= seq![t] + all.skip(n + 1));
            assert forall|x: TodoTask| #[trigger] tie_class(out@, x) == tie_class(all.skip(n), x) by {
                let pred = |y: TodoTask| tied(y, x);
                Seq::filter_distributes_over_add(seq![t], all.skip(n + 1), pred);
                Seq::<TodoTask>::empty().lemma_filter_push(t, pred);
                assert(seq![t] =~= Seq::<TodoTask>::empty().push(t));
                assert(Seq::<TodoTask>::empty().filter(pred) =~= Seq::<TodoTask>::empty()) by {
                    broadcast use vstd::seq_lib::group_filter_ensures;
                }
                if tied(t, x) {
                    assert(seq![t].filter(pred) =~= seq![t]);
                } else {
                    assert(seq![t].filter(pred) =~= Seq::<TodoTask>::empty());
                    assert(Seq::<TodoTask>::empty() + all.skip(n + 1).filter(pred) =~= all.skip(n + 1).filter(pred));
                }
            }
        }
    }
    proof {
        broadcast use vstd::multiset::group_multiset_axioms;
        broadcast use vstd::seq_lib::group_to_multiset_ensures;
        assert(tasks@.to_multiset().len() == 0);
        assert(tasks@.to_multiset() =~= vstd::multiset::Multiset::empty());
        assert(out@.to_multiset() =~= start);
        assert(all.skip(0) =~= all);
    }
    *tasks = out;
}

/// Overdue and earlier tasks come first: in task order no task that is not
/// overdue stands before an overdue one, and overdue tasks stand by due instant.
pub proof fn lemma_overdue_first(s: Seq<TodoTask>)
    requires
        sorted(s),
    ensures
        forall|i: int, j: int|
            0 <= i < j < s.len() && (#[trigger] s[j]).is_overdue ==> (#[trigger] s[i]).is_overdue,
        forall|i: int, j: int|
            0 <= i < j < s.len() && (#[trigger] s[i]).is_overdue && (#[trigger] s[j]).is_overdue
                && s[i].due is Some && s[j].due is Some ==> s[i].due_utc()->0 <= s[j].due_utc()->0,
{
    assert forall|i: int, j: int|
        0 <= i < j < s.len() && (#[trigger] s[j]).is_overdue implies (#[trigger] s[i]).is_overdue by {
        assert(task_le(s[i], s[j]));
    }
    assert forall|i: int, j: int|
        0 <= i < j < s.len() && (#[trigger] s[i]).is_overdue && (#[trigger] s[j]).is_overdue
            && s[i].due is Some && s[j].due is Some implies s[i].due_utc()->0 <= s[j].due_utc()->0 by {
        assert(task_le(s[i], s[j]));
    }
}

/// Belongs to the overdue bucket.
pub open spec fn in_overdue(t: TodoTask) -> bool {
    t.source == TaskSource::Todoist && t.is_overdue
}

/// Belongs to the today bucket.
pub open spec fn in_today(t: TodoTask) -> bool {
    t.source == TaskSource::Todoist && t.is_today && !t.is_overdue
}

/// Belongs to the tomorrow bucket.
pub open spec fn in_tomorrow(t: TodoTask) -> bool {
    t.source == TaskSource::Todoist && t.is_tomorrow && !t.is_overdue
}

/// A task whose flags were computed at some clock lands in at most one bucket.
pub proof fn lemma_one_bucket(t: TodoTask, clock: Clock)
    requires
        (t.is_overdue, t.is_today, t.is_tomorrow) == flags_of(t.due, clock),
    ensures
        in_overdue(t) ==> !in_today(t) && !in_tomorrow(t) && !in_progress(t),
        in_today(t) ==> !in_tomorrow(t) && !in_progress(t),
        in_tomorrow(t) ==> !in_progress(t),
{
}

/// Belongs to the in-progress bucket.
pub open spec fn in_progress(t: TodoTask) -> bool {
    t.source == TaskSource::Linear
}

/// Whether `l` holds the buckets of the ordered tasks `s`.
pub open spec fn buckets_of(l: TaskList, s: Seq<TodoTask>) -> bool {
    &&& l.overdue@ == s.filter(|t: TodoTask| in_overdue(t))
    &&& l.today@ == s.filter(|t: TodoTask| in_today(t))
    &&& l.tomorrow@ == s.filter(|t: TodoTask| in_tomorrow(t))
    &&& l.in_progress@ == s.filter(|t: TodoTask| in_progress(t))
}

/// Sorts the tasks into task order, then deals them into the four buckets: the
/// task tracker's tasks by their flags, every issue-tracker issue into in-progress.
pub fn group_tasks(tasks: Vec<TodoTask>) -> (r: TaskList)
    ensures
        exists|s: Seq<TodoTask>|
            sorted(s) && s.to_multiset() == tasks@.to_multiset() && buckets_of(r, s) && (forall|x: TodoTask|
                #[trigger] tie_class(s, x) == tie_class(tasks@, x)),
{
    let ghost given = tasks@;
    let mut tasks = tasks;
    sort_tasks(&mut tasks);
    let mut r = TaskList::new();
    let ghost s = tasks@;
    proof {
        broadcast use vstd::seq_lib::group_filter_ensures;
        assert(s.take(0) =~= Seq::<TodoTask>::empty());
        assert(s.take(0).filter(|t: TodoTask| in_overdue(t)).len() == 0);
        assert(s.take(0).filter(|t: TodoTask| in_today(t)).len() == 0);
        assert(s.take(0).filter(|t: TodoTask| in_tomorrow(t)).len() == 0);
        assert(s.take(0).filter(|t: TodoTask| in_progress(t)).len() == 0);
        assert(r.overdue@ =~= s.take(0).filter(|t: TodoTask| in_overdue(t)));
        assert(r.today@ =~= s.take(0).filter(|t: TodoTask| in_today(t)));
        assert(r.tomorrow@ =~= s.take(0).filter(|t: TodoTask| in_tomorrow(t)));
        assert(r.in_progress@ =~= s.take(0).filter(|t: TodoTask| in_progress(t)));
    }
    for i in 0..tasks.len()
        invariant
            s == tasks@,
            buckets_of(r, s.take(i as int)),
    {
        let t = &tasks[i];
        proof {
            assert(s.take(i + 1) == s.take(i as int).push(s[i as int]));
            s.take(i as int).lemma_filter_push(s[i as int], |t: TodoTask| in_overdue(t));
            s.take(i as int).lemma_filter_push(s[i as int], |t: TodoTask| in_today(t));
            s.take(i as int).lemma_filter_push(s[i as int], |t: TodoTask| in_tomorrow(t));
            s.take(i as int).lemma_filter_push(s[i as int], |t: TodoTask| in_progress(t));
        }
        let todoist = t.source == TaskSource::Todoist;
        if todoist && t.is_overdue {
            r.overdue.push(t.duplicate());
        }
        if todoist && t.is_today && !t.is_overdue {
            r.today.push(t.duplicate());
        }
        if todoist && t.is_tomorrow && !t.is_overdue {
            r.tomorrow.push(t.duplicate());
        }
        if t.source == TaskSource::Linear {
            r.in_progress.push(t.duplicate());
        }
    }
    assert(s.take(s.len() as int) =~= s);
    assert(forall|x: TodoTask| #[trigger] tie_class(s, x) == tie_class(given, x));
    r
}

/// Whether `t` is the item a task-tracker task makes at `clock`.
pub open spec fn is_todoist_item(t: TodoTask, task: TodoistTask, clock: Clock) -> bool {
    &&& is_item(t, task.id@, task.content@, TaskSource::Todoist, t.due, clock)
    &&& (task.due is None ==> t.due is None)
    &&& (task.due matches Some(d) ==> (t.due matches Some(li) ==> parse_due_instant_spec(d.date@, li)))
    &&& (task.due matches Some(d) ==> (due_reading(d.date@) is Unreadable ==> t.due is None))
}

/// The items of the task tracker's tasks, in the order they came.
pub fn todoist_items(tasks: Vec<TodoistTask>, clock: Clock) -> (r: Vec<TodoTask>)
    requires
        clock.wf(),
    ensures
        r@.len() == tasks@.len(),
        forall|k: int| 0 <= k < r@.len() ==> is_todoist_item(#[trigger] r@[k], tasks@[k], clock),
{
    let ghost all = tasks@;
    let mut rest = tasks;
    let n = rest.len();
    let mut pending: Vec<TodoistTask> = Vec::new();
    while rest.len() > 0
        invariant
            rest@.len() + pending@.len() == n,
            n == all.len(),
            rest@ == all.take(rest@.len() as int),
            forall|k: int| 0 <= k < pending@.len() ==> #[trigger] pending@[k] == all[n - 1 - k],
        decreases rest.len(),
    {
        let t = rest.pop().unwrap();
        pending.push(t);
    }
    let mut out: Vec<TodoTask> = Vec::new();
    while pending.len() > 0
        invariant
            out@.len() + pending@.len() == n,
            n == all.len(),
            forall|k: int| 0 <= k < pending@.len() ==> #[trigger] pending@[k] == all[n - 1 - k],
            forall|k: int| 0 <= k < out@.len() ==> is_todoist_item(#[trigger] out@[k], all[k], clock),
            clock.wf(),
        decreases pending.len(),
    {
        let t = pending.pop().unwrap();
        assert(t == all[out@.len() as int]);
        let ghost spec_task = t;
        let item = TodoTask::from_todoist(t, clock);
        assert(is_todoist_item(item, spec_task, clock));
        out.push(item);
    }
    out
}

} // verus!
