//! The issue tracker: which assigned issues count as in progress, and how its pages run.
use crate::task::{is_item, parse_due_instant_spec, due_reading, TaskSource, TodoTask};
use crate::text::chars_of;
use crate::time::Clock;
use vstd::prelude::*;

verus! {

/// Whether two characters are the same, ASCII letter case aside.
pub open spec fn same_letter(x: char, y: char) -> bool {
    x == y || upper_of_lower(x, y) || upper_of_lower(y, x)
}

/// Whether `u` is an ASCII capital and `l` the same letter in lower case.
pub open spec fn upper_of_lower(u: char, l: char) -> bool {
    65 <= (u as u32) && (u as u32) <= 90 && (l as u32) == (u as u32) + 32
}

fn capital_of(u: char, l: char) -> (r: bool)
    ensures
        r == upper_of_lower(u, l),
{
    let a = u as u32;
    let b = l as u32;
    65 <= a && a <= 90 && b == a + 32
}

/// Whether two texts are the same, ASCII letter case aside.
pub open spec fn same_ignoring_case(a: Seq<char>, b: Seq<char>) -> bool {
    a.len() == b.len() && forall|i: int| 0 <= i < a.len() ==> same_letter(#[trigger] a[i], b[i])
}

/// Whether two texts are the same, ASCII letter case aside.
pub fn eq_ignore_case(a: &str, b: &str) -> (r: bool)
    ensures
        r == same_ignoring_case(a@, b@),
{
    let x = chars_of(a);
    let y = chars_of(b);
    if x.len() != y.len() {
        return false;
    }
    let mut i: usize = 0;
    while i < x.len()
        invariant
            x.len() == y.len(),
            i <= x.len(),
            x@ == a@,
            y@ == b@,
            forall|k: int| 0 <= k < i ==> same_letter(#[trigger] x@[k], y@[k]),
        decreases x.len() - i,
    {
        let c = x[i];
        let d = y[i];
        let same = c == d || capital_of(c, d) || capital_of(d, c);
        if !same {
            return false;
        }
        i = i + 1;
    }
    true
}

/// An assigned issue as the issue tracker's API hands it out.
#[derive(Clone, Debug)]
pub struct LinearIssue {
    pub id: String,
    pub identifier: String,
    pub title: String,
    pub due_date: Option<String>,
    pub state_name: String,
    pub state_type: String,
}

/// Whether an issue is in progress: its state's type is `started`, or its state
/// is named `In Progress`, letter case aside either way.
pub open spec fn in_progress_spec(i: LinearIssue) -> bool {
    same_ignoring_case(i.state_type@, "started"@) || same_ignoring_case(i.state_name@, "in progress"@)
}

/// Whether an issue is in progress.
pub fn is_in_progress(issue: &LinearIssue) -> (r: bool)
    ensures
        r == in_progress_spec(*issue),
{
    eq_ignore_case(issue.state_type.as_str(), "started") || eq_ignore_case(issue.state_name.as_str(), "in progress")
}

/// The cursor to read the next page after, when there is a next page to read.
pub fn next_page_cursor(has_next_page: bool, end_cursor: Option<String>) -> (r: Option<String>)
    ensures
        r == (if has_next_page { end_cursor } else { None }),
{
    if has_next_page {
        end_cursor
    } else {
        None
    }
}

/// Whether `t` is the item an in-progress issue makes at `clock`.
pub open spec fn is_issue_item(t: TodoTask, i: LinearIssue, clock: Clock) -> bool {
    &&& is_item(t, i.id@, "["@ + i.identifier@ + "] "@ + i.title@, TaskSource::Linear, t.due, clock)
    &&& (i.due_date is None ==> t.due is None)
    &&& (i.due_date matches Some(d) ==> (t.due matches Some(li) ==> parse_due_instant_spec(d@, li)))
    &&& (i.due_date matches Some(d) ==> (due_reading(d@) is Unreadable ==> t.due is None))
}

/// The items of one page of assigned issues: those in progress, in page order.
pub fn in_progress_items(page: Vec<LinearIssue>, clock: Clock) -> (r: Vec<TodoTask>)
    requires
        clock.wf(),
    ensures
        r@.len() == page@.filter(|i: LinearIssue| in_progress_spec(i)).len(),
        forall|k: int|
            0 <= k < r@.len() ==> is_issue_item(
                #[trigger] r@[k],
                page@.filter(|i: LinearIssue| in_progress_spec(i))[k],
                clock,
            ),
{
    let ghost all = page@;
    let mut rest = page;
    let n = rest.len();
    let mut pending: Vec<LinearIssue> = Vec::new();
    while rest.len() > 0
        invariant
            rest@.len() + pending@.len() == n,
            n == all.len(),
            rest@ == all.take(rest@.len() as int),
            forall|k: int| 0 <= k < pending@.len() ==> #[trigger] pending@[k] == all[n - 1 - k],
        decreases rest.len(),
    {
        let s = rest.pop().unwrap();
        pending.push(s);
    }
    let mut out: Vec<TodoTask> = Vec::new();
    let mut i: usize = 0;
    proof {
        broadcast use vstd::seq_lib::group_filter_ensures;
        assert(all.take(0) =~= Seq::<LinearIssue>::empty());
        assert(all.take(0).filter(|i: LinearIssue| in_progress_spec(i)).len() == 0);
    }
    while pending.len() > 0
        invariant
            i + pending@.len() == n,
            n == all.len(),
            forall|k: int| 0 <= k < pending@.len() ==> #[trigger] pending@[k] == all[n - 1 - k],
            out@.len() == all.take(i as int).filter(|i: LinearIssue| in_progress_spec(i)).len(),
            forall|k: int|
                0 <= k < out@.len() ==> is_issue_item(
                    #[trigger] out@[k],
                    all.take(i as int).filter(|i: LinearIssue| in_progress_spec(i))[k],
                    clock,
                ),
            clock.wf(),
        decreases pending.len(),
    {
        let issue = pending.pop().unwrap();
        proof {
            assert(issue == all[i as int]);
            assert(all.take(i + 1) == all.take(i as int).push(all[i as int]));
            all.take(i as int).lemma_filter_push(all[i as int], |i: LinearIssue| in_progress_spec(i));
        }
        if is_in_progress(&issue) {
            let ghost spec_issue = issue;
            let t = TodoTask::from_linear(issue.id, issue.identifier, issue.title, issue.due_date, clock);
            assert(is_issue_item(t, spec_issue, clock));
            out.push(t);
        }
        i = i + 1;
    }
    assert(all.take(n as int) =~= all);
    out
}

/// The messages of a failed query, joined by `; `.
pub open spec fn joined(messages: Seq<Seq<char>>) -> Seq<char>
    decreases messages.len(),
{
    if messages.len() == 0 {
        Seq::empty()
    } else if messages.len() == 1 {
        messages[0]
    } else {
        joined(messages.drop_last()) + "; "@ + messages.last()
    }
}

/// The messages of a failed query, joined by `; `.
pub fn join_messages(messages: &Vec<String>) -> (r: String)
    ensures
        r@ == joined(messages@.map_values(|m: String| m@)),
{
    let ghost ms = messages@.map_values(|m: String| m@);
    let mut r = String::new();
    for i in 0..messages.len()
        invariant
            ms == messages@.map_values(|m: String| m@),
            r@ == joined(ms.take(i as int)),
    {
        assert(ms.take(i + 1).drop_last() =~= ms.take(i as int));
        assert(ms.take(i + 1).last() == messages@[i as int]@);
        if i > 0 {
            r.append("; ");
        } else {
            assert(ms.take(0) =~= Seq::<Seq<char>>::empty());
        }
        r.append(messages[i].as_str());
    }
    assert(ms.take(messages.len() as int) =~= ms);
    r
}

} // verus!
