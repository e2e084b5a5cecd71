//! The texts of desktop notifications.
use crate::menu::{truncate, truncated};
use crate::text::{decimal, push_decimal};
use vstd::prelude::*;

verus! {

/// The title and subtitle of the notice for `count` newly overdue tasks, the
/// first of them named `first` when there is one.
pub open spec fn overdue_notice_text(count: nat, first: Option<Seq<char>>) -> (Seq<char>, Seq<char>) {
    let title = if count == 1 {
        "Task Overdue"@
    } else {
        decimal(count) + " Tasks Overdue"@
    };
    let subtitle = match first {
        Some(name) => if count == 1 {
            name
        } else {
            decimal(count) + " tasks need attention"@
        },
        None => decimal(count) + " tasks need attention"@,
    };
    (title, subtitle)
}

/// The title and subtitle of the notice for newly overdue tasks; none for none.
pub fn overdue_notice(count: usize, task_names: &Vec<String>) -> (r: Option<(String, String)>)
    ensures
        count == 0 ==> r is None,
        count > 0 ==> (r matches Some(n) && (n.0@, n.1@) == overdue_notice_text(
            count as nat,
            if task_names@.len() > 0 { Some(task_names@[0]@) } else { None },
        )),
{
    if count == 0 {
        return None;
    }
    let title = if count == 1 {
        "Task Overdue".to_string()
    } else {
        let mut t = String::new();
        push_decimal(&mut t, count as u64);
        t.append(" Tasks Overdue");
        t
    };
    let subtitle = if count == 1 && task_names.len() > 0 {
        task_names[0].clone()
    } else {
        let mut t = String::new();
        push_decimal(&mut t, count as u64);
        t.append(" tasks need attention");
        t
    };
    Some((title, subtitle))
}

/// The overdue tasks that were not overdue before: those past the first
/// `previous` of the overdue names, when there are more than before.
pub fn newly_overdue(previous: usize, overdue_names: &Vec<String>) -> (r: Option<Vec<String>>)
    ensures
        overdue_names@.len() <= previous ==> r is None,
        overdue_names@.len() > previous ==> (r matches Some(v) && v@ == overdue_names@.skip(previous as int)),
{
    if overdue_names.len() <= previous {
        return None;
    }
    let mut v: Vec<String> = Vec::new();
    let mut i = previous;
    while i < overdue_names.len()
        invariant
            previous <= i <= overdue_names@.len(),
            v@ == overdue_names@.subrange(previous as int, i as int),
        decreases overdue_names.len() - i,
    {
        v.push(overdue_names[i].clone());
        assert(overdue_names@.subrange(previous as int, i + 1) =~= overdue_names@.subrange(previous as int, i as int).push(overdue_names@[i as int]));
        i = i + 1;
    }
    assert(overdue_names@.subrange(previous as int, overdue_names.len() as int) =~= overdue_names@.skip(previous as int));
    Some(v)
}

/// The subtitle of the notice for a completed task: its name, cut to fifty bytes.
pub fn completed_notice(task_name: &str) -> (r: String)
    ensures
        r@ == truncated(task_name@, 50),
{
    truncate(task_name, 50)
}

} // verus!
