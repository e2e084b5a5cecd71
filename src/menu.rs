//! What the status-bar item shows: its title, its menu and the commands the menu sends.
use crate::task::{TaskList, TodoTask};
use crate::text::{chars_of, decimal, is_text, push_decimal, slice, string_of};
use vstd::prelude::*;

verus! {

/// The ellipsis that ends a shortened text.
pub const ELLIPSIS: char = '\u{2026}';

/// How many bytes UTF-8 takes for `c`.
pub open spec fn char_bytes(c: char) -> int {
    let u = c as u32;
    if u < 0x80 {
        1
    } else if u < 0x800 {
        2
    } else if u < 0x10000 {
        3
    } else {
        4
    }
}

/// How many bytes UTF-8 takes for `s`.
pub open spec fn byte_len(s: Seq<char>) -> int
    decreases s.len(),
{
    if s.len() == 0 {
        0
    } else {
        char_bytes(s[0]) + byte_len(s.skip(1))
    }
}

/// How many leading characters of `s` fit in `n` bytes.
pub open spec fn fit(s: Seq<char>, n: int) -> int
    decreases s.len(),
{
    if s.len() == 0 || char_bytes(s[0]) > n {
        0
    } else {
        1 + fit(s.skip(1), n - char_bytes(s[0]))
    }
}

/// `s` cut to at most `max` bytes of UTF-8: kept whole when it fits, else the
/// characters that fit in `max - 1` bytes followed by an ellipsis.
pub open spec fn truncated(s: Seq<char>, max: int) -> Seq<char> {
    if byte_len(s) <= max {
        s
    } else {
        s.take(fit(s, if max >= 1 { max - 1 } else { 0 })).push(ELLIPSIS)
    }
}

fn char_size(c: char) -> (r: usize)
    ensures
        r == char_bytes(c),
{
    let u = c as u32;
    if u < 0x80 {
        1
    } else if u < 0x800 {
        2
    } else if u < 0x10000 {
        3
    } else {
        4
    }
}

proof fn lemma_byte_len_nonneg(s: Seq<char>)
    ensures
        byte_len(s) >= 0,
    decreases s.len(),
{
    if s.len() > 0 {
        lemma_byte_len_nonneg(s.skip(1));
    }
}

proof fn lemma_fit_bounds(s: Seq<char>, n: int)
    ensures
        0 <= fit(s, n) <= s.len(),
    decreases s.len(),
{
    if s.len() > 0 && char_bytes(s[0]) <= n {
        lemma_fit_bounds(s.skip(1), n - char_bytes(s[0]));
    }
}

fn fits_within(v: &Vec<char>, max: usize) -> (r: bool)
    ensures
        r == (byte_len(v@) <= max),
{
    let mut i: usize = 0;
    let mut rem = max;
    assert(v@.skip(0) =~= v@);
    while i < v.len()
        invariant
            i <= v.len(),
            rem <= max,
            (byte_len(v@) <= max) == (byte_len(v@.skip(i as int)) <= rem),
        decreases v.len() - i,
    {
        let cb = char_size(v[i]);
        proof {
            assert(v@.skip(i as int)[0] == v@[i as int]);
            assert(v@.skip(i as int).skip(1) =~= v@.skip(i + 1));
            lemma_byte_len_nonneg(v@.skip(i + 1));
        }
        if cb > rem {
            return false;
        }
        rem = rem - cb;
        i = i + 1;
    }
    assert(v@.skip(i as int) =~= Seq::<char>::empty());
    true
}

fn fit_count(v: &Vec<char>, n: usize) -> (r: usize)
    ensures
        r == fit(v@, n as int),
        r <= v.len(),
{
    let mut i: usize = 0;
    let mut rem = n;
    assert(v@.skip(0) =~= v@);
    while i < v.len()
        invariant
            i <= v.len(),
            fit(v@, n as int) == i + fit(v@.skip(i as int), rem as int),
        decreases v.len() - i,
    {
        let cb = char_size(v[i]);
        assert(v@.skip(i as int)[0] == v@[i as int]);
        assert(v@.skip(i as int).skip(1) =~= v@.skip(i + 1));
        if cb > rem {
            return i;
        }
        rem = rem - cb;
        i = i + 1;
    }
    assert(v@.skip(i as int) =~= Seq::<char>::empty());
    i
}

/// Cuts `s` to at most `max_len` bytes, ending with an ellipsis when cut, and
/// never inside a character.
pub fn truncate(s: &str, max_len: usize) -> (r: String)
    ensures
        r@ == truncated(s@, max_len as int),
{
    let v = chars_of(s);
    if fits_within(&v, max_len) {
        return string_of(&v);
    }
    let room = if max_len >= 1 { max_len - 1 } else { 0 };
    let keep = fit_count(&v, room);
    let mut r = string_of(&slice(&v, 0, keep));
    crate::text::push_char(&mut r, ELLIPSIS);
    assert(v@.subrange(0, keep as int) =~= v@.take(keep as int));
    r
}

/// What the menu shows for a task: its name, and its time in a column of its own.
pub open spec fn task_menu_text(t: TodoTask) -> Seq<char> {
    if t.display_time@ != "no due date"@ {
        truncated(t.content@, 35) + "\t"@ + t.display_time@
    } else {
        truncated(t.content@, 40)
    }
}

/// What the menu shows for a task.
pub fn format_task_menu_item(task: &TodoTask) -> (r: String)
    ensures
        r@ == task_menu_text(*task),
{
    if !is_text(&chars_of(task.display_time.as_str()), "no due date") {
        let mut r = truncate(task.content.as_str(), 35);
        r.append("\t");
        r.append(task.display_time.as_str());
        r
    } else {
        truncate(task.content.as_str(), 40)
    }
}

/// The title beside the status-bar icon: `! n` for overdue tasks, else the number
/// due today, else `0`.
pub open spec fn tray_title(overdue_count: nat, today_count: nat) -> Seq<char> {
    if overdue_count > 0 {
        "! "@ + decimal(overdue_count)
    } else if today_count > 0 {
        decimal(today_count)
    } else {
        "0"@
    }
}

/// The title beside the status-bar icon.
pub fn format_tray_title(overdue_count: usize, today_count: usize) -> (r: String)
    ensures
        r@ == tray_title(overdue_count as nat, today_count as nat),
{
    if overdue_count > 0 {
        let mut r = "! ".to_string();
        push_decimal(&mut r, overdue_count as u64);
        r
    } else if today_count > 0 {
        let mut r = String::new();
        push_decimal(&mut r, today_count as u64);
        r
    } else {
        "0".to_string()
    }
}

/// A command that the menu sends.
#[derive(Clone, Debug, PartialEq, Eq)]
pub enum TrayCommand {
    RefreshTasks,
    CompleteTask(String),
    ToggleAutostart,
    Quit,
}

/// The command of a menu item, by the item's identifier: the control items by
/// name, any other item but a header completes the task it names.
pub fn parse_menu_event(id: &str) -> (r: TrayCommand)
    ensures
        id@ == "refresh"@ ==> r == TrayCommand::RefreshTasks,
        id@ == "toggle_autostart"@ ==> r == TrayCommand::ToggleAutostart,
        id@ == "quit"@ ==> r == TrayCommand::Quit,
        (id@ != "refresh"@ && id@ != "toggle_autostart"@ && id@ != "quit"@) ==> (if id@.len() > 0
            && id@ != "header"@ {
            r matches TrayCommand::CompleteTask(t) && t@ == id@
        } else {
            r == TrayCommand::RefreshTasks
        }),
{
    let v = chars_of(id);
    proof {
        reveal_strlit("refresh");
        reveal_strlit("toggle_autostart");
        reveal_strlit("quit");
        assert("toggle_autostart"@.len() != "refresh"@.len());
        assert("quit"@.len() != "refresh"@.len());
        assert("quit"@.len() != "toggle_autostart"@.len());
    }
    if is_text(&v, "refresh") {
        TrayCommand::RefreshTasks
    } else if is_text(&v, "toggle_autostart") {
        TrayCommand::ToggleAutostart
    } else if is_text(&v, "quit") {
        TrayCommand::Quit
    } else if v.len() > 0 && !is_text(&v, "header") {
        TrayCommand::CompleteTask(string_of(&v))
    } else {
        TrayCommand::RefreshTasks
    }
}

/// One entry of the menu.
#[derive(Clone, Debug)]
pub enum MenuEntry {
    /// A heading that cannot be chosen.
    Header(String),
    /// A task; choosing it completes the task with this identifier.
    Task { id: String, text: String },
    /// A line between groups.
    Separator,
    /// A control, by identifier.
    Action { id: String, text: String },
}

/// What a menu entry says.
pub enum EntryModel {
    Header(Seq<char>),
    Task(Seq<char>, Seq<char>),
    Separator,
    Action(Seq<char>, Seq<char>),
}

impl MenuEntry {
    pub open spec fn view(&self) -> EntryModel {
        match self {
            MenuEntry::Header(t) => EntryModel::Header(t@),
            MenuEntry::Task { id, text } => EntryModel::Task(id@, text@),
            MenuEntry::Separator => EntryModel::Separator,
            MenuEntry::Action { id, text } => EntryModel::Action(id@, text@),
        }
    }
}

/// The views of menu entries.
pub open spec fn entry_views(s: Seq<MenuEntry>) -> Seq<EntryModel> {
    s.map_values(|e: MenuEntry| e.view())
}

/// The entries of the tasks of one group.
pub open spec fn task_entries(tasks: Seq<TodoTask>) -> Seq<EntryModel> {
    tasks.map_values(|t: TodoTask| EntryModel::Task(t.id@, task_menu_text(t)))
}

/// A group of the menu: a heading, its tasks and a line; nothing without tasks.
pub open spec fn group(title: Seq<char>, tasks: Seq<TodoTask>) -> Seq<EntryModel> {
    if tasks.len() == 0 {
        Seq::empty()
    } else {
        seq![EntryModel::Header(title)] + task_entries(tasks) + seq![EntryModel::Separator]
    }
}

/// The whole menu: the overdue, today and, when shown, tomorrow groups; a note
/// when there is no task at all; then refresh, the login-item switch and quit.
pub open spec fn menu_of(tasks: TaskList, show_tomorrow: bool, autostart_enabled: bool) -> Seq<EntryModel> {
    let none = tasks.overdue@.len() == 0 && tasks.today@.len() == 0 && tasks.tomorrow@.len() == 0;
    group("Overdue"@, tasks.overdue@) + group("Today"@, tasks.today@) + (if show_tomorrow {
        group("Tomorrow"@, tasks.tomorrow@)
    } else {
        Seq::empty()
    }) + (if none {
        seq![EntryModel::Header("No tasks for today"@), EntryModel::Separator]
    } else {
        Seq::empty()
    }) + seq![
        EntryModel::Action("refresh"@, "Refresh"@),
        EntryModel::Action(
            "toggle_autostart"@,
            if autostart_enabled {
                "\u{2713} Autostart"@
            } else {
                "Autostart"@
            },
        ),
        EntryModel::Action("quit"@, "Quit"@),
    ]
}

fn push_group(out: &mut Vec<MenuEntry>, title: &str, tasks: &Vec<TodoTask>)
    ensures
        entry_views(final(out)@) == entry_views(old(out)@) + group(title@, tasks@),
{
    let ghost start = entry_views(out@);
    if tasks.len() == 0 {
        assert(entry_views(out@) =~= start + group(title@, tasks@));
        return;
    }
    out.push(MenuEntry::Header(title.to_string()));
    assert(entry_views(out@) =~= start + seq![EntryModel::Header(title@)]);
    for i in 0..tasks.len()
        invariant
            entry_views(out@) == start + seq![EntryModel::Header(title@)] + task_entries(tasks@.take(i as int)),
    {
        let t = &tasks[i];
        let ghost before = entry_views(out@);
        let text = format_task_menu_item(t);
        out.push(MenuEntry::Task { id: t.id.clone(), text });
        assert(task_entries(tasks@.take(i + 1)) =~= task_entries(tasks@.take(i as int)).push(
            EntryModel::Task(t.id@, task_menu_text(*t)),
        ));
        assert(entry_views(out@) =~= before.push(EntryModel::Task(t.id@, task_menu_text(*t))));
    }
    assert(tasks@.take(tasks.len() as int) =~= tasks@);
    let ghost before = entry_views(out@);
    out.push(MenuEntry::Separator);
    assert(entry_views(out@) =~= before.push(EntryModel::Separator));
    assert(entry_views(out@) =~= start + group(title@, tasks@));
}

fn push_action(out: &mut Vec<MenuEntry>, id: &str, text: &str)
    ensures
        entry_views(final(out)@) == entry_views(old(out)@).push(EntryModel::Action(id@, text@)),
{
    let ghost before = entry_views(out@);
    out.push(MenuEntry::Action { id: id.to_string(), text: text.to_string() });
    assert(entry_views(out@) =~= before.push(EntryModel::Action(id@, text@)));
}

/// The menu for the task list. The tomorrow group shows only when asked for, as
/// in the afternoon.
pub fn build_menu(tasks: &TaskList, show_tomorrow: bool, autostart_enabled: bool) -> (r: Vec<MenuEntry>)
    ensures
        entry_views(r@) == menu_of(*tasks, show_tomorrow, autostart_enabled),
{
    let mut out: Vec<MenuEntry> = Vec::new();
    assert(entry_views(out@) =~= Seq::<EntryModel>::empty());
    push_group(&mut out, "Overdue", &tasks.overdue);
    push_group(&mut out, "Today", &tasks.today);
    let ghost after_today = entry_views(out@);
    if show_tomorrow {
        push_group(&mut out, "Tomorrow", &tasks.tomorrow);
    } else {
        assert(after_today + Seq::<EntryModel>::empty() =~= after_today);
    }
    let ghost after_tomorrow = entry_views(out@);
    if tasks.overdue.len() == 0 && tasks.today.len() == 0 && tasks.tomorrow.len() == 0 {
        out.push(MenuEntry::Header("No tasks for today".to_string()));
        out.push(MenuEntry::Separator);
        assert(entry_views(out@) =~= after_tomorrow + seq![
            EntryModel::Header("No tasks for today"@),
            EntryModel::Separator,
        ]);
    } else {
        assert(after_tomorrow + Seq::<EntryModel>::empty() =~= after_tomorrow);
    }
    let ghost before_actions = entry_views(out@);
    push_action(&mut out, "refresh", "Refresh");
    if autostart_enabled {
        push_action(&mut out, "toggle_autostart", "\u{2713} Autostart");
    } else {
        push_action(&mut out, "toggle_autostart", "Autostart");
    }
    push_action(&mut out, "quit", "Quit");
    assert(entry_views(out@) =~= menu_of(*tasks, show_tomorrow, autostart_enabled));
    out
}

} // verus!
