//! iCalendar feeds: unfolding, property lines, events and today's agenda.
use crate::text::{
    all_digits, chars_of, has_prefix, has_suffix, is_text, lines_of, replace_char, replace_char_of, replace_pair, replace_pair_of, slice, split, split_on, starts_with,
    string_of, to_upper, trim, trim_of, trim_start, trim_start_of, upper_of, views, find_char, index_from,
    ends_with, is_digit,
};
use crate::time::{
    chrono_span, date_parse, datetime_parse, local_instant, local_midnight, local_reading,
    parse_date, parse_datetime, show_wall, shown, clock_shown, Clock, LocalInstant, DAY_SECS,
};
use vstd::prelude::*;

verus! {

/// One event of today's agenda.
#[derive(Clone, Debug)]
pub struct CalendarEvent {
    pub event_id: String,
    pub title: String,
    pub start_at: Option<LocalInstant>,
    pub end_at: Option<LocalInstant>,
    pub display_time: String,
    pub open_url: Option<String>,
}

/// Today's events of one feed.
#[derive(Clone, Debug)]
pub struct CalendarEventSection {
    pub account_name: String,
    pub events: Vec<CalendarEvent>,
}

/// When an event starts or ends, as the feed writes it.
#[derive(Clone, Copy, Debug, PartialEq, Eq, Structural)]
pub enum EventTime {
    /// A whole day, by day number.
    Date(i64),
    /// An instant in UTC.
    Utc(i64),
    /// A local wall-clock reading, with no zone of its own.
    Floating(i64),
}

/// An event as the feed writes it, before it is placed on the calendar.
#[derive(Clone, Debug)]
pub struct RawEvent {
    pub uid: Option<String>,
    pub summary: Option<String>,
    pub url: Option<String>,
    pub conference_url: Option<String>,
    pub starts_at: Option<EventTime>,
    pub ends_at: Option<EventTime>,
}

/// A parsed feed: its name and its events, in feed order.
#[derive(Clone, Debug)]
pub struct ParsedFeed {
    pub calendar_name: String,
    pub events: Vec<RawEvent>,
}

/// A property line: its upper-cased name, its parameters and its value.
pub struct Property {
    pub name: Vec<char>,
    pub params: Vec<(Vec<char>, Vec<char>)>,
    pub value: Vec<char>,
}

/// What a property line says.
pub struct PropertyModel {
    pub name: Seq<char>,
    pub params: Seq<(Seq<char>, Seq<char>)>,
    pub value: Seq<char>,
}

/// What a raw event holds.
pub struct EventModel {
    pub uid: Option<Seq<char>>,
    pub summary: Option<Seq<char>>,
    pub url: Option<Seq<char>>,
    pub conference_url: Option<Seq<char>>,
    pub starts_at: Option<EventTime>,
    pub ends_at: Option<EventTime>,
}

/// Where a feed's reading stands after some of its lines.
pub struct FeedState {
    pub name: Seq<char>,
    pub events: Seq<EventModel>,
    pub current: Option<EventModel>,
}

/// The view of an optional string.
pub open spec fn opt_view(s: Option<String>) -> Option<Seq<char>> {
    match s {
        Some(x) => Some(x@),
        None => None,
    }
}

impl Property {
    pub open spec fn view(&self) -> PropertyModel {
        PropertyModel {
            name: self.name@,
            params: self.params@.map_values(|p: (Vec<char>, Vec<char>)| (p.0@, p.1@)),
            value: self.value@,
        }
    }
}

impl RawEvent {
    pub open spec fn view(&self) -> EventModel {
        EventModel {
            uid: opt_view(self.uid),
            summary: opt_view(self.summary),
            url: opt_view(self.url),
            conference_url: opt_view(self.conference_url),
            starts_at: self.starts_at,
            ends_at: self.ends_at,
        }
    }

    fn empty() -> (r: RawEvent)
        ensures
            r.view() == empty_event(),
    {
        RawEvent { uid: None, summary: None, url: None, conference_url: None, starts_at: None, ends_at: None }
    }
}

/// An event with nothing read yet.
pub open spec fn empty_event() -> EventModel {
    EventModel { uid: None, summary: None, url: None, conference_url: None, starts_at: None, ends_at: None }
}

/// The text with CRLF and lone CR line ends turned into LF.
pub open spec fn lf_text(s: Seq<char>) -> Seq<char> {
    replace_char_of(replace_pair_of(s, '\r', '\n', '\n'), '\r', '\n')
}

/// Joins a line to the ones before it: a line that begins with a space or a tab
/// continues the line before it, without its leading white space.
pub open spec fn unfold_step(acc: Seq<Seq<char>>, line: Seq<char>) -> Seq<Seq<char>> {
    if line.len() > 0 && (line[0] == ' ' || line[0] == '\t') {
        if acc.len() > 0 {
            acc.update(acc.len() - 1, acc.last() + trim_start_of(line))
        } else {
            acc
        }
    } else {
        acc.push(line)
    }
}

/// The logical lines of a run of physical lines.
pub open spec fn unfold(lines: Seq<Seq<char>>) -> Seq<Seq<char>>
    decreases lines.len(),
{
    if lines.len() == 0 {
        Seq::empty()
    } else {
        unfold_step(unfold(lines.drop_last()), lines.last())
    }
}

/// The logical lines of a feed's text.
pub open spec fn unfolded(content: Seq<char>) -> Seq<Seq<char>> {
    unfold(lines_of(lf_text(content)))
}

/// The logical lines of a feed's text: line ends made uniform, then each
/// continuation line joined to the line before it.
pub fn unfold_lines(content: &str) -> (r: Vec<Vec<char>>)
    ensures
        views(r@) == unfolded(content@),
{
    let v = chars_of(content);
    let lf = replace_char(&replace_pair(&v, '\r', '\n', '\n'), '\r', '\n');
    let ghost text = lf@;
    let mut pieces = split(&lf, '\n');
    if lf.len() == 0 {
        pieces = Vec::new();
    } else if lf[lf.len() - 1] == '\n' {
        pieces.pop();
    }
    assert(views(pieces@) =~= lines_of(text));
    let ghost lines = views(pieces@);
    let mut out: Vec<Vec<char>> = Vec::new();
    assert(views(out@) =~= unfold(lines.take(0)));
    for i in 0..pieces.len()
        invariant
            lines == views(pieces@),
            views(out@) == unfold(lines.take(i as int)),
    {
        let line = &pieces[i];
        assert(lines.take(i + 1).drop_last() =~= lines.take(i as int));
        assert(lines.take(i + 1).last() == line@);
        if line.len() > 0 && (line[0] == ' ' || line[0] == '\t') {
            if out.len() > 0 {
                let ghost before = views(out@);
                let mut last = out.pop().unwrap();
                let rest = trim_start(line);
                let mut k: usize = 0;
                let ghost start = last@;
                while k < rest.len()
                    invariant
                        k <= rest.len(),
                        last@ == start + rest@.take(k as int),
                    decreases rest.len() - k,
                {
                    last.push(rest[k]);
                    assert(rest@.take(k + 1) =~= rest@.take(k as int).push(rest@[k as int]));
                    k = k + 1;
                }
                assert(rest@.take(rest.len() as int) =~= rest@);
                out.push(last);
                assert(views(out@) =~= before.update(before.len() - 1, before.last() + trim_start_of(line@)));
            }
        } else {
            let ghost before = views(out@);
            out.push(slice(line, 0, line.len()));
            assert(line@.subrange(0, line@.len() as int) =~= line@);
            assert(views(out@) =~= before.push(line@));
        }
    }
    assert(lines.take(pieces.len() as int) =~= lines);
    out
}

/// The parameters of a property, from its `;`-separated pieces after the name:
/// each piece with a `=` gives an upper-cased, trimmed key and a trimmed value.
pub open spec fn params_of(parts: Seq<Seq<char>>) -> Seq<(Seq<char>, Seq<char>)>
    decreases parts.len(),
{
    if parts.len() == 0 {
        Seq::empty()
    } else {
        let prior = params_of(parts.drop_last());
        let p = parts.last();
        let e = find_char(p, '=');
        if e < p.len() {
            prior.push((upper_of(trim_of(p.take(e))), trim_of(p.skip(e + 1))))
        } else {
            prior
        }
    }
}

/// What a property line `NAME;KEY=VALUE;...:value` says; nothing without a colon.
pub open spec fn property_of(line: Seq<char>) -> Option<PropertyModel> {
    let colon = find_char(line, ':');
    if colon >= line.len() {
        None
    } else {
        let parts = split_on(line.take(colon), ';');
        Some(
            PropertyModel {
                name: upper_of(trim_of(parts[0])),
                params: params_of(parts.skip(1)),
                value: line.skip(colon + 1),
            },
        )
    }
}

/// Upper-cases the characters of `v`.
fn upper(v: &Vec<char>) -> (r: Vec<char>)
    ensures
        r@ == upper_of(v@),
{
    let s = string_of(v);
    let u = to_upper(s.as_str());
    chars_of(u.as_str())
}

/// Reads a property line: its name, parameters and value.
pub fn parse_property_line(line: &Vec<char>) -> (r: Option<Property>)
    ensures
        r is None <==> property_of(line@) is None,
        r matches Some(p) ==> property_of(line@) == Some(p.view()),
{
    let colon = index_from(line, ':', 0);
    if colon >= line.len() {
        return None;
    }
    proof {
        crate::text::lemma_find_from_bounds(line@, ':', 0);
    }
    let left = slice(line, 0, colon);
    let value = slice(line, colon + 1, line.len());
    assert(left@ =~= line@.take(colon as int));
    assert(value@ =~= line@.skip(colon + 1));
    let parts = split(&left, ';');
    let ghost ps = views(parts@);
    let name = upper(&trim(&parts[0]));
    let mut params: Vec<(Vec<char>, Vec<char>)> = Vec::new();
    let ghost rest = ps.skip(1);
    assert(rest.take(0) =~= Seq::<Seq<char>>::empty());
    assert(params@.map_values(|p: (Vec<char>, Vec<char>)| (p.0@, p.1@)) =~= params_of(rest.take(0)));
    let mut i: usize = 1;
    while i < parts.len()
        invariant
            1 <= i <= parts.len(),
            ps == views(parts@),
            rest == ps.skip(1),
            params@.map_values(|p: (Vec<char>, Vec<char>)| (p.0@, p.1@)) == params_of(rest.take(i - 1)),
        decreases parts.len() - i,
    {
        let part = &parts[i];
        assert(rest.take(i as int).drop_last() =~= rest.take(i - 1));
        assert(rest.take(i as int).last() == part@);
        let e = index_from(part, '=', 0);
        proof {
            crate::text::lemma_find_from_bounds(part@, '=', 0);
        }
        if e < part.len() {
            let key = upper(&trim(&slice(part, 0, e)));
            let val = trim(&slice(part, e + 1, part.len()));
            assert(part@.subrange(0, e as int) =~= part@.take(e as int));
            assert(part@.subrange(e + 1, part@.len() as int) =~= part@.skip(e + 1));
            let ghost before = params@;
            params.push((key, val));
            assert(params@.map_values(|p: (Vec<char>, Vec<char>)| (p.0@, p.1@)) =~= before.map_values(
                |p: (Vec<char>, Vec<char>)| (p.0@, p.1@),
            ).push((key@, val@)));
        }
        i = i + 1;
    }
    assert(rest.take(parts.len() - 1) =~= rest);
    Some(Property { name, params, value })
}

/// The value of the last parameter named `key`.
pub open spec fn param_value(params: Seq<(Seq<char>, Seq<char>)>, key: Seq<char>) -> Option<Seq<char>>
    decreases params.len(),
{
    if params.len() == 0 {
        None
    } else if params.last().0 == key {
        Some(params.last().1)
    } else {
        param_value(params.drop_last(), key)
    }
}

/// Finds the value of the last parameter named `key`.
fn find_param<'a>(params: &'a Vec<(Vec<char>, Vec<char>)>, key: &str) -> (r: Option<&'a Vec<char>>)
    ensures
        r matches Some(v) ==> param_value(
            params@.map_values(|p: (Vec<char>, Vec<char>)| (p.0@, p.1@)),
            key@,
        ) == Some(v@),
        r is None ==> param_value(params@.map_values(|p: (Vec<char>, Vec<char>)| (p.0@, p.1@)), key@)
            is None,
{
    let ghost all = params@.map_values(|p: (Vec<char>, Vec<char>)| (p.0@, p.1@));
    let mut i = params.len();
    assert(all.take(i as int) =~= all);
    while i > 0
        invariant
            i <= params.len(),
            all == params@.map_values(|p: (Vec<char>, Vec<char>)| (p.0@, p.1@)),
            param_value(all, key@) == param_value(all.take(i as int), key@),
        decreases i,
    {
        let entry = &params[i - 1];
        assert(all.take(i as int).last() == (entry.0@, entry.1@));
        assert(all.take(i as int).drop_last() =~= all.take(i - 1));
        if is_text(&entry.0, key) {
            return Some(&entry.1);
        }
        i = i - 1;
    }
    None
}

/// Whether a value is eight digits, the shape of a date such as `20260224`.
pub open spec fn looks_like_date_spec(v: Seq<char>) -> bool {
    v.len() == 8 && all_digits(v)
}

/// Whether a value is eight digits, the shape of a date such as `20260224`.
pub fn looks_like_date(v: &Vec<char>) -> (r: bool)
    ensures
        r == looks_like_date_spec(v@),
{
    if v.len() != 8 {
        return false;
    }
    let mut i: usize = 0;
    while i < 8
        invariant
            v.len() == 8,
            i <= 8,
            forall|k: int| 0 <= k < i ==> is_digit(#[trigger] v@[k]),
        decreases 8 - i,
    {
        if !('0' <= v[i] && v[i] <= '9') {
            return false;
        }
        i = i + 1;
    }
    true
}

/// A feed's date and time without a zone: `YYYYMMDDTHHMMSS`, else `YYYYMMDDTHHMM`.
pub open spec fn ical_datetime(v: Seq<char>) -> Option<i64> {
    match datetime_parse(v, "%Y%m%dT%H%M%S"@) {
        Some(w) => Some(w),
        None => datetime_parse(v, "%Y%m%dT%H%M"@),
    }
}

/// When a `DTSTART` or `DTEND` value says: a date where the `VALUE` parameter says
/// `DATE` or the value is eight digits; an instant in UTC where it ends in `Z`;
/// else a local reading.
pub open spec fn event_time_of(value: Seq<char>, params: Seq<(Seq<char>, Seq<char>)>) -> Option<EventTime> {
    let marked = match param_value(params, "VALUE"@) {
        Some(t) => upper_of(t) == "DATE"@,
        None => false,
    };
    if marked || looks_like_date_spec(value) {
        match date_parse(value, "%Y%m%d"@) {
            Some(w) => Some(EventTime::Date((w / DAY_SECS) as i64)),
            None => None,
        }
    } else if has_suffix(value, "Z"@) {
        match ical_datetime(value.drop_last()) {
            Some(u) => Some(EventTime::Utc(u)),
            None => None,
        }
    } else {
        match ical_datetime(value) {
            Some(w) => Some(EventTime::Floating(w)),
            None => None,
        }
    }
}

fn read_ical_datetime(v: &Vec<char>) -> (r: Option<i64>)
    ensures
        r == ical_datetime(v@),
        r matches Some(w) ==> chrono_span(w as int),
{
    let s = string_of(v);
    match parse_datetime(s.as_str(), "%Y%m%dT%H%M%S") {
        Some(w) => Some(w),
        None => parse_datetime(s.as_str(), "%Y%m%dT%H%M"),
    }
}

/// Reads a `DTSTART` or `DTEND` value.
pub fn parse_event_time(value: &Vec<char>, params: &Vec<(Vec<char>, Vec<char>)>) -> (r: Option<EventTime>)
    ensures
        r == event_time_of(value@, params@.map_values(|p: (Vec<char>, Vec<char>)| (p.0@, p.1@))),
        r matches Some(EventTime::Date(d)) ==> -200_000_000 < d < 200_000_000,
        r matches Some(EventTime::Utc(u)) ==> chrono_span(u as int),
        r matches Some(EventTime::Floating(w)) ==> chrono_span(w as int),
{
    let marked = match find_param(params, "VALUE") {
        Some(t) => is_text(&upper(t), "DATE"),
        None => false,
    };
    if marked || looks_like_date(value) {
        let s = string_of(value);
        match parse_date(s.as_str(), "%Y%m%d") {
            Some(w) => Some(EventTime::Date(w / DAY_SECS)),
            None => None,
        }
    } else if ends_with(value, "Z") {
        proof {
            reveal_strlit("Z");
        }
        let body = slice(value, 0, value.len() - 1);
        assert(body@ =~= value@.drop_last());
        match read_ical_datetime(&body) {
            Some(u) => Some(EventTime::Utc(u)),
            None => None,
        }
    } else {
        match read_ical_datetime(value) {
            Some(w) => Some(EventTime::Floating(w)),
            None => None,
        }
    }
}

/// What an escape `\c` stands for: `\n` and `\N` a line feed, `\,` `\;` and `\\`
/// the character after the backslash; nothing for any other character.
pub open spec fn escaped_char(c: char) -> Option<char> {
    if c == 'n' || c == 'N' {
        Some('\n')
    } else if c == ',' || c == ';' || c == '\\' {
        Some(c)
    } else {
        None
    }
}

/// A text with its escapes undone in one pass from left to right; a backslash
/// that starts no escape stays as it is.
pub open spec fn unescaped(s: Seq<char>) -> Seq<char>
    decreases s.len(),
{
    if s.len() == 0 {
        s
    } else if s.len() >= 2 && s[0] == '\\' && escaped_char(s[1]) is Some {
        seq![escaped_char(s[1])->0] + unescaped(s.skip(2))
    } else {
        seq![s[0]] + unescaped(s.skip(1))
    }
}

fn escape_of(c: char) -> (r: Option<char>)
    ensures
        r == escaped_char(c),
{
    if c == 'n' || c == 'N' {
        Some('\n')
    } else if c == ',' || c == ';' || c == '\\' {
        Some(c)
    } else {
        None
    }
}

/// Undoes the escapes of a text value.
pub fn unescape_ical_text(v: &Vec<char>) -> (r: Vec<char>)
    ensures
        r@ == unescaped(v@),
{
    let mut out: Vec<char> = Vec::new();
    let mut i: usize = 0;
    assert(v@.skip(0) =~= v@);
    while i < v.len()
        invariant
            i <= v.len(),
            out@ + unescaped(v@.skip(i as int)) == unescaped(v@),
        decreases v.len() - i,
    {
        let ghost rest = v@.skip(i as int);
        let esc = if i + 1 < v.len() && v[i] == '\\' {
            escape_of(v[i + 1])
        } else {
            None
        };
        match esc {
            Some(c) => {
                assert(rest.skip(2) =~= v@.skip(i + 2));
                out.push(c);
                assert(out@ + unescaped(v@.skip(i + 2)) =~= out@.drop_last() + unescaped(rest));
                i = i + 2;
            },
            None => {
                assert(rest.skip(1) =~= v@.skip(i + 1));
                out.push(v[i]);
                assert(out@ + unescaped(v@.skip(i + 1)) =~= out@.drop_last() + unescaped(rest));
                i = i + 1;
            },
        }
    }
    assert(out@ =~= unescaped(v@));
    out
}

/// What a property inside an event sets.
pub open spec fn event_step(e: EventModel, p: PropertyModel) -> EventModel {
    if p.name == "UID"@ {
        EventModel { uid: Some(p.value), ..e }
    } else if p.name == "SUMMARY"@ {
        EventModel { summary: Some(unescaped(p.value)), ..e }
    } else if p.name == "URL"@ {
        EventModel { url: Some(p.value), ..e }
    } else if p.name == "X-GOOGLE-CONFERENCE"@ {
        EventModel { conference_url: Some(p.value), ..e }
    } else if p.name == "DTSTART"@ {
        EventModel { starts_at: event_time_of(p.value, p.params), ..e }
    } else if p.name == "DTEND"@ {
        EventModel { ends_at: event_time_of(p.value, p.params), ..e }
    } else {
        e
    }
}

/// What one logical line does to a feed's reading: `BEGIN:VEVENT` opens an event,
/// `END:VEVENT` closes it, properties inside an event fill it in, and outside
/// events the first `X-WR-CALNAME` names the calendar.
pub open spec fn feed_step(st: FeedState, line: Seq<char>) -> FeedState {
    match property_of(line) {
        None => st,
        Some(p) => property_step(st, p),
    }
}

/// What one property does to a feed's reading.
pub open spec fn property_step(st: FeedState, p: PropertyModel) -> FeedState {
    if p.name == "BEGIN"@ && p.value == "VEVENT"@ {
        FeedState { current: Some(empty_event()), ..st }
    } else if p.name == "END"@ && p.value == "VEVENT"@ {
        match st.current {
            Some(e) => FeedState { events: st.events.push(e), current: None, ..st },
            None => st,
        }
    } else {
        match st.current {
            Some(e) => FeedState { current: Some(event_step(e, p)), ..st },
            None => if p.name == "X-WR-CALNAME"@ && st.name.len() == 0 {
                FeedState { name: unescaped(p.value), ..st }
            } else {
                st
            },
        }
    }
}

/// A feed's reading after the given logical lines.
pub open spec fn feed_fold(lines: Seq<Seq<char>>) -> FeedState
    decreases lines.len(),
{
    if lines.len() == 0 {
        FeedState { name: Seq::empty(), events: Seq::empty(), current: None }
    } else {
        feed_step(feed_fold(lines.drop_last()), lines.last())
    }
}

/// The name and events of a feed's text.
pub open spec fn feed_of(content: Seq<char>) -> (Seq<char>, Seq<EventModel>) {
    let st = feed_fold(unfolded(content));
    (st.name, st.events)
}

/// The views of a run of raw events.
pub open spec fn event_views(s: Seq<RawEvent>) -> Seq<EventModel> {
    s.map_values(|e: RawEvent| e.view())
}

/// Fills in an event from one of its properties, named in upper case.
pub fn fill_event(e: &mut RawEvent, p: Property)
    requires
        times_in_span(old(e).view()),
    ensures
        final(e).view() == event_step(old(e).view(), p.view()),
        times_in_span(final(e).view()),
{
    let ghost pv = p.view();
    if is_text(&p.name, "UID") {
        e.uid = Some(string_of(&p.value));
    } else if is_text(&p.name, "SUMMARY") {
        e.summary = Some(string_of(&unescape_ical_text(&p.value)));
    } else if is_text(&p.name, "URL") {
        e.url = Some(string_of(&p.value));
    } else if is_text(&p.name, "X-GOOGLE-CONFERENCE") {
        e.conference_url = Some(string_of(&p.value));
    } else if is_text(&p.name, "DTSTART") {
        e.starts_at = parse_event_time(&p.value, &p.params);
    } else if is_text(&p.name, "DTEND") {
        e.ends_at = parse_event_time(&p.value, &p.params);
    }
}

/// A feed being read: the calendar's name so far, the events closed so far, and
/// the event open now, if any.
pub struct FeedReader {
    pub name: Vec<char>,
    pub events: Vec<RawEvent>,
    pub current: Option<RawEvent>,
}

impl FeedReader {
    pub open spec fn view(&self) -> FeedState {
        FeedState {
            name: self.name@,
            events: event_views(self.events@),
            current: match self.current {
                Some(e) => Some(e.view()),
                None => None,
            },
        }
    }

    /// Whether every time read so far lies in chrono's span.
    pub open spec fn in_span(&self) -> bool {
        &&& forall|k: int| 0 <= k < self.events@.len() ==> times_in_span(#[trigger] self.events@[k].view())
        &&& self.current matches Some(e) ==> times_in_span(e.view())
    }

    /// A reader before any line.
    pub fn new() -> (r: FeedReader)
        ensures
            r.view() == (FeedState { name: Seq::empty(), events: Seq::empty(), current: None }),
            r.in_span(),
    {
        let r = FeedReader { name: Vec::new(), events: Vec::new(), current: None };
        assert(event_views(r.events@) =~= Seq::<EventModel>::empty());
        r
    }

    /// Reads one property, named in upper case.
    pub fn apply(&mut self, p: Property)
        requires
            old(self).in_span(),
        ensures
            final(self).view() == property_step(old(self).view(), p.view()),
            final(self).in_span(),
    {
        if is_text(&p.name, "BEGIN") && is_text(&p.value, "VEVENT") {
            self.current = Some(RawEvent::empty());
        } else if is_text(&p.name, "END") && is_text(&p.value, "VEVENT") {
            let mut closed: Option<RawEvent> = None;
            std::mem::swap(&mut closed, &mut self.current);
            match closed {
                Some(e) => {
                    let ghost before = event_views(self.events@);
                    self.events.push(e);
                    assert(event_views(self.events@) =~= before.push(e.view()));
                },
                None => {},
            }
        } else {
            let mut open: Option<RawEvent> = None;
            std::mem::swap(&mut open, &mut self.current);
            match open {
                Some(mut e) => {
                    fill_event(&mut e, p);
                    self.current = Some(e);
                },
                None => {
                    if is_text(&p.name, "X-WR-CALNAME") && self.name.len() == 0 {
                        self.name = unescape_ical_text(&p.value);
                    }
                },
            }
        }
    }
}

/// Reads a feed: its calendar name and its events, in feed order.
pub fn parse_ical_feed(content: &str) -> (r: ParsedFeed)
    ensures
        r.calendar_name@ == feed_of(content@).0,
        event_views(r.events@) == feed_of(content@).1,
        forall|k: int| 0 <= k < r.events@.len() ==> times_in_span(#[trigger] r.events@[k].view()),
{
    let lines = unfold_lines(content);
    let ghost ls = views(lines@);
    let mut reader = FeedReader::new();
    assert(ls.take(0) =~= Seq::<Seq<char>>::empty());
    for i in 0..lines.len()
        invariant
            ls == views(lines@),
            ls == unfolded(content@),
            feed_fold(ls.take(i as int)) == reader.view(),
            reader.in_span(),
    {
        assert(ls.take(i + 1).drop_last() =~= ls.take(i as int));
        assert(ls.take(i + 1).last() == lines@[i as int]@);
        match parse_property_line(&lines[i]) {
            None => {},
            Some(p) => reader.apply(p),
        }
    }
    assert(ls.take(lines.len() as int) =~= ls);
    ParsedFeed { calendar_name: string_of(&reader.name), events: reader.events }
}

/// Today on the local calendar: its day number and the instants it begins and ends.
#[derive(Clone, Copy, Debug, PartialEq, Eq)]
pub struct DayWindow {
    pub today: i64,
    pub start: i64,
    pub end: i64,
}

impl DayWindow {
    pub open spec fn wf(self) -> bool {
        &&& chrono_span(self.start as int)
        &&& self.end == self.start + DAY_SECS
        &&& -200_000_000 < self.today < 200_000_000
    }

    /// Today as `clock` has it: from the local midnight that begins it, for a day's length.
    pub fn for_clock(clock: Clock) -> (r: Option<DayWindow>)
        requires
            clock.wf(),
        ensures
            r matches Some(w) ==> w.wf() && w.today == clock.today && clock.today * DAY_SECS - DAY_SECS
                < w.start < clock.today * DAY_SECS + DAY_SECS,
    {
        match local_midnight(clock.today) {
            Some(m) => Some(DayWindow { today: clock.today, start: m.utc, end: m.utc + DAY_SECS }),
            None => None,
        }
    }
}

/// A link an event can open: the value trimmed, when it is an `http` or `https` URL.
pub open spec fn event_url_of(v: Seq<char>) -> Option<Seq<char>> {
    let t = trim_of(v);
    if has_prefix(t, "http://"@) || has_prefix(t, "https://"@) {
        Some(t)
    } else {
        None
    }
}

/// The link an event opens: its conferencing link where that is a web URL, else its URL.
pub open spec fn open_url_of(m: EventModel) -> Option<Seq<char>> {
    let conference = match m.conference_url {
        Some(c) => event_url_of(c),
        None => None,
    };
    match conference {
        Some(c) => Some(c),
        None => match m.url {
            Some(u) => event_url_of(u),
            None => None,
        },
    }
}

/// An event's title: its summary, else `(Untitled event)`.
pub open spec fn title_of(m: EventModel) -> Seq<char> {
    match m.summary {
        Some(s) => s,
        None => "(Untitled event)"@,
    }
}

/// An event's identifier: its UID, else its title and when it starts.
pub open spec fn id_of(m: EventModel, start_hint: Seq<char>) -> Seq<char> {
    match m.uid {
        Some(u) => u,
        None => title_of(m) + "-"@ + start_hint,
    }
}

/// Trims a link and keeps it when it is an `http` or `https` URL.
pub fn normalize_event_url(value: &str) -> (r: Option<String>)
    ensures
        opt_view(r) == event_url_of(value@),
{
    let t = trim(&chars_of(value));
    if starts_with(&t, "http://") || starts_with(&t, "https://") {
        Some(string_of(&t))
    } else {
        None
    }
}

fn event_url(v: &Option<String>) -> (r: Option<String>)
    ensures
        opt_view(r) == (match opt_view(*v) {
            Some(c) => event_url_of(c),
            None => None,
        }),
{
    match v {
        Some(x) => normalize_event_url(x.as_str()),
        None => None,
    }
}

/// Whether an all-day event from `start_day` up to, not including, `end_day` covers `today`.
pub open spec fn covers_day(start_day: int, end_day: int, today: int) -> bool {
    start_day <= today < end_day
}

/// Whether an event from `start` to `end` meets the day: it starts before the day
/// ends and ends after the day starts.
pub open spec fn meets_window(start: int, end: int, w: DayWindow) -> bool {
    start < w.end && end > w.start
}

/// What a timed event shows: `HH:MM-HH:MM` in local time, or its start alone when
/// it does not end after it starts.
pub open spec fn timed_text(start: LocalInstant, end: LocalInstant) -> Seq<char> {
    if end.utc > start.utc {
        clock_shown(start.wall as int) + "-"@ + clock_shown(end.wall as int)
    } else {
        clock_shown(start.wall as int)
    }
}

/// An all-day event of one day covers exactly that day.
pub proof fn lemma_one_day_event(day: int, today: int)
    ensures
        covers_day(day, day + 1, today) <==> today == day,
{
}

/// The local reading of a start or end time that is not a whole day.
fn resolve_time(t: EventTime) -> (r: Option<LocalInstant>)
    requires
        time_in_span(t),
    ensures
        r matches Some(li) ==> li.wf(),
        t matches EventTime::Utc(u) ==> (r matches Some(li) ==> li.utc == u),
        t matches EventTime::Floating(w) ==> (r matches Some(li) ==> li.wall == w),
        t is Date ==> r is None,
{
    match t {
        EventTime::Utc(u) => local_instant(u),
        EventTime::Floating(w) => local_reading(w),
        EventTime::Date(_) => None,
    }
}

/// Whether a raw event's times lie in chrono's span, as the feed reader leaves them.
pub open spec fn times_in_span(m: EventModel) -> bool {
    &&& (m.starts_at matches Some(t) ==> time_in_span(t))
    &&& (m.ends_at matches Some(t) ==> time_in_span(t))
}

pub open spec fn time_in_span(t: EventTime) -> bool {
    match t {
        EventTime::Date(d) => -200_000_000 < d < 200_000_000,
        EventTime::Utc(u) => chrono_span(u as int),
        EventTime::Floating(w) => chrono_span(w as int),
    }
}

fn time_in_span_check(t: EventTime) -> (r: bool)
    ensures
        r == time_in_span(t),
{
    match t {
        EventTime::Date(d) => -200_000_000 < d && d < 200_000_000,
        EventTime::Utc(u) => -9_000_000_000_000 < u && u < 9_000_000_000_000,
        EventTime::Floating(x) => -9_000_000_000_000 < x && x < 9_000_000_000_000,
    }
}

/// Whether `e` is how the raw event `m` shows on the day `w`.
pub open spec fn placed(e: CalendarEvent, m: EventModel, w: DayWindow) -> bool {
    &&& e.title@ == title_of(m)
    &&& opt_view(e.open_url) == open_url_of(m)
    &&& e.start_at matches Some(s) && s.wf()
    &&& e.end_at matches Some(x) && x.wf()
    &&& match m.starts_at {
        Some(EventTime::Date(d)) => {
            &&& e.display_time@ == "All day"@
            &&& e.event_id@ == id_of(m, shown(d * DAY_SECS, "%Y-%m-%d"@))
            &&& e.start_at->0.wall == d * DAY_SECS
            &&& (m.ends_at matches Some(EventTime::Date(x)) ==> e.end_at->0.wall == x * DAY_SECS)
            &&& (m.ends_at is None ==> e.end_at->0.wall == (d + 1) * DAY_SECS)
            &&& d <= w.today
            &&& (m.ends_at matches Some(EventTime::Date(x)) ==> w.today < x)
            &&& (m.ends_at is None ==> w.today < d + 1)
        },
        Some(t) => {
            let s = e.start_at->0;
            let x = e.end_at->0;
            &&& meets_window(s.utc as int, x.utc as int, w)
            &&& e.display_time@ == timed_text(s, x)
            &&& e.event_id@ == id_of(m, shown(s.utc as int, "%Y-%m-%dT%H:%M:%S+00:00"@))
            &&& (t matches EventTime::Utc(u) ==> s.utc == u)
            &&& (t matches EventTime::Floating(fw) ==> s.wall == fw)
            &&& (m.ends_at matches Some(EventTime::Utc(v)) ==> x.utc == v)
            &&& (m.ends_at matches Some(EventTime::Date(en)) ==> x.wall == en * DAY_SECS)
            &&& (m.ends_at is None ==> x.utc == s.utc + 3600)
        },
        None => false,
    }
}

fn title_text(summary: Option<String>) -> (r: String)
    ensures
        r@ == (match opt_view(summary) {
            Some(s) => s,
            None => "(Untitled event)"@,
        }),
{
    match summary {
        Some(s) => s,
        None => "(Untitled event)".to_string(),
    }
}

fn event_id_text(uid: Option<String>, title: &String, hint: String) -> (r: String)
    ensures
        r@ == (match opt_view(uid) {
            Some(u) => u,
            None => title@ + "-"@ + hint@,
        }),
{
    match uid {
        Some(u) => u,
        None => {
            let mut r = title.clone();
            r.append("-");
            r.append(hint.as_str());
            r
        },
    }
}

/// Whether `e` is the all-day event that `m` makes from day `d`, between the
/// instants `s` and `x`.
pub open spec fn all_day_event(e: CalendarEvent, m: EventModel, d: i64, s: LocalInstant, x: LocalInstant) -> bool {
    &&& e.title@ == title_of(m)
    &&& opt_view(e.open_url) == open_url_of(m)
    &&& e.event_id@ == id_of(m, shown(d * DAY_SECS, "%Y-%m-%d"@))
    &&& e.start_at == Some(s)
    &&& e.end_at == Some(x)
    &&& e.display_time@ == "All day"@
}

/// Whether `e` is the timed event that `m` makes from `s` to `x`.
pub open spec fn timed_event(e: CalendarEvent, m: EventModel, s: LocalInstant, x: LocalInstant) -> bool {
    &&& e.title@ == title_of(m)
    &&& opt_view(e.open_url) == open_url_of(m)
    &&& e.event_id@ == id_of(m, shown(s.utc as int, "%Y-%m-%dT%H:%M:%S+00:00"@))
    &&& e.start_at == Some(s)
    &&& e.end_at == Some(x)
    &&& e.display_time@ == timed_text(s, x)
}

/// Places an all-day event from day `d` up to, not including, `end_day`, whose
/// local midnights fall at `start_at` and `end_at`: it shows exactly when it covers
/// `today`.
pub fn place_all_day(
    raw: RawEvent,
    d: i64,
    end_day: i64,
    start_at: LocalInstant,
    end_at: LocalInstant,
    today: i64,
) -> (r: Option<CalendarEvent>)
    requires
        -200_000_000 < d < 200_000_000,
    ensures
        r is Some <==> covers_day(d as int, end_day as int, today as int),
        r matches Some(e) ==> all_day_event(e, raw.view(), d, start_at, end_at),
{
    if !(d <= today && today < end_day) {
        return None;
    }
    let open_url = match event_url(&raw.conference_url) {
        Some(c) => Some(c),
        None => event_url(&raw.url),
    };
    let title = title_text(raw.summary);
    let hint = show_wall(d * DAY_SECS, "%Y-%m-%d");
    let event_id = event_id_text(raw.uid, &title, hint);
    Some(
        CalendarEvent {
            event_id,
            title,
            start_at: Some(start_at),
            end_at: Some(end_at),
            display_time: "All day".to_string(),
            open_url,
        },
    )
}

/// Places a timed event from `start` to `end`: it shows exactly when it meets the
/// day `w`, as `HH:MM-HH:MM` in local time, or its start alone when it does not
/// end after it starts.
pub fn place_timed(raw: RawEvent, start: LocalInstant, end: LocalInstant, w: DayWindow) -> (r: Option<
    CalendarEvent,
>)
    ensures
        r is Some <==> meets_window(start.utc as int, end.utc as int, w),
        r matches Some(e) ==> timed_event(e, raw.view(), start, end),
{
    if start.utc >= w.end || end.utc <= w.start {
        return None;
    }
    let open_url = match event_url(&raw.conference_url) {
        Some(c) => Some(c),
        None => event_url(&raw.url),
    };
    let title = title_text(raw.summary);
    let mut display_time = show_wall(start.wall, "%H:%M");
    if end.utc > start.utc {
        display_time.append("-");
        display_time.append(show_wall(end.wall, "%H:%M").as_str());
    }
    let hint = show_wall(start.utc, "%Y-%m-%dT%H:%M:%S+00:00");
    let event_id = event_id_text(raw.uid, &title, hint);
    Some(CalendarEvent { event_id, title, start_at: Some(start), end_at: Some(end), display_time, open_url })
}

/// Places a raw event on the day `w`: an all-day event shows when it covers the
/// day, a timed event when it meets the day; nothing for an event without a start.
/// An event without an end lasts a day when all-day, an hour when timed. Local
/// readings and midnights come from the local clock; where it has none, the event
/// is left out.
pub fn raw_event_to_calendar_event(raw: RawEvent, w: DayWindow) -> (r: Option<CalendarEvent>)
    requires
        w.wf(),
    ensures
        raw.starts_at is None ==> r is None,
        !times_in_span(raw.view()) ==> r is None,
        r matches Some(e) ==> placed(e, raw.view(), w),
        raw.starts_at matches Some(EventTime::Date(d)) ==> (raw.ends_at matches Some(EventTime::Date(x))
            ==> (!covers_day(d as int, x as int, w.today as int) ==> r is None)),
        raw.starts_at matches Some(EventTime::Date(d)) ==> (raw.ends_at is None ==> (!covers_day(
            d as int,
            d + 1,
            w.today as int,
        ) ==> r is None)),
        raw.starts_at matches Some(EventTime::Utc(u)) ==> (raw.ends_at matches Some(EventTime::Utc(v))
            ==> (!meets_window(u as int, v as int, w) ==> r is None)),
{
    let ghost m = raw.view();
    let spans = match raw.starts_at {
        Some(t) => time_in_span_check(t),
        None => true,
    } && match raw.ends_at {
        Some(t) => time_in_span_check(t),
        None => true,
    };
    if !spans {
        return None;
    }
    let start = match raw.starts_at {
        Some(s) => s,
        None => return None,
    };
    match start {
        EventTime::Date(d) => {
            let end_day = match raw.ends_at {
                Some(EventTime::Date(x)) => x,
                Some(EventTime::Utc(u)) => match local_instant(u) {
                    Some(li) => crate::time::day_number(li.wall),
                    None => return None,
                },
                Some(EventTime::Floating(x)) => match local_reading(x) {
                    Some(li) => crate::time::day_number(li.wall),
                    None => d + 1,
                },
                None => d + 1,
            };
            if !(d <= w.today && w.today < end_day) {
                return None;
            }
            if end_day >= 200_000_000 {
                return None;
            }
            let start_at = match local_midnight(d) {
                Some(li) => li,
                None => return None,
            };
            let end_at = match local_midnight(end_day) {
                Some(li) => li,
                None => return None,
            };
            place_all_day(raw, d, end_day, start_at, end_at, w.today)
        },
        t => {
            let start_at = match resolve_time(t) {
                Some(li) => li,
                None => return None,
            };
            let hour_later = start_at.utc + 3600;
            let end_at = match raw.ends_at {
                Some(EventTime::Date(x)) => match local_midnight(x) {
                    Some(li) => li,
                    None => return None,
                },
                Some(EventTime::Utc(v)) => match local_instant(v) {
                    Some(li) => li,
                    None => return None,
                },
                Some(EventTime::Floating(x)) => match local_reading(x) {
                    Some(li) => li,
                    None => match local_instant(hour_later) {
                        Some(li) => li,
                        None => return None,
                    },
                },
                None => match local_instant(hour_later) {
                    Some(li) => li,
                    None => return None,
                },
            };
            place_timed(raw, start_at, end_at, w)
        },
    }
}

/// Whether `a` may stand before `b` in agenda order: by start instant, events
/// without a start last.
pub open spec fn event_le(a: CalendarEvent, b: CalendarEvent) -> bool {
    match (a.start_at, b.start_at) {
        (Some(x), Some(y)) => x.utc <= y.utc,
        (Some(_), None) => true,
        (None, Some(_)) => false,
        (None, None) => true,
    }
}

/// Whether `s` is in agenda order.
pub open spec fn events_sorted(s: Seq<CalendarEvent>) -> bool {
    forall|i: int, j: int| 0 <= i < j < s.len() ==> event_le(#[trigger] s[i], #[trigger] s[j])
}

/// Whether two events tie in agenda order.
pub open spec fn event_tied(a: CalendarEvent, b: CalendarEvent) -> bool {
    event_le(a, b) && event_le(b, a)
}

/// The events of `s` that tie with `x`, in the order of `s`.
pub open spec fn event_tie_class(s: Seq<CalendarEvent>, x: CalendarEvent) -> Seq<CalendarEvent> {
    s.filter(|e: CalendarEvent| event_tied(e, x))
}

proof fn lemma_event_tie_class_insert(s: Seq<CalendarEvent>, p: int, t: CalendarEvent, x: CalendarEvent)
    requires
        0 <= p <= s.len(),
        forall|k: int| 0 <= k < p ==> !event_le(t, #[trigger] s[k]),
    ensures
        event_tie_class(s.insert(p, t), x) == if event_tied(t, x) {
            seq![t] + event_tie_class(s, x)
        } else {
            event_tie_class(s, x)
        },
{
    let pred = |y: CalendarEvent| event_tied(y, x);
    let head = s.subrange(0, p);
    let tail = s.subrange(p, s.len() as int);
    assert(s =~= head + tail);
    assert(s.insert(p, t) == head.push(t) + tail);
    Seq::filter_distributes_over_add(head.push(t), tail, pred);
    Seq::filter_distributes_over_add(head, tail, pred);
    head.lemma_filter_push(t, pred);
    if event_tied(t, x) {
        assert forall|k: int| 0 <= k < head.len() implies !pred(#[trigger] head[k]) by {
            assert(head[k] == s[k]);
        }
        assert(head.all(|y: CalendarEvent| !pred(y)));
        head.lemma_all_neg_filter_empty(pred);
        assert(head.filter(pred) =~= Seq::<CalendarEvent>::empty());
        assert(head.filter(pred).push(t) + tail.filter(pred) =~= seq![t] + tail.filter(pred));
        assert(head.filter(pred) + tail.filter(pred) =~= tail.filter(pred));
    }
}

fn event_before_or_tied(a: &CalendarEvent, b: &CalendarEvent) -> (r: bool)
    ensures
        r == event_le(*a, *b),
{
    match (a.start_at, b.start_at) {
        (Some(x), Some(y)) => x.utc <= y.utc,
        (Some(_), None) => true,
        (None, Some(_)) => false,
        (None, None) => true,
    }
}

fn insert_event(out: &mut Vec<CalendarEvent>, e: CalendarEvent)
    requires
        events_sorted(old(out)@),
    ensures
        events_sorted(final(out)@),
        final(out)@.to_multiset() == old(out)@.to_multiset().insert(e),
        forall|x: CalendarEvent|
            #[trigger] event_tie_class(final(out)@, x) == if event_tied(e, x) {
                seq![e] + event_tie_class(old(out)@, x)
            } else {
                event_tie_class(old(out)@, x)
            },
{
    let mut p: usize = 0;
    while p < out.len() && !event_before_or_tied(&e, &out[p])
        invariant
            p <= out.len(),
            events_sorted(out@),
            forall|k: int| 0 <= k < p ==> event_le(#[trigger] out@[k], e),
            forall|k: int| 0 <= k < p ==> !event_le(e, #[trigger] out@[k]),
        decreases out.len() - p,
    {
        p = p + 1;
    }
    let ghost before = out@;
    proof {
        vstd::seq_lib::to_multiset_insert(before, p as int, e);
    }
    out.insert(p, e);
    proof {
        assert forall|x: CalendarEvent| #[trigger] event_tie_class(out@, x) == if event_tied(e, x) {
            seq![e] + event_tie_class(before, x)
        } else {
            event_tie_class(before, x)
        } by {
            assert(out@ == before.insert(p as int, e));
            lemma_event_tie_class_insert(before, p as int, e, x);
        }
        assert(out@ == before.insert(p as int, e));
        assert forall|i: int, j: int| 0 <= i < j < out@.len() implies event_le(
            #[trigger] out@[i],
            #[trigger] out@[j],
        ) by {
            if j < p {
                assert(out@[i] == before[i] && out@[j] == before[j]);
            } else if j == p {
                assert(out@[i] == before[i]);
            } else if i < p {
                assert(out@[i] == before[i] && out@[j] == before[j - 1]);
            } else if i == p {
                assert(out@[j] == before[j - 1]);
                assert(event_le(e, before[p as int]));
            } else {
                assert(out@[i] == before[i - 1] && out@[j] == before[j - 1]);
            }
        }
    }
}

/// Puts events in agenda order, keeping tied events in the order they came in.
pub fn sort_events(events: &mut Vec<CalendarEvent>)
    ensures
        events_sorted(final(events)@),
        final(events)@.to_multiset() == old(events)@.to_multiset(),
        forall|x: CalendarEvent| #[trigger] event_tie_class(final(events)@, x) == event_tie_class(old(events)@, x),
{
    let ghost all = events@;
    let ghost start = events@.to_multiset();
    let mut out: Vec<CalendarEvent> = Vec::new();
    proof {
        broadcast use vstd::multiset::group_multiset_axioms;
        broadcast use vstd::seq_lib::group_to_multiset_ensures;
        assert(out@.to_multiset().len() == 0);
        assert(out@.to_multiset() =~= vstd::multiset::Multiset::empty());
        assert(out@.to_multiset().add(events@.to_multiset()) =~= start);
    }
    proof {
        broadcast use vstd::seq_lib::group_filter_ensures;
        assert forall|x: CalendarEvent| #[trigger] event_tie_class(out@, x) == event_tie_class(all.skip(all.len() as int), x) by {
            assert(out@ =~= Seq::<CalendarEvent>::empty());
            assert(all.skip(all.len() as int) =~= Seq::<CalendarEvent>::empty());
        }
    }
    while events.len() > 0
        invariant
            events_sorted(out@),
            out@.to_multiset().add(events@.to_multiset()) == start,
            events@ == all.take(events@.len() as int),
            events@.len() <= all.len(),
            forall|x: CalendarEvent| #[trigger] event_tie_class(out@, x) == event_tie_class(all.skip(events@.len() as int), x),
        decreases events.len(),
    {
        let ghost prior = events@;
        let e = events.pop().unwrap();
        proof {
            assert(prior == events@.push(e));
            vstd::seq_lib::to_multiset_build(events@, e);
        }
        let ghost prior_out = out@;
        insert_event(&mut out, e);
        proof {
            broadcast use vstd::multiset::group_multiset_axioms;
            assert(out@.to_multiset().add(events@.to_multiset()) =~= prior_out.to_multiset().add(
                prior.to_multiset(),
            ));
            let n = events@.len() as int;
            assert(e == all[n]);
            assert(events@ =~= all.take(n));
            assert(all.skip(n) =~= seq![e] + all.skip(n + 1));
            assert forall|x: CalendarEvent| #[trigger] event_tie_class(out@, x) == event_tie_class(all.skip(n), x) by {
                let pred = |y: CalendarEvent| event_tied(y, x);
                Seq::filter_distributes_over_add(seq![e], all.skip(n + 1), pred);
                Seq::<CalendarEvent>::empty().lemma_filter_push(e, pred);
                assert(seq![e] =~= Seq::<CalendarEvent>::empty().push(e));
                assert(Seq::<CalendarEvent>::empty().filter(pred) =~= Seq::<CalendarEvent>::empty()) by {
                    broadcast use vstd::seq_lib::group_filter_ensures;
                }
                if event_tied(e, x) {
                    assert(seq![e].filter(pred) =~= seq![e]);
                } else {
                    assert(seq![e].filter(pred) =~= Seq::<CalendarEvent>::empty());
                    assert(Seq::<CalendarEvent>::empty() + all.skip(n + 1).filter(pred) =~= all.skip(n + 1).filter(pred));
                }
            }
        }
    }
    proof {
        broadcast use vstd::multiset::group_multiset_axioms;
        broadcast use vstd::seq_lib::group_to_multiset_ensures;
        assert(events@.to_multiset().len() == 0);
        assert(events@.to_multiset() =~= vstd::multiset::Multiset::empty());
        assert(out@.to_multiset() =~= start);
        assert(all.skip(0) =~= all);
    }
    *events = out;
}

/// The name a feed's section shows: the calendar's own name, else the account's.
pub open spec fn section_name(account: Seq<char>, calendar: Seq<char>) -> Seq<char> {
    if trim_of(calendar).len() == 0 {
        account
    } else {
        calendar
    }
}

/// The events of the placements that gave one, in order.
pub open spec fn somes(p: Seq<Option<CalendarEvent>>) -> Seq<CalendarEvent>
    decreases p.len(),
{
    if p.len() == 0 {
        Seq::empty()
    } else {
        match p.last() {
            Some(e) => somes(p.drop_last()).push(e),
            None => somes(p.drop_last()),
        }
    }
}

proof fn lemma_somes_len(p: Seq<Option<CalendarEvent>>)
    ensures
        somes(p).len() <= p.len(),
    decreases p.len(),
{
    if p.len() > 0 {
        lemma_somes_len(p.drop_last());
    }
}

/// Today's agenda from the placement of each feed event: the events placed, in
/// agenda order, those that tie kept in feed order.
pub fn agenda(placements: Vec<Option<CalendarEvent>>) -> (r: Vec<CalendarEvent>)
    ensures
        events_sorted(r@),
        r@.to_multiset() == somes(placements@).to_multiset(),
        forall|x: CalendarEvent| #[trigger] event_tie_class(r@, x) == event_tie_class(somes(placements@), x),
        r@.len() <= placements@.len(),
{
    let ghost all = placements@;
    let mut rest = placements;
    let n = rest.len();
    let mut pending: Vec<Option<CalendarEvent>> = Vec::new();
    while rest.len() > 0
        invariant
            rest@.len() + pending@.len() == n,
            n == all.len(),
            rest@ == all.take(rest@.len() as int),
            forall|k: int| 0 <= k < pending@.len() ==> #[trigger] pending@[k] == all[n - 1 - k],
        decreases rest.len(),
    {
        let e = rest.pop().unwrap();
        pending.push(e);
    }
    let mut events: Vec<CalendarEvent> = Vec::new();
    let mut i: usize = 0;
    assert(all.take(0) =~= Seq::<Option<CalendarEvent>>::empty());
    assert(events@ =~= somes(all.take(0)));
    while pending.len() > 0
        invariant
            i + pending@.len() == n,
            n == all.len(),
            forall|k: int| 0 <= k < pending@.len() ==> #[trigger] pending@[k] == all[n - 1 - k],
            events@ == somes(all.take(i as int)),
        decreases pending.len(),
    {
        let p = pending.pop().unwrap();
        assert(p == all[i as int]);
        assert(all.take(i + 1).drop_last() =~= all.take(i as int));
        assert(all.take(i + 1).last() == p);
        if let Some(e) = p {
            events.push(e);
        }
        i = i + 1;
    }
    assert(all.take(n as int) =~= all);
    let ghost unsorted = events@;
    sort_events(&mut events);
    proof {
        broadcast use vstd::seq_lib::group_to_multiset_ensures;
        lemma_somes_len(all);
        assert(events@.len() == events@.to_multiset().len());
        assert(unsorted.len() == unsorted.to_multiset().len());
    }
    events
}

/// Whether each placement is how the feed event at the same position shows on `w`.
pub open spec fn placements_of(p: Seq<Option<CalendarEvent>>, feed: Seq<EventModel>, w: DayWindow) -> bool {
    &&& p.len() == feed.len()
    &&& forall|j: int| 0 <= j < p.len() ==> ((#[trigger] p[j]) matches Some(e) ==> placed(e, feed[j], w))
    &&& forall|j: int| 0 <= j < p.len() ==> (feed[j].starts_at is None ==> (#[trigger] p[j]) is None)
}

/// Today's agenda of one feed, from the feed's text: each feed event placed on
/// today's local calendar at most once, in agenda order, under the calendar's
/// name. Nothing when the local clock never shows today's midnight.
pub fn calendar_section(account_name: String, body: &str, clock: Clock) -> (r: Option<
    CalendarEventSection,
>)
    requires
        clock.wf(),
    ensures
        r matches Some(sec) ==> {
            &&& sec.account_name@ == section_name(account_name@, feed_of(body@).0)
            &&& events_sorted(sec.events@)
            &&& sec.events@.len() <= feed_of(body@).1.len()
            &&& exists|w: DayWindow, p: Seq<Option<CalendarEvent>>|
                w.wf() && w.today == clock.today && placements_of(p, feed_of(body@).1, w)
                    && sec.events@.to_multiset() == somes(p).to_multiset() && (forall|x: CalendarEvent|
                    #[trigger] event_tie_class(sec.events@, x) == event_tie_class(somes(p), x))
        },
{
    let parsed = parse_ical_feed(body);
    let ghost feed = feed_of(body@).1;
    let name = if trim(&chars_of(parsed.calendar_name.as_str())).len() == 0 {
        account_name
    } else {
        parsed.calendar_name
    };
    let w = match DayWindow::for_clock(clock) {
        Some(w) => w,
        None => return None,
    };
    let mut raws = parsed.events;
    let ghost all = raws@;
    let n = raws.len();
    let mut pending: Vec<RawEvent> = Vec::new();
    while raws.len() > 0
        invariant
            raws@.len() + pending@.len() == n,
            n == all.len(),
            raws@ == all.take(raws@.len() as int),
            forall|k: int| 0 <= k < pending@.len() ==> #[trigger] pending@[k] == all[n - 1 - k],
        decreases raws.len(),
    {
        let e = raws.pop().unwrap();
        pending.push(e);
    }
    let mut placements: Vec<Option<CalendarEvent>> = Vec::new();
    while pending.len() > 0
        invariant
            w.wf(),
            placements@.len() + pending@.len() == n,
            n == all.len(),
            forall|k: int| 0 <= k < pending@.len() ==> #[trigger] pending@[k] == all[n - 1 - k],
            event_views(all) == feed,
            forall|j: int|
                0 <= j < placements@.len() ==> ((#[trigger] placements@[j]) matches Some(e) ==> placed(e, feed[j], w)),
            forall|j: int| 0 <= j < placements@.len() ==> (feed[j].starts_at is None ==> (#[trigger] placements@[j]) is None),
        decreases pending.len(),
    {
        let raw = pending.pop().unwrap();
        let i = placements.len();
        assert(raw == all[i as int]);
        assert(feed[i as int] == raw.view());
        let placed_event = raw_event_to_calendar_event(raw, w);
        placements.push(placed_event);
    }
    let ghost p = placements@;
    assert(placements_of(p, feed, w));
    let events = agenda(placements);
    let r = CalendarEventSection { account_name: name, events };
    assert(r.account_name@ == section_name(account_name@, feed_of(body@).0));
    Some(r)
}

} // verus!
