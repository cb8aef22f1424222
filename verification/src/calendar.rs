//! Calendar events: reading their time stamps and turning them into busy
//! intervals.

use vstd::prelude::*;
use vstd::string::StrSliceExecFns;
use vstd::string::StringExecFns;
use vstd::utf8::is_ascii_chars;
use crate::instant::Instant;
use crate::interval::BusyInterval;

verus! {

/// The instant, in seconds since the epoch, that `text` denotes when read as
/// an RFC 3339 date and time, or `None` where it is no such text.
pub uninterp spec fn rfc3339_seconds(text: Seq<char>) -> Option<i64>;

/// Parses with `chrono`'s `DateTime::parse_from_rfc3339` and reads the
/// result with `DateTime::timestamp`, which counts whole seconds: a seconds
/// field of 60 (a leap second) reads as the second before it. A text that
/// `chrono` rejects gives `None`.
///
/// The contract only gives the answer its name, `rfc3339_seconds`: parsing
/// depends on the text alone.
#[verifier::external_body]
fn parse_rfc3339(text: &str) -> (secs: Option<i64>)
    ensures
        secs == rfc3339_seconds(text@),
{
    match chrono::DateTime::parse_from_rfc3339(text) {
        Ok(moment) => Some(moment.timestamp()),
        Err(_) => None,
    }
}

/// Whether `a` and `b` hold the same text.
pub fn same_text(a: &str, b: &str) -> (same: bool)
    ensures
        same == (a@ == b@),
{
    let left = a.to_owned();
    let right = b.to_owned();
    left == right
}

/// Length of a calendar time stamp in UTC form: `YYYYMMDD`, a separator,
/// `HHMMSS` and the letter `Z`.
pub const STAMP_LEN: usize = 16;

/// Whether `s` has the shape of a UTC time stamp: sixteen ASCII characters, the
/// last of them `Z`. Nothing is asked of the ninth character, which
/// separates date and time.
pub open spec fn is_utc_stamp(s: Seq<char>) -> bool {
    &&& s.len() == STAMP_LEN
    &&& is_ascii_chars(s)
    &&& s[15] == 'Z'
}

/// The date and time fields of a UTC time stamp, written out as RFC 3339
/// text: `YYYY-MM-DDTHH:MM:SSZ`.
pub open spec fn rfc3339_form(s: Seq<char>) -> Seq<char> {
    s.subrange(0, 4) + seq!['-'] + s.subrange(4, 6) + seq!['-'] + s.subrange(6, 8) + seq!['T']
        + s.subrange(9, 11) + seq![':'] + s.subrange(11, 13) + seq![':'] + s.subrange(13, 15)
        + seq!['Z']
}

/// The instant that follows from what the RFC 3339 parser made of a time
/// stamp. The function `ics_instant` applies it to the parser's answer.
pub open spec fn instant_of(parsed: Option<i64>) -> Option<Instant> {
    match parsed {
        Some(secs) => Some(Instant { secs }),
        None => None,
    }
}

/// The instant that the time stamp `s` denotes. Text in any other form than
/// the UTC form denotes none, and neither does a UTC stamp whose fields are
/// no date and time.
pub open spec fn ics_instant(s: Seq<char>) -> Option<Instant> {
    if is_utc_stamp(s) {
        instant_of(rfc3339_seconds(rfc3339_form(s)))
    } else {
        None
    }
}

/// Turns the answer of the RFC 3339 parser into an instant.
pub fn instant_from_parsed(parsed: Option<i64>) -> (r: Option<Instant>)
    ensures
        r == instant_of(parsed),
{
    match parsed {
        Some(secs) => Some(Instant { secs }),
        None => None,
    }
}

/// Writes the fields of a UTC time stamp out as RFC 3339 text. Text that
/// does not have the shape of a UTC stamp gives `None`.
pub fn to_rfc3339(s: &str) -> (r: Option<String>)
    ensures
        is_utc_stamp(s@) ==> r is Some && r->0@ == rfc3339_form(s@),
        !is_utc_stamp(s@) ==> r is None,
{
    if !s.is_ascii() || s.unicode_len() != STAMP_LEN {
        return None;
    }
    if s.get_char(15) != 'Z' {
        return None;
    }
    proof {
        reveal_strlit("-");
        reveal_strlit("T");
        reveal_strlit(":");
        reveal_strlit("Z");
    }
    let mut text = String::from_str(s.substring_ascii(0, 4));
    text.append("-");
    text.append(s.substring_ascii(4, 6));
    text.append("-");
    text.append(s.substring_ascii(6, 8));
    text.append("T");
    text.append(s.substring_ascii(9, 11));
    text.append(":");
    text.append(s.substring_ascii(11, 13));
    text.append(":");
    text.append(s.substring_ascii(13, 15));
    text.append("Z");
    assert(text@ =~= rfc3339_form(s@));
    Some(text)
}

/// Reads a calendar time stamp such as `19960918T143000Z`.
///
/// Only the UTC form is read. Stamps with an offset, local ("floating")
/// times and dates without a time give `None`, as does a stamp in UTC form
/// whose digits are no date and time.
pub fn parse_ics_datetime(s: &str) -> (r: Option<Instant>)
    ensures
        r == ics_instant(s@),
{
    match to_rfc3339(s) {
        Some(text) => instant_from_parsed(parse_rfc3339(text.as_str())),
        None => None,
    }
}

/// One property line of a calendar event: its name and, where the line has
/// one, its value.
#[derive(Clone, Debug)]
pub struct EventProperty {
    pub name: String,
    pub value: Option<String>,
}

/// A calendar event, as the list of its property lines in file order.
#[derive(Clone, Debug)]
pub struct CalendarEvent {
    pub properties: Vec<EventProperty>,
}

/// The characters of an optional text.
pub open spec fn text_of(value: Option<&str>) -> Option<Seq<char>> {
    match value {
        Some(v) => Some(v@),
        None => None,
    }
}

/// Whether entry `i` is the first property of `props` called `name`.
pub open spec fn first_named(props: Seq<EventProperty>, name: Seq<char>, i: int) -> bool {
    &&& 0 <= i < props.len()
    &&& props[i].name@ == name
    &&& forall|j: int| 0 <= j < i ==> (#[trigger] props[j]).name@ != name
}

/// The value of the first property called `name`. There is none where no
/// property has that name, and none where the first one that has it carries
/// no value: later properties of the same name are not consulted.
pub open spec fn property_text(props: Seq<EventProperty>, name: Seq<char>) -> Option<Seq<char>> {
    if exists|i: int| first_named(props, name, i) {
        props[choose|i: int| first_named(props, name, i)].value_text()
    } else {
        None
    }
}

/// The busy interval between two optional bounds, as seen from a search
/// that begins at `search_start`. There is one only where both bounds are
/// known, the interval is not empty, and it does not end before the search
/// begins.
pub open spec fn bounded_interval(
    start: Option<Instant>,
    end: Option<Instant>,
    search_start: Instant,
) -> Option<BusyInterval> {
    match (start, end) {
        (Some(s), Some(e)) => if e@ >= search_start@ && s@ < e@ {
            Some(BusyInterval { start: s, end: e })
        } else {
            None
        },
        _ => None,
    }
}

/// Computes `bounded_interval`.
pub fn interval_from_bounds(start: Option<Instant>, end: Option<Instant>, search_start: Instant) -> (r:
    Option<BusyInterval>)
    ensures
        r == bounded_interval(start, end, search_start),
        r matches Some(b) ==> b.wf() && b.end@ >= search_start@,
{
    match (start, end) {
        (Some(s), Some(e)) => {
            if e.secs >= search_start.secs {
                BusyInterval::new(s, e)
            } else {
                None
            }
        },
        _ => None,
    }
}

impl EventProperty {
    /// The characters of the value, where there is one.
    pub open spec fn value_text(&self) -> Option<Seq<char>> {
        match self.value {
            Some(v) => Some(v@),
            None => None,
        }
    }

    /// A property with the given name and value.
    pub fn new(name: &str, value: Option<&str>) -> (p: EventProperty)
        ensures
            p.name@ == name@,
            p.value_text() == text_of(value),
    {
        let value = match value {
            Some(v) => Some(v.to_owned()),
            None => None,
        };
        EventProperty { name: name.to_owned(), value }
    }
}

/// Finds the value of the first property called `name`.
pub fn property_value<'a>(props: &'a Vec<EventProperty>, name: &str) -> (r: Option<&'a str>)
    ensures
        text_of(r) == property_text(props@, name@),
{
    let mut i: usize = 0;
    while i < props.len()
        invariant
            i <= props.len(),
            forall|j: int| 0 <= j < i ==> (#[trigger] props@[j]).name@ != name@,
        decreases props.len() - i,
    {
        if same_text(props[i].name.as_str(), name) {
            assert(first_named(props@, name@, i as int));
            assert forall|k: int| first_named(props@, name@, k) implies k == i by {
                if k < i {
                    assert(props@[k].name@ != name@);
                }
                if i < k {
                    assert(props@[i as int].name@ != name@);
                }
            }
            return match &props[i].value {
                Some(v) => Some(v.as_str()),
                None => None,
            };
        }
        i += 1;
    }
    assert forall|k: int| !first_named(props@, name@, k) by {
        if 0 <= k < props.len() {
            assert(props@[k].name@ != name@);
        }
    }
    None
}

impl CalendarEvent {
    /// The instant that the first property called `name` gives, where the
    /// event has such a property and its value is a UTC time stamp.
    pub open spec fn stamp(&self, name: Seq<char>) -> Option<Instant> {
        match property_text(self.properties@, name) {
            Some(text) => ics_instant(text),
            None => None,
        }
    }

    /// The busy interval that this event contributes to a search beginning at
    /// `search_start`: from its `DTSTART` to its `DTEND`.
    pub open spec fn busy_interval(&self, search_start: Instant) -> Option<BusyInterval> {
        bounded_interval(self.stamp("DTSTART"@), self.stamp("DTEND"@), search_start)
    }

    /// An event with the given property lines.
    pub fn new(properties: Vec<EventProperty>) -> (e: CalendarEvent)
        ensures
            e.properties@ == properties@,
    {
        CalendarEvent { properties }
    }

    /// Reads the instant that the first property called `name` gives.
    pub fn read_stamp(&self, name: &str) -> (r: Option<Instant>)
        ensures
            r == self.stamp(name@),
    {
        match property_value(&self.properties, name) {
            Some(text) => parse_ics_datetime(text),
            None => None,
        }
    }

    /// Computes `busy_interval`. An event with a missing or unreadable bound
    /// contributes nothing, and that is no error.
    pub fn to_busy_interval(&self, search_start: Instant) -> (r: Option<BusyInterval>)
        ensures
            r == self.busy_interval(search_start),
            r matches Some(b) ==> b.wf() && b.end@ >= search_start@,
    {
        let start = self.read_stamp("DTSTART");
        let end = self.read_stamp("DTEND");
        interval_from_bounds(start, end, search_start)
    }
}

/// `CalendarEvent::busy_interval` for a fixed search start, as a function
/// value.
pub open spec fn interval_of(search_start: Instant) -> spec_fn(CalendarEvent) -> Option<BusyInterval> {
    |e: CalendarEvent| e.busy_interval(search_start)
}

/// The busy intervals that `events` contribute, in the order of the events.
pub open spec fn busy_intervals(events: Seq<CalendarEvent>, search_start: Instant) -> Seq<BusyInterval> {
    events.filter_map(interval_of(search_start))
}

/// Events from several calendars count together: the intervals of two lists
/// of events put one after the other are the intervals of the first followed
/// by those of the second.
pub proof fn lemma_busy_intervals_concat(
    first: Seq<CalendarEvent>,
    second: Seq<CalendarEvent>,
    search_start: Instant,
)
    ensures
        busy_intervals(first + second, search_start) == busy_intervals(first, search_start)
            + busy_intervals(second, search_start),
    decreases second.len(),
{
    let f = interval_of(search_start);
    if second.len() == 0 {
        assert(first + second =~= first);
        assert(busy_intervals(first, search_start) + Seq::<BusyInterval>::empty()
            =~= busy_intervals(first, search_start));
    } else {
        lemma_busy_intervals_concat(first, second.drop_last(), search_start);
        assert((first + second).drop_last() =~= first + second.drop_last());
        assert((first + second).last() == second.last());
        match f(second.last()) {
            Some(b) => {
                assert(busy_intervals(first + second, search_start) =~= busy_intervals(
                    first,
                    search_start,
                ) + busy_intervals(second, search_start));
            },
            None => {},
        }
    }
}

/// Adds the busy intervals of `events` to those already collected, for a
/// search beginning at `search_start`. Calling it once per calendar gathers
/// the intervals of all calendars in one list.
pub fn extend_busy(busy: &mut Vec<BusyInterval>, events: &Vec<CalendarEvent>, search_start: Instant)
    ensures
        final(busy)@ == old(busy)@ + busy_intervals(events@, search_start),
{
    let ghost before = busy@;
    let mut i: usize = 0;
    assert(events@.take(0) =~= Seq::<CalendarEvent>::empty());
    assert(before + Seq::<BusyInterval>::empty() =~= before);
    while i < events.len()
        invariant
            i <= events.len(),
            busy@ == before + busy_intervals(events@.take(i as int), search_start),
        decreases events.len() - i,
    {
        proof {
            events@.lemma_filter_map_take_succ(interval_of(search_start), i as int);
        }
        match events[i].to_busy_interval(search_start) {
            Some(b) => {
                busy.push(b);
                assert(busy@ =~= before + busy_intervals(events@.take(i + 1), search_start));
            },
            None => {
                assert(busy@ =~= before + busy_intervals(events@.take(i + 1), search_start));
            },
        }
        i += 1;
    }
    assert(events@.take(events.len() as int) =~= events@);
}

/// Every interval that `busy_intervals` gives is a proper busy interval for
/// the search: it is not empty, and it does not end before the search begins.
pub proof fn lemma_busy_intervals_sound(events: Seq<CalendarEvent>, search_start: Instant, i: int)
    requires
        0 <= i < busy_intervals(events, search_start).len(),
    ensures
        busy_intervals(events, search_start)[i].wf(),
        busy_intervals(events, search_start)[i].end@ >= search_start@,
{
    let b = busy_intervals(events, search_start)[i];
    assert(busy_intervals(events, search_start).contains(b));
    events.lemma_filter_map_contains(interval_of(search_start), b);
}

/// Extracts the busy intervals of `events` for a search beginning at
/// `search_start`.
pub fn collect_busy(events: &Vec<CalendarEvent>, search_start: Instant) -> (busy: Vec<BusyInterval>)
    ensures
        busy@ == busy_intervals(events@, search_start),
        forall|i: int|
            0 <= i < busy.len() ==> (#[trigger] busy@[i]).wf() && busy@[i].end@ >= search_start@,
{
    let mut busy: Vec<BusyInterval> = Vec::new();
    extend_busy(&mut busy, events, search_start);
    assert(busy@ =~= busy_intervals(events@, search_start));
    assert forall|i: int| 0 <= i < busy.len() implies (#[trigger] busy@[i]).wf() && busy@[i].end@
        >= search_start@ by {
        lemma_busy_intervals_sound(events@, search_start, i);
    }
    busy
}

} // verus!
