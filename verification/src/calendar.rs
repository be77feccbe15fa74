//! Upcoming events, read from the calendar pages of the wiki.
//!
//! A calendar page is a file whose name holds `Event`. Its text carries the
//! start of the event and its title; [`ENTRY_PATTERN`] says where. The caller
//! reads the files; the library finds the fields, turns the start into a
//! point in time and keeps the events that are not over for more than a day.

use vstd::prelude::*;
use crate::decimal::{parse_unsigned, parsed_unsigned};
use crate::text::{contains_text, occurs_in};

verus! {

/// What marks a file as a calendar page: its name holds this.
pub const EVENT_MARK: &'static str = "Event";

/// The regular expression that finds the fields of a calendar page: year,
/// month, day, hour, minute and title, in this order.
pub const ENTRY_PATTERN: &'static str =
    "text=.+StartYear: ([0-9]+)%0aStartMonth: ([0-9]+)%0aStartDay: ([0-9]+)%0aStartTime: ([0-9]+):([0-9]+)%0a.+\\n.+\\ntitle=(.+)\\n";

/// The kind under which every event is listed.
pub const EVENT_KIND: &'static str = "Event";

/// The second of the minute at which an event starts: pages give none.
pub const START_SECOND: u32 = 0;

/// One day, in seconds: how long an event stays listed after its start.
pub const GRACE_SECONDS: i64 = 86400;

/// A file of the calendar directory, as the caller read it.
pub struct CalendarFile {
    pub filename: String,
    pub content: String,
}

/// An event of the calendar: its title and its start in unix seconds.
#[derive(Debug)]
pub struct CalendarEvent {
    pub name: String,
    pub timestamp: u64,
}

/// A [`CalendarEvent`] as contracts see it.
pub struct CalendarEventView {
    pub name: Seq<char>,
    pub timestamp: u64,
}

impl View for CalendarEvent {
    type V = CalendarEventView;

    open spec fn view(&self) -> CalendarEventView {
        CalendarEventView { name: self.name@, timestamp: self.timestamp }
    }
}

/// The fields of one calendar page, as numbers.
#[derive(Debug)]
pub struct EntryFields {
    pub year: i32,
    pub month: u32,
    pub day: u32,
    pub hour: u32,
    pub minute: u32,
    pub title: String,
}

/// An [`EntryFields`] as contracts see it.
pub struct EntryFieldsView {
    pub year: i32,
    pub month: u32,
    pub day: u32,
    pub hour: u32,
    pub minute: u32,
    pub title: Seq<char>,
}

impl View for EntryFields {
    type V = EntryFieldsView;

    open spec fn view(&self) -> EntryFieldsView {
        EntryFieldsView {
            year: self.year,
            month: self.month,
            day: self.day,
            hour: self.hour,
            minute: self.minute,
            title: self.title@,
        }
    }
}

/// Why the calendar could not be read.
#[derive(Clone, Copy, Debug, PartialEq, Eq, Structural)]
pub enum CalendarError {
    /// The regular expression was not accepted.
    Pattern,
    /// A number of a calendar page is too large for its field.
    Number,
}

/// The views of a list of events.
pub open spec fn events_view(events: Seq<CalendarEvent>) -> Seq<CalendarEventView> {
    events.map_values(|e: CalendarEvent| e@)
}

/// The views of a list of entries.
pub open spec fn entries_view(entries: Seq<EntryFields>) -> Seq<EntryFieldsView> {
    entries.map_values(|e: EntryFields| e@)
}

/// The view of one capture group.
pub open spec fn group_view(group: Option<String>) -> Option<Seq<char>> {
    match group {
        Some(text) => Some(text@),
        None => None,
    }
}

/// The views of the capture groups of one match.
pub open spec fn groups_view(groups: Seq<Option<String>>) -> Seq<Option<Seq<char>>> {
    groups.map_values(|g: Option<String>| group_view(g))
}

/// The view of what a search for a match gave.
pub open spec fn captures_view(found: Option<Vec<Option<String>>>) -> Option<Seq<Option<Seq<char>>>> {
    match found {
        Some(groups) => Some(groups_view(groups@)),
        None => None,
    }
}

/// Whether the `regex` crate accepts `pattern` as a regular expression.
pub uninterp spec fn pattern_compiles(pattern: Seq<char>) -> bool;

/// The capture groups of the first match of `pattern` in `text`, as the
/// `regex` crate finds it: the whole match first, then one group for each
/// opening bracket, `None` for a group that took no part; `None` where
/// `text` holds no match.
pub uninterp spec fn first_captures(pattern: Seq<char>, text: Seq<char>) -> Option<
    Seq<Option<Seq<char>>>,
>;

/// Compiles `pattern` with `regex::Regex::new` and searches `text` with
/// `Regex::captures`. The outer `None` says that the pattern was refused.
/// Otherwise the result is the first match with its groups copied out in
/// order, or `None` where nothing matches. Both are taken on trust from the
/// `regex` crate, under the names [`pattern_compiles`] and [`first_captures`].
#[verifier::external_body]
fn capture_groups(pattern: &str, text: &str) -> (found: Option<Option<Vec<Option<String>>>>)
    ensures
        found is Some <==> pattern_compiles(pattern@),
        found matches Some(groups) ==> captures_view(groups) == first_captures(pattern@, text@),
{
    match regex::Regex::new(pattern) {
        Ok(re) => Some(
            re.captures(text).map(
                |found| found.iter().map(|group| group.map(|m| String::from(m.as_str()))).collect(),
            ),
        ),
        Err(_) => None,
    }
}

/// Whether the numbers can name a day and a time of day at all: a month
/// from 1 to 12, a day from 1 to 31, an hour up to 23, minute and second up
/// to 59. Whether the month has that day is not asked.
pub open spec fn in_clock_range(month: u32, day: u32, hour: u32, minute: u32, second: u32) -> bool {
    &&& 1 <= month <= 12
    &&& 1 <= day <= 31
    &&& hour <= 23
    &&& minute <= 59
    &&& second <= 59
}

/// The start of an event as a point in time: unix seconds of the given
/// wall-clock time in the machine's time zone, by `chrono`'s
/// `Local.ymd_opt(..)`, `MappedLocalTime::single`, `Date::and_hms_opt(..)`
/// and `DateTime::timestamp`. `None` where the date or the time does not
/// exist, or the time zone does not map it to one instant.
///
/// Of the number nothing is claimed: it depends on the time zone. There is
/// one only where month, day, hour, minute and second are in their ranges,
/// which `chrono` tests before it asks the time zone.
#[verifier::external_body]
#[allow(deprecated)]
fn local_start(year: i32, month: u32, day: u32, hour: u32, minute: u32, second: u32) -> (start: Option<
    i64,
>)
    ensures
        start is Some ==> in_clock_range(month, day, hour, minute, second),
{
    chrono::TimeZone::ymd_opt(&chrono::Local, year, month, day)
        .single()
        .and_then(|date| date.and_hms_opt(hour, minute, second))
        .map(|moment| moment.timestamp())
}

/// Whether a file of this name is a calendar page.
pub open spec fn is_event_name(filename: Seq<char>) -> bool {
    occurs_in(filename, EVENT_MARK@)
}

/// Tests whether a file of this name is a calendar page.
pub fn is_event_file(filename: &str) -> (yes: bool)
    ensures
        yes == is_event_name(filename@),
{
    contains_text(filename, EVENT_MARK)
}

/// Whether all six fields are there: seven groups, none of the six after the
/// whole match missing.
pub open spec fn groups_complete(groups: Seq<Option<Seq<char>>>) -> bool {
    &&& groups.len() == 7
    &&& forall|i: int| 1 <= i < 7 ==> (#[trigger] groups[i]) is Some
}

/// The fields that the capture groups of a page spell. A page without all
/// six fields gives no entry. A number that is too large for its field is an
/// error.
pub open spec fn fields_of(groups: Seq<Option<Seq<char>>>) -> Result<
    Option<EntryFieldsView>,
    CalendarError,
> {
    if !groups_complete(groups) {
        Ok(None)
    } else {
        let year = parsed_unsigned(groups[1].unwrap(), i32::MAX as nat);
        let month = parsed_unsigned(groups[2].unwrap(), u32::MAX as nat);
        let day = parsed_unsigned(groups[3].unwrap(), u32::MAX as nat);
        let hour = parsed_unsigned(groups[4].unwrap(), u32::MAX as nat);
        let minute = parsed_unsigned(groups[5].unwrap(), u32::MAX as nat);
        if year is Some && month is Some && day is Some && hour is Some && minute is Some {
            Ok(
                Some(
                    EntryFieldsView {
                        year: year.unwrap() as i32,
                        month: month.unwrap() as u32,
                        day: day.unwrap() as u32,
                        hour: hour.unwrap() as u32,
                        minute: minute.unwrap() as u32,
                        title: groups[6].unwrap(),
                    },
                ),
            )
        } else {
            Err(CalendarError::Number)
        }
    }
}

/// Reads one number field.
fn number_field(group: &Option<String>, max: u64) -> (value: Option<u64>)
    requires
        group is Some,
    ensures
        match parsed_unsigned(group_view(*group).unwrap(), max as nat) {
            Some(n) => value == Some(n as u64),
            None => value is None,
        },
{
    match group {
        Some(text) => parse_unsigned(text.as_str(), max),
        None => None,
    }
}

/// Turns the capture groups of one page into its fields.
pub fn entry_fields(groups: &Vec<Option<String>>) -> (fields: Result<Option<EntryFields>, CalendarError>)
    ensures
        match fields_of(groups_view(groups@)) {
            Ok(Some(view)) => fields matches Ok(Some(entry)) && entry@ == view,
            Ok(None) => fields matches Ok(None),
            Err(e) => fields matches Err(x) && x == e,
        },
{
    let ghost views = groups_view(groups@);
    if groups.len() != 7 {
        return Ok(None);
    }
    let mut i: usize = 1;
    while i < 7
        invariant
            1 <= i <= 7,
            groups@.len() == 7,
            views == groups_view(groups@),
            forall|j: int| 1 <= j < i ==> (#[trigger] views[j]) is Some,
        decreases 7 - i,
    {
        if groups[i].is_none() {
            assert(views[i as int] is None);
            return Ok(None);
        }
        i = i + 1;
    }
    assert(groups_complete(views));
    let year = number_field(&groups[1], 0x7fff_ffff);
    let month = number_field(&groups[2], 0xffff_ffff);
    let day = number_field(&groups[3], 0xffff_ffff);
    let hour = number_field(&groups[4], 0xffff_ffff);
    let minute = number_field(&groups[5], 0xffff_ffff);
    match (year, month, day, hour, minute, &groups[6]) {
        (Some(year), Some(month), Some(day), Some(hour), Some(minute), Some(title)) => Ok(
            Some(
                EntryFields {
                    year: year as i32,
                    month: month as u32,
                    day: day as u32,
                    hour: hour as u32,
                    minute: minute as u32,
                    title: title.clone(),
                },
            ),
        ),
        _ => Err(CalendarError::Number),
    }
}

/// What one file of the directory gives: the fields of its entry, nothing
/// where it is no calendar page or holds no match, or an error.
pub open spec fn file_entry(file: CalendarFile) -> Result<Option<EntryFieldsView>, CalendarError> {
    if !is_event_name(file.filename@) {
        Ok(None)
    } else if !pattern_compiles(ENTRY_PATTERN@) {
        Err(CalendarError::Pattern)
    } else {
        match first_captures(ENTRY_PATTERN@, file.content@) {
            Some(groups) => fields_of(groups),
            None => Ok(None),
        }
    }
}

/// The entries of all files, in the order of the files, or the error of the
/// first file that has one.
pub open spec fn scanned(files: Seq<CalendarFile>) -> Result<Seq<EntryFieldsView>, CalendarError>
    decreases files.len(),
{
    if files.len() == 0 {
        Ok(Seq::empty())
    } else {
        match scanned(files.drop_last()) {
            Err(e) => Err(e),
            Ok(entries) => match file_entry(files.last()) {
                Err(e) => Err(e),
                Ok(None) => Ok(entries),
                Ok(Some(entry)) => Ok(entries.push(entry)),
            },
        }
    }
}

/// An error among the first files is the error of the whole directory.
pub proof fn lemma_scan_error_stays(files: Seq<CalendarFile>, k: int)
    requires
        0 <= k <= files.len(),
        scanned(files.take(k)) is Err,
    ensures
        scanned(files) == scanned(files.take(k)),
    decreases files.len() - k,
{
    if k == files.len() {
        assert(files.take(k) =~= files);
    } else {
        assert(files.take(k + 1).drop_last() =~= files.take(k));
        lemma_scan_error_stays(files, k + 1);
    }
}

/// Finds the fields of one file.
fn scan_file(file: &CalendarFile) -> (entry: Result<Option<EntryFields>, CalendarError>)
    ensures
        match file_entry(*file) {
            Ok(Some(view)) => entry matches Ok(Some(e)) && e@ == view,
            Ok(None) => entry matches Ok(None),
            Err(e) => entry matches Err(x) && x == e,
        },
{
    if !is_event_file(file.filename.as_str()) {
        return Ok(None);
    }
    match capture_groups(ENTRY_PATTERN, file.content.as_str()) {
        None => Err(CalendarError::Pattern),
        Some(None) => Ok(None),
        Some(Some(groups)) => entry_fields(&groups),
    }
}

/// Finds the entries of the calendar pages among `files`, in their order.
/// A file that is no calendar page, or whose text lacks a field, gives none.
pub fn scan_entries(files: &Vec<CalendarFile>) -> (entries: Result<Vec<EntryFields>, CalendarError>)
    ensures
        match scanned(files@) {
            Ok(views) => entries matches Ok(found) && entries_view(found@) == views,
            Err(e) => entries matches Err(x) && x == e,
        },
{
    let mut found: Vec<EntryFields> = Vec::new();
    let mut i: usize = 0;
    assert(files@.take(0) =~= Seq::empty());
    assert(entries_view(found@) =~= Seq::empty());
    while i < files.len()
        invariant
            i <= files.len(),
            scanned(files@.take(i as int)) == Ok::<Seq<EntryFieldsView>, CalendarError>(
                entries_view(found@),
            ),
        decreases files.len() - i,
    {
        proof {
            assert(files@.take(i + 1).drop_last() =~= files@.take(i as int));
            assert(files@.take(i + 1).last() == files@[i as int]);
        }
        match scan_file(&files[i]) {
            Err(e) => {
                proof {
                    lemma_scan_error_stays(files@, i + 1);
                }
                return Err(e);
            },
            Ok(None) => {},
            Ok(Some(entry)) => {
                let ghost before = entries_view(found@);
                found.push(entry);
                assert(entries_view(found@) =~= before.push(entry@));
            },
        }
        i = i + 1;
    }
    assert(files@.take(i as int) =~= files@);
    Ok(found)
}

/// Whether an event that starts at `start` is still listed at `now`: it
/// started no earlier than a day ago.
pub open spec fn is_current(start: i64, now: i64) -> bool {
    start >= now - GRACE_SECONDS
}

/// The event to list for an entry with this title, if any: none where its
/// start is no instant, none where it lies before 1970, which unix seconds
/// without a sign cannot say, and none where it is over for more than a day.
pub open spec fn selected(title: Seq<char>, start: Option<i64>, now: i64) -> Option<
    CalendarEventView,
> {
    match start {
        Some(s) => if s >= 0 && is_current(s, now) {
            Some(CalendarEventView { name: title, timestamp: s as u64 })
        } else {
            None
        },
        None => None,
    }
}

/// The start of the entry at `position`: the one that `starts` holds for it,
/// and none where `starts` is too short.
pub open spec fn start_at(starts: Seq<Option<i64>>, position: int) -> Option<i64> {
    if 0 <= position < starts.len() {
        starts[position]
    } else {
        None
    }
}

/// The events to list for `entries`, in order, where `starts` holds the
/// start of each entry at the entry's position.
pub open spec fn selected_all(
    entries: Seq<EntryFieldsView>,
    starts: Seq<Option<i64>>,
    now: i64,
) -> Seq<CalendarEventView>
    decreases entries.len(),
{
    if entries.len() == 0 {
        Seq::empty()
    } else {
        let front = selected_all(entries.drop_last(), starts, now);
        match selected(entries.last().title, start_at(starts, entries.len() - 1), now) {
            Some(event) => front.push(event),
            None => front,
        }
    }
}

/// Decides whether the entry with this title and start is listed at `now`.
pub fn select_event(title: String, start: Option<i64>, now: i64) -> (event: Option<CalendarEvent>)
    ensures
        match selected(title@, start, now) {
            Some(view) => event matches Some(e) && e@ == view,
            None => event is None,
        },
{
    match start {
        None => None,
        Some(s) => {
            let current = if now < i64::MIN + GRACE_SECONDS {
                true
            } else {
                s >= now - GRACE_SECONDS
            };
            if s >= 0 && current {
                Some(CalendarEvent { name: title, timestamp: s as u64 })
            } else {
                None
            }
        },
    }
}

/// Whether the fields of an entry can name a minute at all.
pub open spec fn names_a_minute(entry: EntryFieldsView) -> bool {
    in_clock_range(entry.month, entry.day, entry.hour, entry.minute, START_SECOND)
}

/// Whether `starts` can be the starts of `entries`: one for each entry, and
/// none for an entry whose fields name no minute.
pub open spec fn starts_fit(entries: Seq<EntryFieldsView>, starts: Seq<Option<i64>>) -> bool {
    &&& starts.len() == entries.len()
    &&& forall|i: int|
        0 <= i < entries.len() ==> ((#[trigger] starts[i]) is Some ==> names_a_minute(entries[i]))
}

/// Asks the machine's time zone for the start of each entry, in order: the
/// instant at which the minute that the entry's own fields name begins.
pub fn local_starts(entries: &Vec<EntryFields>) -> (starts: Vec<Option<i64>>)
    ensures
        starts_fit(entries_view(entries@), starts@),
{
    let ghost views = entries_view(entries@);
    let mut starts: Vec<Option<i64>> = Vec::new();
    let mut i: usize = 0;
    while i < entries.len()
        invariant
            i <= entries.len(),
            views == entries_view(entries@),
            starts@.len() == i,
            forall|j: int| 0 <= j < i ==> ((#[trigger] starts@[j]) is Some ==> names_a_minute(views[j])),
        decreases entries.len() - i,
    {
        let entry = &entries[i];
        let start = local_start(
            entry.year,
            entry.month,
            entry.day,
            entry.hour,
            entry.minute,
            START_SECOND,
        );
        assert(views[i as int] == entry@);
        starts.push(start);
        i = i + 1;
    }
    starts
}

/// Lists the events of `entries` that are not over for more than a day at
/// `now`, in order. `starts` holds the start of each entry at the entry's
/// position; an entry for which it holds none is not listed.
pub fn list_events(entries: &Vec<EntryFields>, starts: &Vec<Option<i64>>, now: i64) -> (listed: Vec<
    CalendarEvent,
>)
    ensures
        events_view(listed@) == selected_all(entries_view(entries@), starts@, now),
{
    let ghost views = entries_view(entries@);
    let mut listed: Vec<CalendarEvent> = Vec::new();
    let mut i: usize = 0;
    assert(views.take(0) =~= Seq::empty());
    assert(events_view(listed@) =~= Seq::empty());
    while i < entries.len()
        invariant
            i <= entries.len(),
            views == entries_view(entries@),
            events_view(listed@) == selected_all(views.take(i as int), starts@, now),
        decreases entries.len() - i,
    {
        let entry = &entries[i];
        let start = if i < starts.len() {
            starts[i]
        } else {
            None
        };
        let ghost before = events_view(listed@);
        proof {
            assert(views.take(i + 1).drop_last() =~= views.take(i as int));
            assert(views.take(i + 1).last() == entry@);
        }
        match select_event(entry.title.clone(), start, now) {
            Some(event) => {
                listed.push(event);
                assert(events_view(listed@) =~= before.push(event@));
            },
            None => {},
        }
        i = i + 1;
    }
    assert(views.take(i as int) =~= views);
    listed
}

/// Lists the events of the calendar directory that are not over for more
/// than a day at `now`, in the order of the files.
///
/// Which instant a wall-clock start is depends on the machine's time zone, so
/// the list is stated for the starts that the time zone gave: one for each
/// entry, and none for an entry whose fields name no minute.
pub fn next_events(files: &Vec<CalendarFile>, now: i64) -> (events: Result<
    Vec<CalendarEvent>,
    CalendarError,
>)
    ensures
        match scanned(files@) {
            Ok(entries) => events matches Ok(listed) && exists|starts: Seq<Option<i64>>|
                starts_fit(entries, starts) && events_view(listed@) == #[trigger] selected_all(
                    entries,
                    starts,
                    now,
                ),
            Err(e) => events matches Err(x) && x == e,
        },
{
    match scan_entries(files) {
        Ok(entries) => {
            let starts = local_starts(&entries);
            Ok(list_events(&entries, &starts, now))
        },
        Err(e) => Err(e),
    }
}

/// An event that is listed at some time was listed at every earlier time:
/// with the same entries and starts, waiting only takes events off the list.
pub proof fn lemma_listing_only_shrinks(
    entries: Seq<EntryFieldsView>,
    starts: Seq<Option<i64>>,
    earlier: i64,
    later: i64,
)
    requires
        earlier <= later,
    ensures
        forall|event: CalendarEventView|
            selected_all(entries, starts, later).contains(event) ==> #[trigger] selected_all(
                entries,
                starts,
                earlier,
            ).contains(event),
    decreases entries.len(),
{
    if entries.len() > 0 {
        let front_later = selected_all(entries.drop_last(), starts, later);
        let front_earlier = selected_all(entries.drop_last(), starts, earlier);
        let start = start_at(starts, entries.len() - 1);
        lemma_listing_only_shrinks(entries.drop_last(), starts, earlier, later);
        assert forall|event: CalendarEventView|
            selected_all(entries, starts, later).contains(event) implies #[trigger] selected_all(
            entries,
            starts,
            earlier,
        ).contains(event) by {
            let at_later = selected(entries.last().title, start, later);
            let at_earlier = selected(entries.last().title, start, earlier);
            if front_later.contains(event) {
                assert(front_earlier.contains(event));
                if at_earlier is Some {
                    let i = choose|i: int| 0 <= i < front_earlier.len() && front_earlier[i] == event;
                    assert(front_earlier.push(at_earlier.unwrap())[i] == event);
                }
            } else {
                assert(at_later is Some);
                let all = front_later.push(at_later.unwrap());
                let i = choose|i: int| 0 <= i < all.len() && all[i] == event;
                assert(i == front_later.len()) by {
                    if i < front_later.len() {
                        assert(front_later[i] == event);
                    }
                }
                assert(at_earlier == at_later);
                assert(front_earlier.push(event).last() == event);
            }
        }
    }
}

/// Every listed event started no earlier than a day before `now` and not
/// before 1970, at one of the given starts, and carries that start as its
/// time.
pub proof fn lemma_listed_is_current(
    entries: Seq<EntryFieldsView>,
    starts: Seq<Option<i64>>,
    now: i64,
    event: CalendarEventView,
)
    requires
        selected_all(entries, starts, now).contains(event),
    ensures
        exists|s: i64|
            #![trigger is_current(s, now)]
            starts.contains(Some(s)) && is_current(s, now) && s >= 0 && event.timestamp == s,
    decreases entries.len(),
{
    if entries.len() > 0 {
        let front = selected_all(entries.drop_last(), starts, now);
        if front.contains(event) {
            lemma_listed_is_current(entries.drop_last(), starts, now, event);
        } else {
            let position = entries.len() - 1;
            let last = selected(entries.last().title, start_at(starts, position), now);
            assert(last is Some);
            let all = front.push(last.unwrap());
            let i = choose|i: int| 0 <= i < all.len() && all[i] == event;
            if i < front.len() {
                assert(front[i] == event);
            }
            let s = start_at(starts, position).unwrap();
            assert(starts[position] == Some(s));
            assert(starts.contains(Some(s)) && is_current(s, now) && s >= 0 && event.timestamp == s);
        }
    }
}

/// An entry whose fields name no minute is never listed: a month 13 or an
/// hour 24 has no start.
pub proof fn lemma_no_minute_is_not_listed(
    entries: Seq<EntryFieldsView>,
    starts: Seq<Option<i64>>,
    now: i64,
    position: int,
)
    requires
        starts_fit(entries, starts),
        0 <= position < entries.len(),
        !names_a_minute(entries[position]),
    ensures
        selected(entries[position].title, start_at(starts, position), now) is None,
{
    assert(starts[position] is None);
}

/// Where no entry has a start, nothing is listed.
pub proof fn lemma_no_starts_list_nothing(
    entries: Seq<EntryFieldsView>,
    starts: Seq<Option<i64>>,
    now: i64,
)
    requires
        forall|i: int| 0 <= i < entries.len() ==> (#[trigger] start_at(starts, i)) is None,
    ensures
        selected_all(entries, starts, now) == Seq::<CalendarEventView>::empty(),
    decreases entries.len(),
{
    if entries.len() > 0 {
        lemma_no_starts_list_nothing(entries.drop_last(), starts, now);
        assert(start_at(starts, entries.len() - 1) is None);
    }
}

/// Where no entry names a minute, nothing is listed.
pub proof fn lemma_no_minutes_list_nothing(
    entries: Seq<EntryFieldsView>,
    starts: Seq<Option<i64>>,
    now: i64,
)
    requires
        starts_fit(entries, starts),
        forall|i: int| 0 <= i < entries.len() ==> !names_a_minute(#[trigger] entries[i]),
    ensures
        selected_all(entries, starts, now) == Seq::<CalendarEventView>::empty(),
{
    assert forall|i: int| 0 <= i < entries.len() implies (#[trigger] start_at(starts, i)) is None by {
        assert(!names_a_minute(entries[i]));
        assert(starts[i] is None);
    }
    lemma_no_starts_list_nothing(entries, starts, now);
}

} // verus!
