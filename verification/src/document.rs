//! The status document of the space: what the space is, whether its door is
//! open, and which events come next.
//!
//! The document is a `spaceapi::Status`. The caller hands in a
//! `spaceapi::StatusBuilder` that describes the space; the library adds the
//! events and the door state. Both types are opaque here: contracts speak of
//! the events they list and of the door state they show.

use vstd::prelude::*;
use vstd::string::StringExecFns;
use crate::calendar::{
    events_view, lemma_listing_only_shrinks, next_events, scanned, selected_all, starts_fit,
    CalendarError, CalendarEvent, CalendarEventView, CalendarFile, EntryFieldsView, EVENT_KIND,
};
use crate::sitenav::{wiki_path, FileWrite};
use crate::status::Tuerstatus;

verus! {

/// `spaceapi::StatusBuilder`, the description of a space before it becomes a
/// document. Nothing inside it is visible here.
#[verifier::external_type_specification]
#[verifier::external_body]
pub struct ExStatusBuilder(spaceapi::StatusBuilder);

/// `spaceapi::Status`, the status document. Nothing inside it is visible
/// here.
#[verifier::external_type_specification]
#[verifier::external_body]
pub struct ExStatus(spaceapi::Status);

/// Where the document lives, below the wiki's directory.
pub const SPACEAPI_FILE: &'static str = "/spaceapi.json";

/// An event as a status document lists it.
pub struct EventRecord {
    pub name: Seq<char>,
    pub kind: Seq<char>,
    pub timestamp: u64,
    pub extra: Option<Seq<char>>,
}

/// Why no status document came about.
#[derive(Debug)]
pub enum RenderError {
    /// The calendar could not be read.
    Calendar(CalendarError),
    /// The description of the space lacks something; the text says what.
    Incomplete(String),
    /// The document could not be written as JSON.
    Encoding,
}

/// The events that a builder holds, in the order in which they were added.
pub uninterp spec fn builder_events(builder: spaceapi::StatusBuilder) -> Seq<EventRecord>;

/// Whether a builder holds all that a document needs: a logo, a URL, a
/// location and a contact.
pub uninterp spec fn builder_ready(builder: spaceapi::StatusBuilder) -> bool;

/// The events that a document lists, in order; none where it has no list.
pub uninterp spec fn status_events(status: spaceapi::Status) -> Seq<EventRecord>;

/// Whether a document shows the door as open, if it says so at all.
pub uninterp spec fn status_open(status: spaceapi::Status) -> Option<bool>;

/// The time of the last change that a document shows, if any.
pub uninterp spec fn status_lastchange(status: spaceapi::Status) -> Option<u64>;

/// Adds an event with `StatusBuilder::add_event`, which appends it to the
/// builder's events and leaves the rest of the builder alone.
#[verifier::external_body]
fn add_event(
    builder: spaceapi::StatusBuilder,
    name: &str,
    kind: &str,
    timestamp: u64,
    extra: Option<String>,
) -> (extended: spaceapi::StatusBuilder)
    ensures
        builder_events(extended) == builder_events(builder).push(
            EventRecord {
                name: name@,
                kind: kind@,
                timestamp,
                extra: match extra {
                    Some(text) => Some(text@),
                    None => None,
                },
            },
        ),
        builder_ready(extended) == builder_ready(builder),
{
    builder.add_event(
        spaceapi::Event { name: String::from(name), type_: String::from(kind), timestamp, extra },
    )
}

/// Finishes a builder with `StatusBuilder::build`. It fails, with a text
/// that names what is missing, exactly where the builder lacks a logo, a URL,
/// a location or a contact. The document lists the builder's events and says
/// nothing yet of the door.
#[verifier::external_body]
fn build(builder: spaceapi::StatusBuilder) -> (built: Result<spaceapi::Status, String>)
    ensures
        built is Ok <==> builder_ready(builder),
        built matches Ok(status) ==> {
            &&& status_events(status) == builder_events(builder)
            &&& status_open(status) is None
            &&& status_lastchange(status) is None
        },
{
    builder.build()
}

/// Writes the door state into the fields `state.open` and `state.lastchange`
/// of a document. Nothing else of the document changes.
#[verifier::external_body]
fn set_door(status: &mut spaceapi::Status, open: Option<bool>, lastchange: Option<u64>)
    ensures
        status_open(*final(status)) == open,
        status_lastchange(*final(status)) == lastchange,
        status_events(*final(status)) == status_events(*old(status)),
{
    status.state.open = open;
    status.state.lastchange = lastchange;
}

/// The JSON text of a document, as `serde_json::to_string` writes it; `None`
/// where `serde_json` gives an error instead.
pub uninterp spec fn document_text(status: spaceapi::Status) -> Option<Seq<char>>;

/// Writes a document as JSON with `serde_json::to_string`: the same text for
/// the same document, by the name [`document_text`]. What the text is, and
/// whether there is one, is taken on trust from `serde_json`.
#[verifier::external_body]
fn document_json(status: &spaceapi::Status) -> (text: Option<String>)
    ensures
        match text {
            Some(t) => document_text(*status) == Some(t@),
            None => document_text(*status) is None,
        },
{
    serde_json::to_string(status).ok()
}

/// An event of the calendar as a document lists it.
pub open spec fn record_of(event: CalendarEventView) -> EventRecord {
    EventRecord { name: event.name, kind: EVENT_KIND@, timestamp: event.timestamp, extra: None }
}

/// The events of the calendar as a document lists them.
pub open spec fn records_of(events: Seq<CalendarEventView>) -> Seq<EventRecord> {
    events.map_values(|e: CalendarEventView| record_of(e))
}

/// Whether `status` is the document for the space that `base` describes,
/// with `events` added behind those that `base` already held, and with the
/// door state of `tuerstatus`.
pub open spec fn is_document(
    status: spaceapi::Status,
    base: spaceapi::StatusBuilder,
    events: Seq<CalendarEventView>,
    tuerstatus: Tuerstatus,
) -> bool {
    &&& status_events(status) == builder_events(base) + records_of(events)
    &&& status_open(status) == Some(tuerstatus.door_open)
    &&& status_lastchange(status) == Some(tuerstatus.timestamp)
}

/// Makes the status document for the space that `base` describes: `events`
/// are added in their order, then the door state of `tuerstatus`. It fails
/// exactly where `base` lacks something that a document needs.
pub fn status_document(
    base: spaceapi::StatusBuilder,
    events: &Vec<CalendarEvent>,
    tuerstatus: &Tuerstatus,
) -> (document: Result<spaceapi::Status, RenderError>)
    ensures
        builder_ready(base) ==> (document matches Ok(status) && is_document(
            status,
            base,
            events_view(events@),
            *tuerstatus,
        )),
        !builder_ready(base) ==> document matches Err(RenderError::Incomplete(_)),
{
    let ghost views = events_view(events@);
    let mut builder = base;
    let mut i: usize = 0;
    assert(builder_events(base) + records_of(views.take(0)) =~= builder_events(base));
    while i < events.len()
        invariant
            i <= events.len(),
            views == events_view(events@),
            builder_ready(builder) == builder_ready(base),
            builder_events(builder) == builder_events(base) + records_of(views.take(i as int)),
        decreases events.len() - i,
    {
        let event = &events[i];
        proof {
            assert(views.take(i + 1) =~= views.take(i as int).push(event@));
            assert(records_of(views.take(i + 1)) =~= records_of(views.take(i as int)).push(
                record_of(event@),
            ));
            assert(builder_events(base) + records_of(views.take(i + 1)) =~= (builder_events(base)
                + records_of(views.take(i as int))).push(record_of(event@)));
        }
        builder = add_event(builder, event.name.as_str(), EVENT_KIND, event.timestamp, None);
        i = i + 1;
    }
    assert(views.take(i as int) =~= views);
    match build(builder) {
        Ok(built) => {
            let mut status = built;
            set_door(&mut status, Some(tuerstatus.door_open), Some(tuerstatus.timestamp));
            Ok(status)
        },
        Err(missing) => Err(RenderError::Incomplete(missing)),
    }
}

/// Makes the status document from the files of the calendar directory: the
/// events that are not over for more than a day at `now` are listed, in the
/// order of the files, then the door state is set.
///
/// The list is stated for the starts that the machine's time zone gave: one
/// for each entry of the calendar, and none for an entry whose fields name no
/// minute.
pub fn hsmr_spaceapi(
    base: spaceapi::StatusBuilder,
    files: &Vec<CalendarFile>,
    now: i64,
    tuerstatus: &Tuerstatus,
) -> (document: Result<spaceapi::Status, RenderError>)
    ensures
        match scanned(files@) {
            Err(e) => document matches Err(RenderError::Calendar(x)) && x == e,
            Ok(entries) => if builder_ready(base) {
                document matches Ok(status) && exists|starts: Seq<Option<i64>>|
                    starts_fit(entries, starts) && is_document(
                        status,
                        base,
                        #[trigger] selected_all(entries, starts, now),
                        *tuerstatus,
                    )
            } else {
                document matches Err(RenderError::Incomplete(_))
            },
        },
{
    match next_events(files, now) {
        Err(e) => Err(RenderError::Calendar(e)),
        Ok(events) => status_document(base, &events, tuerstatus),
    }
}

/// The file for a document that was written as JSON, or the error where it
/// was not.
pub fn spaceapi_file(wikipath: &str, json: Option<String>) -> (file: Result<FileWrite, RenderError>)
    ensures
        match json {
            Some(text) => file matches Ok(f) && f.path@ == wiki_path(wikipath@, SPACEAPI_FILE@)
                && f.content@ == text@,
            None => file matches Err(RenderError::Encoding),
        },
{
    match json {
        Some(content) => {
            let mut path = String::from_str(wikipath);
            path.append(SPACEAPI_FILE);
            Ok(FileWrite { path, content })
        },
        None => Err(RenderError::Encoding),
    }
}

/// What [`write_spaceapi`] owes for a document: the file below `wikipath`
/// with the document's JSON text, or the error where there is no such text.
pub open spec fn is_file_of(
    file: Result<FileWrite, RenderError>,
    wikipath: Seq<char>,
    status: spaceapi::Status,
) -> bool {
    match document_text(status) {
        Some(text) => file matches Ok(f) && f.path@ == wiki_path(wikipath, SPACEAPI_FILE@)
            && f.content@ == text,
        None => file matches Err(RenderError::Encoding),
    }
}

/// Says what to write where, so that the status document below `wikipath`
/// shows `tuerstatus` and the coming events. Writing the file is left to the
/// caller.
///
/// The content is the JSON text of a document as [`hsmr_spaceapi`] makes it:
/// for the space that `base` describes, with the door state of `tuerstatus`
/// and the events of the calendar, for the starts that the machine's time
/// zone gave.
pub fn write_spaceapi(
    wikipath: &str,
    base: spaceapi::StatusBuilder,
    files: &Vec<CalendarFile>,
    now: i64,
    tuerstatus: &Tuerstatus,
) -> (file: Result<FileWrite, RenderError>)
    ensures
        match scanned(files@) {
            Err(e) => file matches Err(RenderError::Calendar(x)) && x == e,
            Ok(entries) => if builder_ready(base) {
                exists|starts: Seq<Option<i64>>, status: spaceapi::Status|
                    starts_fit(entries, starts) && is_document(
                        status,
                        base,
                        #[trigger] selected_all(entries, starts, now),
                        *tuerstatus,
                    ) && #[trigger] is_file_of(file, wikipath@, status)
            } else {
                file matches Err(RenderError::Incomplete(_))
            },
        },
{
    match hsmr_spaceapi(base, files, now, tuerstatus) {
        Ok(status) => {
            let file = spaceapi_file(wikipath, document_json(&status));
            proof {
                let entries = scanned(files@)->Ok_0;
                let starts = choose|starts: Seq<Option<i64>>|
                    starts_fit(entries, starts) && is_document(
                        status,
                        base,
                        #[trigger] selected_all(entries, starts, now),
                        *tuerstatus,
                    );
                assert(is_file_of(file, wikipath@, status));
            }
            file
        },
        Err(e) => Err(e),
    }
}

/// From one refresh to the next, with the store unchanged and the same
/// calendar, the document never falls back: it shows the same door state, and
/// every event that it still lists was listed before.
pub proof fn lemma_refresh_never_falls_back(
    first: spaceapi::Status,
    second: spaceapi::Status,
    base: spaceapi::StatusBuilder,
    entries: Seq<EntryFieldsView>,
    starts: Seq<Option<i64>>,
    earlier: i64,
    later: i64,
    tuerstatus: Tuerstatus,
)
    requires
        earlier <= later,
        is_document(first, base, selected_all(entries, starts, earlier), tuerstatus),
        is_document(second, base, selected_all(entries, starts, later), tuerstatus),
    ensures
        status_open(second) == status_open(first),
        status_lastchange(second) == status_lastchange(first),
        forall|record: EventRecord|
            status_events(second).contains(record) ==> #[trigger] status_events(first).contains(
                record,
            ),
{
    let held = builder_events(base);
    let before = selected_all(entries, starts, earlier);
    let after = selected_all(entries, starts, later);
    lemma_listing_only_shrinks(entries, starts, earlier, later);
    assert forall|record: EventRecord| status_events(second).contains(record) implies #[trigger] status_events(
        first,
    ).contains(record) by {
        let i = choose|i: int| 0 <= i < status_events(second).len() && status_events(second)[i] == record;
        if i < held.len() {
            assert(status_events(first)[i] == record);
        } else {
            let k = i - held.len();
            assert(records_of(after)[k] == record);
            let event = after[k];
            assert(after.contains(event));
            assert(before.contains(event));
            let j = choose|j: int| 0 <= j < before.len() && before[j] == event;
            assert(records_of(before)[j] == record);
            assert(status_events(first)[held.len() + j] == record);
        }
    }
}

} // verus!
