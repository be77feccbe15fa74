//! The door status on the message bus.
//!
//! A status travels as a JSON object with the members `door_open`,
//! `timestamp` and `flti_only`. What arrives on the bus replaces the stored
//! status, whatever its timestamp: the bus has the last word. What the switch
//! shows is published and takes effect when it comes back from the bus.

use vstd::prelude::*;
use vstd::string::StringExecFns;
use vstd::utf8::{decode_utf8, valid_utf8};
use crate::decimal::{decimal_digits, push_decimal};
use crate::status::{StatusStore, Tuerstatus};
use crate::text::same_text;

verus! {

/// The topic of the door status where none is configured.
pub const DOOR_TOPIC: &'static str = "door";

/// The member that says whether the door is open.
pub const KEY_DOOR_OPEN: &'static str = "door_open";

/// The member that holds the time of the last change.
pub const KEY_TIMESTAMP: &'static str = "timestamp";

/// The member that is passed through.
pub const KEY_FLTI_ONLY: &'static str = "flti_only";

/// What a member of a JSON object holds, as far as a door status can use it.
#[derive(Clone, Copy, Debug, PartialEq, Eq, Structural)]
pub enum Scalar {
    Null,
    Bool(bool),
    /// A whole number from 0 to 2^64 - 1.
    Unsigned(u64),
    /// Anything else: another number, a string, an array, an object.
    Other,
}

/// How often the bus is to deliver a message.
#[derive(Clone, Copy, Debug, PartialEq, Eq, Structural)]
pub enum Delivery {
    AtMostOnce,
    AtLeastOnce,
    ExactlyOnce,
}

/// A message to publish on the bus.
#[derive(Debug)]
pub struct Publication {
    pub topic: String,
    pub delivery: Delivery,
    /// Whether the broker keeps the message for those who subscribe later.
    pub retain: bool,
    pub payload: String,
}

/// The members of a JSON object as contracts see them.
pub open spec fn members_view(members: Seq<(String, Scalar)>) -> Seq<(Seq<char>, Scalar)> {
    members.map_values(|m: (String, Scalar)| (m.0@, m.1))
}

/// The view of what parsing a text gave.
pub open spec fn parsed_view(parsed: Option<Vec<(String, Scalar)>>) -> Option<
    Seq<(Seq<char>, Scalar)>,
> {
    match parsed {
        Some(members) => Some(members_view(members@)),
        None => None,
    }
}

/// The members of the JSON object that `text` is, as `serde_json` reads it:
/// each key with what it holds, in the order in which `serde_json`'s map
/// hands them out; a key that the text gives twice holds what came last.
/// `None` where `text` is no JSON object.
pub uninterp spec fn json_members(text: Seq<char>) -> Option<Seq<(Seq<char>, Scalar)>>;

/// Reads `text` with `serde_json::from_str` as a map from keys to values and
/// copies the members out. Of each value only its kind is looked at: null, a
/// boolean, a number that `Number::as_u64` gives as a `u64`, or anything
/// else. What comes back is taken on trust from `serde_json`, under the name
/// [`json_members`].
#[verifier::external_body]
fn object_members(text: &str) -> (parsed: Option<Vec<(String, Scalar)>>)
    ensures
        parsed_view(parsed) == json_members(text@),
{
    match serde_json::from_str::<serde_json::Map<String, serde_json::Value>>(text) {
        Ok(map) => Some(map.into_iter().map(|(key, value)| (key, match value {
            serde_json::Value::Null => Scalar::Null,
            serde_json::Value::Bool(b) => Scalar::Bool(b),
            serde_json::Value::Number(n) => n.as_u64().map_or(Scalar::Other, Scalar::Unsigned),
            serde_json::Value::String(_) => Scalar::Other,
            serde_json::Value::Array(_) => Scalar::Other,
            serde_json::Value::Object(_) => Scalar::Other,
        })).collect()),
        Err(_) => None,
    }
}

/// Reads bytes as text with `core::str::from_utf8`: the text that the bytes
/// encode where they are valid UTF-8, and `None` where they are not.
#[verifier::external_body]
fn utf8_text(bytes: &[u8]) -> (text: Option<&str>)
    ensures
        text is Some <==> valid_utf8(bytes@),
        text matches Some(s) ==> s@ == decode_utf8(bytes@),
{
    core::str::from_utf8(bytes).ok()
}

/// What the first member with this key holds, if there is one.
pub open spec fn member(members: Seq<(Seq<char>, Scalar)>, key: Seq<char>) -> Option<Scalar>
    decreases members.len(),
{
    if members.len() == 0 {
        None
    } else if members[0].0 == key {
        Some(members[0].1)
    } else {
        member(members.skip(1), key)
    }
}

/// The status that the members of an object spell. `door_open` must be a
/// boolean and `timestamp` a whole number that fits; `flti_only` may be a
/// boolean, null or missing. Other members are not looked at.
pub open spec fn decoded(members: Seq<(Seq<char>, Scalar)>) -> Option<Tuerstatus> {
    match (
        member(members, KEY_DOOR_OPEN@),
        member(members, KEY_TIMESTAMP@),
        member(members, KEY_FLTI_ONLY@),
    ) {
        (Some(Scalar::Bool(door_open)), Some(Scalar::Unsigned(timestamp)), None) => Some(
            Tuerstatus { flti_only: None, door_open, timestamp },
        ),
        (Some(Scalar::Bool(door_open)), Some(Scalar::Unsigned(timestamp)), Some(Scalar::Null)) => Some(
            Tuerstatus { flti_only: None, door_open, timestamp },
        ),
        (
            Some(Scalar::Bool(door_open)),
            Some(Scalar::Unsigned(timestamp)),
            Some(Scalar::Bool(flti_only)),
        ) => Some(Tuerstatus { flti_only: Some(flti_only), door_open, timestamp }),
        _ => None,
    }
}

/// The status that a payload carries: its bytes must be valid UTF-8, the text
/// a JSON object, and its members must spell a status.
pub open spec fn decoded_payload(payload: Seq<u8>) -> Option<Tuerstatus> {
    if valid_utf8(payload) {
        match json_members(decode_utf8(payload)) {
            Some(members) => decoded(members),
            None => None,
        }
    } else {
        None
    }
}

/// What the store holds after a message, if it held `before`.
pub open spec fn stored_after(before: Tuerstatus, payload: Seq<u8>) -> Tuerstatus {
    match decoded_payload(payload) {
        Some(status) => status,
        None => before,
    }
}

/// What the store holds after a run of messages, if it held `before`.
pub open spec fn stored_after_all(before: Tuerstatus, payloads: Seq<Seq<u8>>) -> Tuerstatus
    decreases payloads.len(),
{
    if payloads.len() == 0 {
        before
    } else {
        stored_after(stored_after_all(before, payloads.drop_last()), payloads.last())
    }
}

/// Looks up the first member with this key.
fn find_member(members: &Vec<(String, Scalar)>, key: &str) -> (found: Option<Scalar>)
    ensures
        found == member(members_view(members@), key@),
{
    let ghost views = members_view(members@);
    let mut i: usize = 0;
    assert(views.skip(0) =~= views);
    while i < members.len()
        invariant
            i <= members.len(),
            views == members_view(members@),
            member(views, key@) == member(views.skip(i as int), key@),
        decreases members.len() - i,
    {
        proof {
            assert(views.skip(i as int)[0] == views[i as int]);
            assert(views.skip(i as int).skip(1) =~= views.skip(i + 1));
        }
        if same_text(members[i].0.as_str(), key) {
            return Some(members[i].1);
        }
        i = i + 1;
    }
    None
}

/// Reads a door status from the members of a JSON object.
pub fn decode_members(members: &Vec<(String, Scalar)>) -> (status: Option<Tuerstatus>)
    ensures
        status == decoded(members_view(members@)),
{
    let door_open = match find_member(members, KEY_DOOR_OPEN) {
        Some(Scalar::Bool(b)) => b,
        _ => {
            return None;
        },
    };
    let timestamp = match find_member(members, KEY_TIMESTAMP) {
        Some(Scalar::Unsigned(t)) => t,
        _ => {
            return None;
        },
    };
    match find_member(members, KEY_FLTI_ONLY) {
        None => Some(Tuerstatus { flti_only: None, door_open, timestamp }),
        Some(Scalar::Null) => Some(Tuerstatus { flti_only: None, door_open, timestamp }),
        Some(Scalar::Bool(f)) => Some(Tuerstatus { flti_only: Some(f), door_open, timestamp }),
        _ => None,
    }
}

/// Reads a door status from the payload of a bus message.
pub fn decode_payload(payload: &[u8]) -> (status: Option<Tuerstatus>)
    ensures
        status == decoded_payload(payload@),
{
    match utf8_text(payload) {
        None => None,
        Some(text) => match object_members(text) {
            None => None,
            Some(members) => decode_members(&members),
        },
    }
}

/// Takes in a message of the bus. A payload that carries a status replaces
/// the stored one, and the new status comes back so that the caller renders
/// it. Any other payload is dropped and the store stays as it is.
pub fn on_message(store: &mut StatusStore, payload: &[u8]) -> (render: Option<Tuerstatus>)
    ensures
        render == decoded_payload(payload@),
        final(store)@ == stored_after(old(store)@, payload@),
{
    match decode_payload(payload) {
        Some(status) => {
            store.replace(status);
            Some(status)
        },
        None => None,
    }
}

/// The start of a payload, up to what `flti_only` holds.
pub const PAYLOAD_HEAD: &'static str = "{\"flti_only\":";

/// The text between what `flti_only` holds and what `door_open` holds.
pub const PAYLOAD_DOOR: &'static str = ",\"door_open\":";

/// The text between what `door_open` holds and what `timestamp` holds.
pub const PAYLOAD_TIME: &'static str = ",\"timestamp\":";

/// The end of a payload.
pub const PAYLOAD_END: &'static str = "}";

pub const JSON_TRUE: &'static str = "true";

pub const JSON_FALSE: &'static str = "false";

pub const JSON_NULL: &'static str = "null";

/// A boolean as JSON writes it.
pub open spec fn bool_text(b: bool) -> Seq<char> {
    if b {
        JSON_TRUE@
    } else {
        JSON_FALSE@
    }
}

/// A boolean that may be missing as JSON writes it.
pub open spec fn option_text(b: Option<bool>) -> Seq<char> {
    match b {
        Some(b) => bool_text(b),
        None => JSON_NULL@,
    }
}

/// The payload that carries `status`: a JSON object with the members
/// `flti_only`, `door_open` and `timestamp`, in this order, without blanks.
pub open spec fn payload_text(status: Tuerstatus) -> Seq<char> {
    PAYLOAD_HEAD@ + option_text(status.flti_only) + PAYLOAD_DOOR@ + bool_text(status.door_open)
        + PAYLOAD_TIME@ + decimal_digits(status.timestamp as nat) + PAYLOAD_END@
}

/// The status that the switch announces: the door state it shows, changed
/// `now`, for everyone.
pub open spec fn announced(state: bool, now: u64) -> Tuerstatus {
    Tuerstatus { flti_only: Some(false), door_open: state, timestamp: now }
}

/// The members of the payload that carries `status`.
pub open spec fn members_of(status: Tuerstatus) -> Seq<(Seq<char>, Scalar)> {
    seq![
        (
            KEY_FLTI_ONLY@,
            match status.flti_only {
                Some(b) => Scalar::Bool(b),
                None => Scalar::Null,
            },
        ),
        (KEY_DOOR_OPEN@, Scalar::Bool(status.door_open)),
        (KEY_TIMESTAMP@, Scalar::Unsigned(status.timestamp)),
    ]
}

/// The text for a boolean.
fn bool_str(b: bool) -> (text: &'static str)
    ensures
        text@ == bool_text(b),
{
    if b {
        JSON_TRUE
    } else {
        JSON_FALSE
    }
}

/// Writes `status` as the payload of a bus message.
pub fn encode_payload(status: &Tuerstatus) -> (payload: String)
    ensures
        payload@ == payload_text(*status),
{
    let mut payload = String::from_str(PAYLOAD_HEAD);
    match status.flti_only {
        Some(b) => payload.append(bool_str(b)),
        None => payload.append(JSON_NULL),
    }
    payload.append(PAYLOAD_DOOR);
    payload.append(bool_str(status.door_open));
    payload.append(PAYLOAD_TIME);
    push_decimal(&mut payload, status.timestamp);
    payload.append(PAYLOAD_END);
    payload
}

/// The message by which the switch announces the door state `state` at the
/// time `now`: on `topic`, the topic that the subscriber listens on,
/// delivered at least once, and retained, so that who subscribes later learns
/// the last state at once.
pub fn new_door_state(state: bool, now: u64, topic: &str) -> (message: Publication)
    ensures
        message.topic@ == topic@,
        message.delivery == Delivery::AtLeastOnce,
        message.retain,
        message.payload@ == payload_text(announced(state, now)),
{
    let status = Tuerstatus { flti_only: Some(false), door_open: state, timestamp: now };
    Publication {
        topic: String::from_str(topic),
        delivery: Delivery::AtLeastOnce,
        retain: true,
        payload: encode_payload(&status),
    }
}

/// A status is read back from its own members as it was: nothing is lost on
/// the way over the bus.
pub proof fn lemma_members_round_trip(status: Tuerstatus)
    ensures
        decoded(members_of(status)) == Some(status),
{
    reveal_strlit("door_open");
    reveal_strlit("timestamp");
    reveal_strlit("flti_only");
    let members = members_of(status);
    assert(KEY_FLTI_ONLY@[0] != KEY_DOOR_OPEN@[0]);
    assert(KEY_FLTI_ONLY@[0] != KEY_TIMESTAMP@[0]);
    assert(KEY_DOOR_OPEN@[0] != KEY_TIMESTAMP@[0]);
    let second = members.skip(1);
    let third = second.skip(1);
    assert(second[0] == members[1]);
    assert(third[0] == members[2]);
    assert(member(third, KEY_TIMESTAMP@) == Some(Scalar::Unsigned(status.timestamp)));
    assert(member(second, KEY_TIMESTAMP@) == member(third, KEY_TIMESTAMP@));
    assert(member(members, KEY_TIMESTAMP@) == member(second, KEY_TIMESTAMP@));
    assert(member(second, KEY_DOOR_OPEN@) == Some(Scalar::Bool(status.door_open)));
    assert(member(members, KEY_DOOR_OPEN@) == member(second, KEY_DOOR_OPEN@));
}

/// After a message that carries a status, the store holds that status, field
/// for field, whatever it held before.
pub proof fn lemma_message_replaces(before: Tuerstatus, payload: Seq<u8>, status: Tuerstatus)
    requires
        decoded_payload(payload) == Some(status),
    ensures
        stored_after(before, payload) == status,
{
}

/// A message that carries no status leaves the store as it was, however
/// often such messages come.
pub proof fn lemma_noise_changes_nothing(before: Tuerstatus, payloads: Seq<Seq<u8>>)
    requires
        forall|i: int| 0 <= i < payloads.len() ==> decoded_payload(#[trigger] payloads[i]) is None,
    ensures
        stored_after_all(before, payloads) == before,
    decreases payloads.len(),
{
    if payloads.len() > 0 {
        lemma_noise_changes_nothing(before, payloads.drop_last());
    }
}

} // verus!
