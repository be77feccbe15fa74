use doorstate::bus::{
    decode_members, decode_payload, encode_payload, new_door_state, on_message, Delivery, Scalar,
};
use doorstate::settings::command_line_arguments;
use doorstate::sitenav::sitenav;
use doorstate::status::{StatusStore, Tuerstatus};

fn status(flti_only: Option<bool>, door_open: bool, timestamp: u64) -> Tuerstatus {
    Tuerstatus { flti_only, door_open, timestamp }
}

#[test]
fn message_replaces_the_store_and_shows_in_the_fragment() {
    let mut store = StatusStore::new(1);
    let payload = br#"{"door_open":true,"timestamp":1000,"flti_only":false}"#;
    let render = on_message(&mut store, payload);
    let read = store.read();
    assert_eq!(read.door_open, true);
    assert_eq!(read.timestamp, 1000);
    assert_eq!(read.flti_only, Some(false));
    assert_eq!(render, Some(read));
    let fragment = sitenav(&read);
    assert!(fragment.contains("%25green%25besetzt"));
    assert!(fragment.contains("time=1000"));
}

#[test]
fn truncated_json_leaves_the_store_alone() {
    let mut store = StatusStore::new(77);
    let before = store.read();
    let render = on_message(&mut store, br#"{"door_open":true,"timest"#);
    assert_eq!(render, None);
    assert_eq!(store.read(), before);
}

#[test]
fn noise_never_changes_the_store() {
    let mut store = StatusStore::new(5);
    store.replace(status(Some(true), true, 500));
    let before = store.read();
    let noise: Vec<&[u8]> = vec![
        b"",
        b"{",
        b"null",
        b"true",
        b"12",
        b"\"door\"",
        b"[null,true,1000]",
        b"{}",
        br#"{"door_open":true}"#,
        br#"{"timestamp":1000}"#,
        br#"{"door_open":"yes","timestamp":1000}"#,
        br#"{"door_open":1,"timestamp":1000}"#,
        br#"{"door_open":true,"timestamp":"1000"}"#,
        br#"{"door_open":true,"timestamp":-1}"#,
        br#"{"door_open":true,"timestamp":1000.5}"#,
        br#"{"door_open":true,"timestamp":18446744073709551616}"#,
        br#"{"door_open":true,"timestamp":1000,"flti_only":0}"#,
        br#"{"door_open":true,"timestamp":1000,"flti_only":"no"}"#,
        br#"{"door_open":true,"timestamp":1000} trailing"#,
        br#"{"Door_open":true,"timestamp":1000}"#,
        b"\xff\xfe{\"door_open\":true,\"timestamp\":1000}",
        b"{\"door_open\":true,\"timestamp\":1000,\"x\":\"\xc3\"}",
    ];
    for payload in noise {
        assert_eq!(on_message(&mut store, payload), None);
        assert_eq!(store.read(), before);
    }
}

#[test]
fn missing_or_null_flti_only_reads_as_none() {
    assert_eq!(
        decode_payload(br#"{"door_open":false,"timestamp":3}"#),
        Some(status(None, false, 3))
    );
    assert_eq!(
        decode_payload(br#"{"flti_only":null,"door_open":false,"timestamp":3}"#),
        Some(status(None, false, 3))
    );
    assert_eq!(
        decode_payload(br#"{"flti_only":true,"door_open":false,"timestamp":3}"#),
        Some(status(Some(true), false, 3))
    );
}

#[test]
fn other_members_and_blanks_are_ignored() {
    let payload = b" { \"who\" : [1, 2, {\"a\": null}], \"timestamp\" : 18446744073709551615 ,\n \"door_open\" : true } ";
    assert_eq!(decode_payload(payload), Some(status(None, true, u64::MAX)));
}

#[test]
fn an_older_message_still_replaces_a_newer_status() {
    let mut store = StatusStore::new(1);
    on_message(&mut store, br#"{"door_open":true,"timestamp":2000}"#);
    on_message(&mut store, br#"{"door_open":false,"timestamp":1000}"#);
    assert_eq!(store.read(), status(None, false, 1000));
}

#[test]
fn payload_is_written_member_by_member() {
    assert_eq!(
        encode_payload(&status(Some(false), true, 1000)),
        r#"{"flti_only":false,"door_open":true,"timestamp":1000}"#
    );
    assert_eq!(
        encode_payload(&status(None, false, 0)),
        r#"{"flti_only":null,"door_open":false,"timestamp":0}"#
    );
    assert_eq!(
        encode_payload(&status(Some(true), false, u64::MAX)),
        r#"{"flti_only":true,"door_open":false,"timestamp":18446744073709551615}"#
    );
}

#[test]
fn payload_round_trip() {
    let all = [
        status(None, false, 0),
        status(None, true, 1),
        status(Some(false), true, 1000),
        status(Some(true), false, 1700000000),
        status(Some(true), true, u64::MAX),
    ];
    for sent in all {
        let payload = encode_payload(&sent);
        let mut store = StatusStore::new(42);
        assert_eq!(on_message(&mut store, payload.as_bytes()), Some(sent));
        assert_eq!(store.read(), sent);
        assert_eq!(encode_payload(&store.read()), payload);
    }
}

#[test]
fn payload_is_json_that_serde_reads() {
    let payload = encode_payload(&status(Some(false), true, 1000));
    let value: serde_json::Value = serde_json::from_str(&payload).unwrap();
    assert_eq!(value["door_open"], serde_json::Value::Bool(true));
    assert_eq!(value["flti_only"], serde_json::Value::Bool(false));
    assert_eq!(value["timestamp"].as_u64(), Some(1000));
    assert_eq!(value.as_object().unwrap().len(), 3);
}

#[test]
fn members_spell_a_status() {
    let members = vec![
        ("timestamp".to_string(), Scalar::Unsigned(9)),
        ("door_open".to_string(), Scalar::Bool(true)),
    ];
    assert_eq!(decode_members(&members), Some(status(None, true, 9)));
    let members = vec![
        ("flti_only".to_string(), Scalar::Bool(false)),
        ("door_open".to_string(), Scalar::Bool(false)),
        ("timestamp".to_string(), Scalar::Unsigned(10)),
        ("more".to_string(), Scalar::Other),
    ];
    assert_eq!(decode_members(&members), Some(status(Some(false), false, 10)));
}

#[test]
fn members_of_the_wrong_kind_spell_none() {
    let members = vec![
        ("timestamp".to_string(), Scalar::Other),
        ("door_open".to_string(), Scalar::Bool(true)),
    ];
    assert_eq!(decode_members(&members), None);
    let members = vec![
        ("timestamp".to_string(), Scalar::Unsigned(1)),
        ("door_open".to_string(), Scalar::Null),
    ];
    assert_eq!(decode_members(&members), None);
    let members = vec![
        ("timestamp".to_string(), Scalar::Unsigned(1)),
        ("door_open".to_string(), Scalar::Bool(true)),
        ("flti_only".to_string(), Scalar::Unsigned(1)),
    ];
    assert_eq!(decode_members(&members), None);
    assert_eq!(decode_members(&Vec::new()), None);
}

#[test]
fn the_first_member_of_a_key_counts() {
    let members = vec![
        ("door_open".to_string(), Scalar::Bool(true)),
        ("door_open".to_string(), Scalar::Bool(false)),
        ("timestamp".to_string(), Scalar::Unsigned(1)),
    ];
    assert_eq!(decode_members(&members), Some(status(None, true, 1)));
}

#[test]
fn switch_announces_on_the_given_topic() {
    let message = new_door_state(true, 1000, "door");
    assert_eq!(message.topic, "door");
    assert_eq!(message.delivery, Delivery::AtLeastOnce);
    assert!(message.retain);
    assert_eq!(message.payload, r#"{"flti_only":false,"door_open":true,"timestamp":1000}"#);
    let message = new_door_state(false, 5, "hsmr/tuer");
    assert_eq!(message.topic, "hsmr/tuer");
    assert_eq!(message.delivery, Delivery::AtLeastOnce);
    assert!(message.retain);
    assert_eq!(message.payload, r#"{"flti_only":false,"door_open":false,"timestamp":5}"#);
}

#[test]
fn switch_announces_where_the_settings_listen() {
    let settings = command_line_arguments("/wiki", "broker", None, Some("space/door"), Some("4"));
    let message = new_door_state(true, 7, &settings.mqtttopic);
    assert_eq!(message.topic, settings.mqtttopic);
    assert_eq!(message.topic, "space/door");
    let settings = command_line_arguments("/wiki", "broker", None, None, Some("4"));
    let message = new_door_state(true, 7, &settings.mqtttopic);
    assert_eq!(message.topic, "door");
}

#[test]
fn what_the_switch_announces_comes_back_from_the_bus() {
    let message = new_door_state(true, 123456, "door");
    let mut store = StatusStore::new(0);
    on_message(&mut store, message.payload.as_bytes());
    assert_eq!(store.read(), status(Some(false), true, 123456));
}
