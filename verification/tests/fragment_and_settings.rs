use doorstate::clock::unixtime_now;
use doorstate::settings::{check_arguments, command_line_arguments, SettingsError};
use doorstate::sitenav::{sitenav, write_sitenav};
use doorstate::status::Tuerstatus;

#[test]
fn fragment_for_an_open_door() {
    let status = Tuerstatus { flti_only: None, door_open: true, timestamp: 1000 };
    assert_eq!(
        sitenav(&status),
        "version=pmwiki-2.2.53 ordered=1 urlencoded=1\nname=Site.SiteNav\ntargets=Infrastruktur.ServerB2s\ntext=* [[#door]][[Infrastruktur/Door | %25black%25Base: <br />%25green%25besetzt%25%25]]\ntime=1000"
    );
}

#[test]
fn fragment_for_a_closed_door() {
    let status = Tuerstatus { flti_only: Some(false), door_open: false, timestamp: 0 };
    assert_eq!(
        sitenav(&status),
        "version=pmwiki-2.2.53 ordered=1 urlencoded=1\nname=Site.SiteNav\ntargets=Infrastruktur.ServerB2s\ntext=* [[#door]][[Infrastruktur/Door | %25black%25Base: <br />%25red%25unbesetzt%25%25]]\ntime=0"
    );
}

#[test]
fn fragment_goes_below_the_wiki_directory() {
    let status = Tuerstatus { flti_only: None, door_open: true, timestamp: 17 };
    let file = write_sitenav("/var/www/wiki", &status);
    assert_eq!(file.path, "/var/www/wiki/wiki.d/Site.SiteNav");
    assert_eq!(file.content, sitenav(&status));
    let file = write_sitenav("", &status);
    assert_eq!(file.path, "/wiki.d/Site.SiteNav");
}

#[test]
fn fragment_does_not_depend_on_flti_only() {
    let a = Tuerstatus { flti_only: None, door_open: true, timestamp: 17 };
    let b = Tuerstatus { flti_only: Some(true), door_open: true, timestamp: 17 };
    assert_eq!(sitenav(&a), sitenav(&b));
}

#[test]
fn settings_with_defaults() {
    assert_eq!(check_arguments(None, None), Ok(()));
    let settings = command_line_arguments("/wiki", "broker.local", None, None, None);
    assert_eq!(settings.wikipath, "/wiki");
    assert_eq!(settings.mqttbroker, "broker.local");
    assert_eq!(settings.mqttport, 1883);
    assert_eq!(settings.mqtttopic, "door");
    assert_eq!(settings.switch_enabled, false);
    assert_eq!(settings.switch_pin, 0);
}

#[test]
fn settings_with_all_values() {
    assert_eq!(check_arguments(Some("8883"), Some("17")), Ok(()));
    let settings =
        command_line_arguments("/wiki", "10.0.0.1", Some("8883"), Some("tuer"), Some("17"));
    assert_eq!(settings.wikipath, "/wiki");
    assert_eq!(settings.mqttbroker, "10.0.0.1");
    assert_eq!(settings.mqttport, 8883);
    assert_eq!(settings.mqtttopic, "tuer");
    assert_eq!(settings.switch_enabled, true);
    assert_eq!(settings.switch_pin, 17);
}

#[test]
fn settings_with_pin_zero_watch_a_switch() {
    assert_eq!(check_arguments(None, Some("0")), Ok(()));
    let settings = command_line_arguments("w", "b", None, None, Some("0"));
    assert_eq!(settings.switch_enabled, true);
    assert_eq!(settings.switch_pin, 0);
}

#[test]
fn settings_take_the_largest_numbers() {
    assert_eq!(check_arguments(Some("65535"), Some("4294967295")), Ok(()));
    let settings = command_line_arguments("w", "b", Some("65535"), None, Some("4294967295"));
    assert_eq!(settings.mqttport, 65535);
    assert_eq!(settings.switch_pin, u32::MAX);
    let settings = command_line_arguments("w", "b", Some("+0"), None, None);
    assert_eq!(settings.mqttport, 0);
}

#[test]
fn a_bad_port_is_found() {
    for port in ["65536", "70000", "-1", "", "x", "mqtt", "18 83"] {
        assert_eq!(check_arguments(Some(port), None), Err(SettingsError::BrokerPort));
        assert_eq!(check_arguments(Some(port), Some("4")), Err(SettingsError::BrokerPort));
    }
}

#[test]
fn a_bad_pin_is_found() {
    for pin in ["4294967296", "-4", "", "GPIO4"] {
        assert_eq!(check_arguments(None, Some(pin)), Err(SettingsError::SwitchPin));
        assert_eq!(check_arguments(Some("1883"), Some(pin)), Err(SettingsError::SwitchPin));
    }
}

#[test]
fn the_pin_is_looked_at_before_the_port() {
    assert_eq!(check_arguments(Some("x"), Some("y")), Err(SettingsError::SwitchPin));
}

#[test]
fn clock_shows_the_system_time() {
    let before = std::time::SystemTime::now()
        .duration_since(std::time::UNIX_EPOCH)
        .unwrap()
        .as_secs();
    let now = unixtime_now().unwrap();
    let after = std::time::SystemTime::now()
        .duration_since(std::time::UNIX_EPOCH)
        .unwrap()
        .as_secs();
    assert!(before <= now && now <= after);
}
