//! The settings of the program, from the values of its command line.

use vstd::prelude::*;
use vstd::string::StringExecFns;
use crate::bus::DOOR_TOPIC;
use crate::decimal::{parse_unsigned, parsed_unsigned};

verus! {

/// The broker's port where none is given.
pub const DEFAULT_PORT: u16 = 1883;

/// What the program runs with.
#[derive(Debug)]
pub struct Settings {
    /// The directory of the wiki.
    pub wikipath: String,
    pub mqttbroker: String,
    pub mqttport: u16,
    pub mqtttopic: String,
    /// Whether a door switch is watched.
    pub switch_enabled: bool,
    /// The pin of the switch; 0 where none is watched.
    pub switch_pin: u32,
}

/// Which value of the command line is no number of its kind.
#[derive(Clone, Copy, Debug, PartialEq, Eq, Structural)]
pub enum SettingsError {
    /// The pin of the switch is no number that fits 32 bits.
    SwitchPin,
    /// The broker's port is no number that fits 16 bits.
    BrokerPort,
}

/// The pin that the text names, if it names one.
pub open spec fn pin_of(text: Seq<char>) -> Option<u32> {
    match parsed_unsigned(text, u32::MAX as nat) {
        Some(n) => Some(n as u32),
        None => None,
    }
}

/// The port to use: the one that the text names, if it names one, and the
/// default where no text is given.
pub open spec fn port_of(text: Option<Seq<char>>) -> Option<u16> {
    match text {
        Some(text) => match parsed_unsigned(text, u16::MAX as nat) {
            Some(n) => Some(n as u16),
            None => None,
        },
        None => Some(DEFAULT_PORT),
    }
}

/// The topic to listen on: the given one, or the door topic.
pub open spec fn topic_of(text: Option<Seq<char>>) -> Seq<char> {
    match text {
        Some(text) => text,
        None => DOOR_TOPIC@,
    }
}

/// The view of a text that may be missing.
pub open spec fn text_view(text: Option<&str>) -> Option<Seq<char>> {
    match text {
        Some(text) => Some(text@),
        None => None,
    }
}

/// Whether `settings` is what these values of the command line ask for.
pub open spec fn settings_match(
    settings: Settings,
    wikipath: Seq<char>,
    broker: Seq<char>,
    port: Option<Seq<char>>,
    topic: Option<Seq<char>>,
    switch: Option<Seq<char>>,
) -> bool {
    &&& settings.wikipath@ == wikipath
    &&& settings.mqttbroker@ == broker
    &&& Some(settings.mqttport) == port_of(port)
    &&& settings.mqtttopic@ == topic_of(topic)
    &&& settings.switch_enabled == switch is Some
    &&& settings.switch_pin == match switch {
        Some(text) => pin_of(text).unwrap(),
        None => 0,
    }
}

/// What is wrong with the numbers of the command line, if anything. The pin
/// is looked at first, then the port.
pub open spec fn number_error(port: Option<Seq<char>>, switch: Option<Seq<char>>) -> Option<
    SettingsError,
> {
    if switch is Some && pin_of(switch.unwrap()) is None {
        Some(SettingsError::SwitchPin)
    } else if port_of(port) is None {
        Some(SettingsError::BrokerPort)
    } else {
        None
    }
}

/// Tests the numbers of the command line: the pin, where one is given, and
/// the port, where one is given. Says which of them is no number of its kind;
/// the pin comes first.
pub fn check_arguments(port: Option<&str>, switch: Option<&str>) -> (checked: Result<
    (),
    SettingsError,
>)
    ensures
        match number_error(text_view(port), text_view(switch)) {
            Some(e) => checked == Err::<(), SettingsError>(e),
            None => checked is Ok,
        },
{
    match switch {
        Some(text) => {
            if parse_unsigned(text, 0xffff_ffff).is_none() {
                return Err(SettingsError::SwitchPin);
            }
        },
        None => {},
    }
    match port {
        Some(text) => {
            if parse_unsigned(text, 0xffff).is_none() {
                return Err(SettingsError::BrokerPort);
            }
        },
        None => {},
    }
    Ok(())
}

/// Makes the settings from the values of the command line. A switch is
/// watched exactly where a pin is given. The port is 1883 and the topic is
/// `door` where none is given.
///
/// The pin and the port must be numbers of their kind: [`check_arguments`]
/// tests that.
pub fn command_line_arguments(
    wikipath: &str,
    broker: &str,
    port: Option<&str>,
    topic: Option<&str>,
    switch: Option<&str>,
) -> (settings: Settings)
    requires
        port_of(text_view(port)) is Some,
        text_view(switch) matches Some(text) ==> pin_of(text) is Some,
    ensures
        settings_match(
            settings,
            wikipath@,
            broker@,
            text_view(port),
            text_view(topic),
            text_view(switch),
        ),
{
    let (switch_enabled, switch_pin) = match switch {
        Some(text) => (true, parse_unsigned(text, 0xffff_ffff).unwrap() as u32),
        None => (false, 0u32),
    };
    let mqttport: u16 = match port {
        Some(text) => parse_unsigned(text, 0xffff).unwrap() as u16,
        None => DEFAULT_PORT,
    };
    let mqtttopic = match topic {
        Some(text) => String::from_str(text),
        None => String::from_str(DOOR_TOPIC),
    };
    Settings {
        wikipath: String::from_str(wikipath),
        mqttbroker: String::from_str(broker),
        mqttport,
        mqtttopic,
        switch_enabled,
        switch_pin,
    }
}

} // verus!
