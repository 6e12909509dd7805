use openflow::config::{Config, Error};
use openflow::json::JsonNumber;
use std::time::Duration;

const CONFIG: &str = r#"
{
  "rooms": {
    "office": {
      "exhaust": 11,
      "flow": {
        "correction": 1.1,
        "minimum": 10,
        "maximum": 80,
        "default": 20,
        "low": 5,
        "medium": 50,
        "medium_high": 65,
        "high": 90
      },
      "motion": 42,
      "co2": "10.0.0.5",
      "co2_minimum": 650
    },
    "bathroom": {
      "exhaust": 15,
      "flow": {
        "correction": 1,
        "minimum": 0,
        "maximum": 120,
        "default": 10,
        "low": 40,
        "medium": 50,
        "medium_high": 65,
        "high": 75,
        "button": 100
      },
      "humidity": "RH bathroom 1"
    }
  },
  "itho": {
    "address": "10.0.0.2",
    "manual_id": 111,
    "speed_id": 124,
    "minimum_flow": 75,
    "maximum_flow": 350
  },
  "metrics": { "ip": "10.0.0.3", "port": 65545 },
  "hue": { "ip": "10.0.0.4", "user": "alice" },
  "humidity": { "high": 80, "low": 70, "correction": -3 },
  "remote": {
    "id": "remote",
    "buttons": {
      "timer1": { "rooms": ["office", "bathroom"], "duration": 600 },
      "cook30": { "rooms": [], "duration": 1800 }
    }
  }
}
"#;

fn parse(text: &str) -> Result<Config, Error> {
    Config::parse(text)
}

#[test]
fn config_parses_all_sections() {
    let config = parse(CONFIG).unwrap();
    assert_eq!(config.rooms.len(), 2);
    let office = &config.rooms[0];
    assert_eq!(office.name, "office");
    assert_eq!(office.exhaust, 11);
    assert_eq!(office.flow.correction, JsonNumber { positive: true, mantissa: 11, exponent: -1 });
    assert_eq!(office.flow.minimum, 10);
    assert_eq!(office.flow.maximum, 80);
    assert_eq!(office.flow.high, 90);
    // The button flow defaults to the maximum flow.
    assert_eq!(office.flow.button, 80);
    assert_eq!(office.motion, Some(42));
    assert_eq!(office.co2, Some("10.0.0.5".to_string()));
    assert_eq!(office.co2_minimum, Some(650));
    assert_eq!(office.humidity, None);
    let bath = &config.rooms[1];
    assert_eq!(bath.name, "bathroom");
    assert_eq!(bath.flow.button, 100);
    assert_eq!(bath.humidity, Some("RH bathroom 1".to_string()));
    assert_eq!(config.itho.address, "10.0.0.2");
    assert_eq!(config.itho.adjust_time, 5);
    assert_eq!(config.itho.maximum_flow, 350);
    assert_eq!(config.metrics.ip, "10.0.0.3");
    // The port keeps its low 16 bits.
    assert_eq!(config.metrics.port, 9);
    assert_eq!(config.hue.user, "alice");
    assert_eq!(config.humidity.high, 80);
    assert_eq!(config.humidity.max_increase, 15);
    assert_eq!(config.humidity.correction, -3);
    let remote = config.remote.unwrap();
    assert_eq!(remote.id, "remote");
    assert_eq!(remote.buttons.len(), 2);
    assert_eq!(remote.buttons[0].name, "timer1");
    assert_eq!(remote.buttons[0].rooms, vec!["office".to_string(), "bathroom".to_string()]);
    assert_eq!(remote.buttons[0].duration, Duration::from_secs(600));
    assert!(remote.buttons[1].rooms.is_empty());
}

#[test]
fn config_defaults_and_optional_remote() {
    let text = CONFIG.replace("\"remote\"", "\"unused\"").replace(", \"correction\": -3", "");
    let config = parse(&text).unwrap();
    assert!(config.remote.is_none());
    assert_eq!(config.humidity.correction, -5);
}

#[test]
fn config_with_invalid_syntax() {
    match parse("{ \"rooms\": ") {
        Err(Error::InvalidSyntax(m)) => assert!(!m.is_empty()),
        _ => panic!("expected a syntax error"),
    }
}

#[test]
fn config_with_missing_or_wrong_values() {
    assert_eq!(parse("42").err(), Some(Error::InvalidConfig));
    assert_eq!(parse("{}").err(), Some(Error::InvalidConfig));
    let text = CONFIG.replace("\"exhaust\": 11", "\"exhaust\": -11");
    assert_eq!(parse(&text).err(), Some(Error::InvalidConfig));
    let text = CONFIG.replace("\"exhaust\": 11", "\"exhaust\": 11.5");
    assert_eq!(parse(&text).err(), Some(Error::InvalidConfig));
    let text = CONFIG.replace("[\"office\", \"bathroom\"]", "[\"office\", 3]");
    assert_eq!(parse(&text).err(), Some(Error::InvalidConfig));
    let text = CONFIG.replace("\"user\": \"alice\"", "\"user\": 1");
    assert_eq!(parse(&text).err(), Some(Error::InvalidConfig));
    let text = CONFIG.replace("\"correction\": 1.1", "\"correction\": \"x\"");
    assert_eq!(parse(&text).err(), Some(Error::InvalidConfig));
}

#[test]
fn config_humidity_correction_extremes() {
    let text = CONFIG.replace("\"correction\": -3", "\"correction\": -9223372036854775808");
    assert_eq!(Config::parse(&text).unwrap().humidity.correction, i64::MIN);
    let text = CONFIG.replace("\"correction\": -3", "\"correction\": -9223372036854775807");
    assert_eq!(Config::parse(&text).unwrap().humidity.correction, -9223372036854775807);
}

#[test]
fn config_addresses_are_checked() {
    let config = parse(CONFIG).unwrap();
    assert!(matches!(parse(CONFIG).unwrap().check_addresses(true, false), Err(Error::InvalidConfig)));
    assert!(matches!(parse(CONFIG).unwrap().check_addresses(false, true), Err(Error::InvalidConfig)));
    let kept = config.check_addresses(true, true).unwrap();
    assert_eq!(kept.rooms.len(), 2);
}

#[test]
fn config_error_messages() {
    assert_eq!(Error::InvalidFile("gone".to_string()).to_string(), "gone");
    assert_eq!(
        Error::InvalidSyntax("bad".to_string()).to_string(),
        "the JSON syntax is invalid: bad"
    );
    assert_eq!(Error::InvalidConfig.to_string(), "the configuration is invalid");
    assert_eq!(Error::from("m".to_string()), Error::InvalidSyntax("m".to_string()));
}
