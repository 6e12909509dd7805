use openflow::http::{should_retry, Attempt};
use openflow::hue::{sensors_from_body, sensors_from_json, Error as HueError};
use openflow::itho::{remote_readings_from_json, setting_from_json, status_reading_from_json};
use openflow::json::{as_i64, as_u64, get, index, Json, JsonNumber};
use openflow::more_sense::{co2_from_json, co2_reading, Error as MoreSenseError};
use openflow::text::{parse_u64, starts_with};

#[test]
fn test_sensors_with_ok_response() {
    let sensors = sensors_from_body(
        r#"
{
  "10": { "type": "ZLLPresence", "state": { "presence": true } },
  "20": { "type": "ZLLPresence", "state": { "presence": false } },
  "30": { "type": "ZLLPresence" },
  "40": { "type": "ZLLWhatever", "state": { "presence": true } }
}
"#,
    )
    .unwrap();

    assert_eq!(sensors.motion.get(&10), Some(&true));
    assert_eq!(sensors.motion.get(&20), Some(&false));
    assert_eq!(sensors.motion.get(&30), Some(&false));
    assert_eq!(sensors.motion.get(&40), None);
}

#[test]
fn test_sensors_with_invalid_root() {
    assert!(matches!(sensors_from_body("42"), Err(HueError::InvalidRootValue)));
}

#[test]
fn test_sensors_with_invalid_json_syntax() {
    assert!(matches!(sensors_from_body(r#"{ "key": "#), Err(HueError::InvalidJson(_))));
}

#[test]
fn test_sensors_with_invalid_json_keys() {
    assert!(matches!(
        sensors_from_body(r#" { "foo": { "type": "ZLLPresence" } } "#),
        Err(HueError::InvalidJson(_))
    ));
}

#[test]
fn test_sensors_with_invalid_response() {
    // A bridge answering every request with status 500 is asked ten times.
    let mut attempts = 1;
    while should_retry(attempts, Attempt::Status(500)) {
        attempts += 1;
    }
    assert_eq!(attempts, 10);
}

#[test]
fn hue_keys_spelling_the_same_number() {
    let sensors = sensors_from_body(
        r#"{ "7": { "type": "ZLLPresence", "state": { "presence": true } }, "+7": { "type": "ZLLPresence" } }"#,
    )
    .unwrap();
    assert_eq!(sensors.motion.get(&7), Some(&false));
    assert_eq!(
        HueError::InvalidJson("all keys must be integers".to_string()).to_string(),
        "the JSON is invalid: all keys must be integers"
    );
}

#[test]
fn more_sense_co2_reading() {
    assert_eq!(co2_reading("{ \"CO2\": 612 }"), Ok(612));
    assert_eq!(
        co2_reading("{ \"CO2\": 612.5 }"),
        Err(MoreSenseError::InvalidJson("the value of the \"CO2\" key must be an integer".to_string()))
    );
    assert!(matches!(co2_reading("{ \"temp\": 20 }"), Err(MoreSenseError::InvalidJson(_))));
    assert!(matches!(co2_reading("nope"), Err(MoreSenseError::InvalidJson(_))));
    assert_eq!(MoreSenseError::RequestFailed("x".to_string()).to_string(), "the request failed: x");
}

#[test]
fn u64_text_parsing() {
    assert_eq!(parse_u64("0"), Some(0));
    assert_eq!(parse_u64("+42"), Some(42));
    assert_eq!(parse_u64("18446744073709551615"), Some(u64::MAX));
    assert_eq!(parse_u64("18446744073709551616"), None);
    assert_eq!(parse_u64(""), None);
    assert_eq!(parse_u64("+"), None);
    assert_eq!(parse_u64("-1"), None);
    assert_eq!(parse_u64(" 1"), None);
    assert_eq!(parse_u64("1a"), None);
    for s in ["0", "+42", "007", "99999999999999999999", "x", "+", "-3", ""] {
        assert_eq!(parse_u64(s), s.parse::<u64>().ok());
    }
}

#[test]
fn prefix_test() {
    assert!(starts_with("RH bathroom", "RH "));
    assert!(!starts_with("RHbathroom", "RH "));
    assert!(!starts_with("RH", "RH "));
    assert!(starts_with("x", ""));
}

#[test]
fn json_lookup_and_numbers() {
    let object = vec![
        ("a".to_string(), Json::Number(JsonNumber { positive: true, mantissa: 5, exponent: 0 })),
        ("b".to_string(), Json::Number(JsonNumber { positive: false, mantissa: 5, exponent: 0 })),
        ("c".to_string(), Json::Number(JsonNumber { positive: true, mantissa: 50, exponent: -1 })),
        ("d".to_string(), Json::Object(vec![("e".to_string(), Json::Bool(true))])),
    ];
    assert_eq!(as_u64(get(&object, "a")), Some(5));
    assert_eq!(as_u64(get(&object, "b")), None);
    assert_eq!(as_u64(get(&object, "c")), None);
    assert_eq!(as_u64(get(&object, "zz")), None);
    assert_eq!(as_i64(get(&object, "b")), Some(-5));
    assert_eq!(as_i64(get(&object, "c")), None);
    let d = get(&object, "d");
    assert!(matches!(index(d, "e"), Some(Json::Bool(true))));
    assert!(index(get(&object, "a"), "e").is_none());
    let wrapped = vec![(
        "big".to_string(),
        Json::Number(JsonNumber { positive: true, mantissa: u64::MAX, exponent: 0 }),
    )];
    // Above i64::MAX the mantissa wraps, as jzon's conversion does.
    assert_eq!(as_i64(get(&wrapped, "big")), Some(-1));
}

fn num(v: u64) -> Json {
    Json::Number(JsonNumber { positive: true, mantissa: v, exponent: 0 })
}

fn object(entries: Vec<(&str, Json)>) -> Json {
    Json::Object(entries.into_iter().map(|(k, v)| (k.to_string(), v)).collect())
}

#[test]
fn decoding_parsed_documents() {
    let sensor = object(vec![
        ("type", Json::Str("ZLLPresence".to_string())),
        ("state", object(vec![("presence", Json::Bool(true))])),
    ]);
    let sensors = sensors_from_json(&object(vec![("7", sensor)])).unwrap();
    assert_eq!(sensors.motion.get(&7), Some(&true));
    assert!(matches!(sensors_from_json(&num(1)), Err(HueError::InvalidRootValue)));

    assert_eq!(co2_from_json(&object(vec![("CO2", num(812))])), Ok(812));
    assert!(matches!(co2_from_json(&object(vec![])), Err(MoreSenseError::InvalidJson(_))));

    assert_eq!(
        setting_from_json(&object(vec![("current", num(3))])),
        Some(JsonNumber { positive: true, mantissa: 3, exponent: 0 })
    );
    assert_eq!(setting_from_json(&num(3)), None);

    let status = status_reading_from_json(&object(vec![
        ("exhaust fan (%)", num(40)),
        ("RH kitchen", num(55)),
        ("temp", num(20)),
    ]))
    .unwrap();
    assert_eq!(status.exhaust_speed, Some(JsonNumber { positive: true, mantissa: 40, exponent: 0 }));
    assert_eq!(status.humidity.len(), 1);
    assert_eq!(status.humidity[0].0, "RH kitchen");

    let remotes = remote_readings_from_json(&object(vec![
        ("hall", object(vec![("lastcmd", num(6))])),
        ("junk", num(1)),
    ]))
    .unwrap();
    assert_eq!(remotes.len(), 1);
    assert_eq!(remotes[0].name, "hall");
    assert!(remote_readings_from_json(&Json::Null).is_err());
}
