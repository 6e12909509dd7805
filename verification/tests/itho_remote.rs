use jzon::number::Number;
use openflow::http::{should_retry, Attempt};
use openflow::itho::{remote_readings, setting_reading, status_reading, Error, RemoteStatus};
use openflow::json::JsonNumber;

/// The value of a number as the program reads it: as a float, truncated.
fn float(n: JsonNumber) -> f64 {
    f64::from(Number::from_parts(n.positive, n.mantissa, n.exponent))
}

/// The number of requests made against a server that answers every request
/// with `status` (0 for success).
fn requests_made(status: u16) -> usize {
    let mut attempts = 1;
    loop {
        let outcome = if status == 0 { Attempt::Succeeded } else { Attempt::Status(status) };
        if !should_retry(attempts, outcome) {
            return attempts;
        }
        attempts += 1;
    }
}

#[test]
fn test_remote_status_name() {
    assert_eq!(RemoteStatus::Unknown.name(), "unknown");
    assert_eq!(RemoteStatus::Low.name(), "low");
    assert_eq!(RemoteStatus::High.name(), "high");
    assert_eq!(RemoteStatus::Cook30.name(), "cook30");
    assert_eq!(RemoteStatus::Cook60.name(), "cook60");
    assert_eq!(RemoteStatus::Timer1.name(), "timer1");
    assert_eq!(RemoteStatus::Timer2.name(), "timer2");
    assert_eq!(RemoteStatus::Timer3.name(), "timer3");
}

#[test]
fn test_remote_status_eq() {
    assert_eq!(RemoteStatus::Unknown, RemoteStatus::Unknown);
    assert_eq!(RemoteStatus::Low, RemoteStatus::Low);
    assert_eq!(RemoteStatus::High, RemoteStatus::High);
    assert_eq!(RemoteStatus::Cook30, RemoteStatus::Cook30);
    assert_eq!(RemoteStatus::Cook60, RemoteStatus::Cook60);
    assert_eq!(RemoteStatus::Timer1, RemoteStatus::Timer1);
    assert_eq!(RemoteStatus::Timer2, RemoteStatus::Timer2);
    assert_eq!(RemoteStatus::Timer3, RemoteStatus::Timer3);
    assert_ne!(RemoteStatus::Low, RemoteStatus::High);
}

#[test]
fn test_remote_status_from_u64() {
    assert_eq!(RemoteStatus::from(6), RemoteStatus::High);
    assert_eq!(RemoteStatus::from(8), RemoteStatus::Timer1);
    assert_eq!(RemoteStatus::from(9), RemoteStatus::Timer2);
    assert_eq!(RemoteStatus::from(10), RemoteStatus::Timer3);
    assert_eq!(RemoteStatus::from(13), RemoteStatus::Cook30);
    assert_eq!(RemoteStatus::from(14), RemoteStatus::Cook60);
    assert_eq!(RemoteStatus::from(15), RemoteStatus::Low);
}

#[test]
fn remote_status_from_unknown_numbers_is_low() {
    assert_eq!(RemoteStatus::from(0), RemoteStatus::Low);
    assert_eq!(RemoteStatus::from(7), RemoteStatus::Low);
    assert_eq!(RemoteStatus::from(u64::MAX), RemoteStatus::Low);
}

fn number(v: u64) -> Option<JsonNumber> {
    Some(JsonNumber { positive: true, mantissa: v, exponent: 0 })
}

#[test]
fn itho_remote_readings_from_answer() {
    let readings = remote_readings(
        "{ \"kitchen\": { \"timestamp\": 123, \"lastcmd\": 6 }, \"junk\": 4, \"hall\": { \"lastcmd\": 8.5 } }",
    )
    .unwrap();
    assert_eq!(readings.len(), 2);
    assert_eq!(readings[0].name, "kitchen");
    assert_eq!(readings[0].timestamp, number(123));
    assert_eq!(readings[0].command, number(6));
    assert_eq!(readings[1].name, "hall");
    assert_eq!(readings[1].timestamp, None);
    assert_eq!(readings[1].command, Some(JsonNumber { positive: true, mantissa: 85, exponent: -1 }));
}

#[test]
fn itho_remote_readings_with_invalid_json() {
    assert!(matches!(remote_readings("42"), Err(Error::InvalidRootValue)));
    assert!(matches!(remote_readings("{ \"a\": "), Err(Error::InvalidJson(_))));
}

#[test]
fn itho_status_reading_from_answer() {
    let status =
        status_reading("{ \"exhaust fan (%)\": 42, \"RH bathroom1 (%)\": 50, \"RH x\": \"n/a\", \"temp\": 20 }")
            .unwrap();
    assert_eq!(status.exhaust_speed, number(42));
    assert_eq!(status.humidity, vec![("RH bathroom1 (%)".to_string(), JsonNumber { positive: true, mantissa: 50, exponent: 0 })]);
    assert!(matches!(status_reading("42"), Err(Error::InvalidRootValue)));
}

#[test]
fn itho_setting_reading_from_answer() {
    assert_eq!(setting_reading("{ \"current\": 42 }"), Ok(number(42)));
    assert_eq!(setting_reading("{ \"other\": 42 }"), Ok(None));
    assert_eq!(setting_reading("[1, 2]"), Ok(None));
    assert!(matches!(setting_reading("{"), Err(Error::InvalidJson(_))));
}

#[test]
fn itho_error_messages() {
    assert_eq!(Error::RequestFailed("boom".to_string()).to_string(), "the request failed: boom");
    assert_eq!(Error::InvalidRootValue.to_string(), "the root JSON value must be an object");
    assert_eq!(Error::InvalidJson("x".to_string()).to_string(), "the JSON is invalid: x");
}

#[test]
fn test_itho_set_with_ok_response() {
    assert_eq!(requests_made(0), 1);
}

#[test]
fn test_itho_set_with_error_response() {
    assert_eq!(requests_made(500), 10);
}

#[test]
fn test_itho_get_with_int_response() {
    let current = setting_reading("{ \"current\": 42 }").unwrap();
    assert_eq!(current.map(float).unwrap_or(0.0) as u64, 42);
}

#[test]
fn test_itho_get_with_float_response() {
    let current = setting_reading("{ \"current\": 42.3 }").unwrap();
    assert_eq!(current.map(float).unwrap_or(0.0) as u64, 42);
}

#[test]
fn test_itho_get_with_error_response() {
    assert_eq!(requests_made(500), 10);
}

#[test]
fn test_itho_status_with_int_response() {
    let status = status_reading("{ \"exhaust fan (%)\": 42, \"RH bathroom1 (%)\": 50 }").unwrap();
    assert_eq!(status.exhaust_speed.map(float).unwrap_or(0.0) as u64, 42);
    assert_eq!(status.humidity.len(), 1);
    assert_eq!(status.humidity[0].0, "RH bathroom1 (%)");
    assert_eq!(float(status.humidity[0].1) as u64, 50);
}

#[test]
fn test_itho_status_with_float_response() {
    let status =
        status_reading("{ \"exhaust fan (%)\": 42.5, \"RH bathroom1 (%)\": 50.5 }").unwrap();
    assert_eq!(status.exhaust_speed.map(float).unwrap_or(0.0) as u64, 42);
    assert_eq!(status.humidity.len(), 1);
    assert_eq!(status.humidity[0].0, "RH bathroom1 (%)");
    assert_eq!(float(status.humidity[0].1) as u64, 50);
}

#[test]
fn test_itho_status_with_invalid_json() {
    assert!(matches!(status_reading("42"), Err(Error::InvalidRootValue)));
}

#[test]
fn test_itho_remotes_with_int_response() {
    let readings = remote_readings("{ \"kitchen\": { \"timestamp\": 123, \"lastcmd\": 6 } }").unwrap();
    assert_eq!(readings.len(), 1);
    assert_eq!(readings[0].name, "kitchen");
    assert_eq!(readings[0].timestamp.map(float).unwrap_or(0.0) as i64, 123);
    assert_eq!(RemoteStatus::from(readings[0].command.map(float).unwrap_or(0.0) as u64), RemoteStatus::High);
}

#[test]
fn test_itho_remotes_with_float_response() {
    let readings =
        remote_readings("{ \"kitchen\": { \"timestamp\": 123.5, \"lastcmd\": 6.0 } }").unwrap();
    assert_eq!(readings.len(), 1);
    assert_eq!(readings[0].name, "kitchen");
    assert_eq!(readings[0].timestamp.map(float).unwrap_or(0.0) as i64, 123);
    assert_eq!(RemoteStatus::from(readings[0].command.map(float).unwrap_or(0.0) as u64), RemoteStatus::High);
}

#[test]
fn test_itho_remotes_with_invalid_response() {
    assert_eq!(requests_made(500), 10);
}

#[test]
fn test_itho_remotes_with_invalid_json() {
    assert!(matches!(remote_readings("42"), Err(Error::InvalidRootValue)));
}
