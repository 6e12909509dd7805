use openflow::config::{Flow as FlowConfig, Itho as IthoConfig, Room as RoomConfig};
use openflow::inputs::co2::{Co2Decision, Sensor, SAMPLES};
use openflow::inputs::remote::{Button, Input as RemoteInput, RemoteAction};
use openflow::itho::{Remote, RemoteStatus};
use openflow::json::JsonNumber;
use openflow::state::{Room, State};
use openflow::status::Status;
use std::time::Duration;

fn flow(minimum: u64, maximum: u64, default: u64, low: u64, high: u64, button: u64) -> FlowConfig {
    FlowConfig {
        correction: JsonNumber { positive: true, mantissa: 1, exponent: 0 },
        minimum,
        maximum,
        default,
        low,
        medium: 50,
        medium_high: 65,
        high,
        button,
    }
}

fn room(name: &str, exhaust: u64, flow: FlowConfig) -> RoomConfig {
    RoomConfig {
        name: name.to_string(),
        exhaust,
        flow,
        motion: None,
        humidity: None,
        co2: None,
        co2_minimum: None,
    }
}

fn state() -> State {
    let conf = IthoConfig {
        address: "localhost".to_string(),
        minimum_flow: 75,
        maximum_flow: 350,
        speed_id: 124,
        manual_id: 111,
        adjust_time: 0,
    };
    let mut state = State::new(&conf);
    let rooms = [
        room("living_room", 10, flow(0, 70, 0, 40, 75, 50)),
        room("office", 11, flow(10, 80, 20, 5, 90, 80)),
        room("super_fast", 15, flow(0, 400, 0, 40, 75, 400)),
        room("bathroom", 15, flow(0, 120, 10, 40, 75, 120)),
    ];
    for r in rooms.iter() {
        state.add_room(Room::new(r.name.clone(), r));
    }
    state
}

fn status(state: &State, name: &str) -> Status {
    state.rooms[state.room_index(name).unwrap()].status.clone()
}

fn set_status(state: &mut State, name: &str, s: Status) {
    let i = state.room_index(name).unwrap();
    state.rooms[i].update(s);
}

fn sensor() -> Sensor {
    Sensor::new("office".to_string(), "localhost".to_string())
}

/// One period of the CO2 input: a sample per interval, then the decision,
/// handed to the state. The waiting time before reducing is zero.
fn run(state: &mut State, sensor: &mut Sensor, level: u64) {
    for _ in 0..SAMPLES {
        assert!(sensor.sample(level));
    }
    match sensor.decide(true).1 {
        Co2Decision::Change(s) => state.apply_co2_statuses(&vec![(sensor.name.clone(), s)]),
        Co2Decision::Keep => {},
        Co2Decision::Overflow => panic!("attempt to add with overflow"),
    }
}

#[test]
fn test_applying_default_ventilation_in_response_to_co2_levels() {
    let mut state = state();
    let mut sensor = sensor();
    run(&mut state, &mut sensor, 450);
    assert_eq!(status(&state, "office"), Status::Default);
}

#[test]
fn test_applying_ventilation_in_response_to_different_co2_levels() {
    let tests = [
        (500_u64, Status::Default),
        (600, Status::Default),
        (625, Status::Default),
        (650, Status::Default),
        (675, Status::Default),
        (700, Status::Low),
        (725, Status::Low),
        (750, Status::Medium),
        (800, Status::MediumHigh),
        (825, Status::MediumHigh),
        (850, Status::MediumHigh),
        (875, Status::MediumHigh),
        (900, Status::High),
        (1000, Status::Maximum),
        (850, Status::MediumHigh),
        (800, Status::MediumHigh),
        (750, Status::MediumHigh),
        (700, Status::Low),
        (650, Status::Low),
        (625, Status::Default),
        (600, Status::Default),
    ];
    let mut state = state();
    let mut sensor = sensor();
    for (level, expected) in tests {
        run(&mut state, &mut sensor, level);
        assert_eq!(status(&state, "office"), expected);
    }
}

#[test]
fn test_enabling_maximum_ventilation_in_response_to_co2_levels() {
    let mut state = state();
    let mut sensor = sensor();
    run(&mut state, &mut sensor, 875);
    run(&mut state, &mut sensor, 900);
    assert_eq!(status(&state, "office"), Status::High);
}

#[test]
fn test_ignoring_rooms_that_are_humid() {
    let mut state = state();
    let mut sensor = sensor();
    set_status(&mut state, "office", Status::Humid);
    run(&mut state, &mut sensor, 950);
    assert_eq!(status(&state, "office"), Status::Humid);
}

#[test]
fn test_ignoring_rooms_that_are_ventilated_in_response_to_a_button() {
    let mut state = state();
    let mut sensor = sensor();
    set_status(&mut state, "office", Status::Button(Box::new(Status::Default)));
    run(&mut state, &mut sensor, 950);
    assert_eq!(status(&state, "office"), Status::Button(Box::new(Status::Default)));
}

#[test]
fn test_maintaining_ventilation_for_a_while_when_co2_decreases() {
    let mut state = state();
    let mut sensor = sensor();
    run(&mut state, &mut sensor, 750);
    run(&mut state, &mut sensor, 650);
    set_status(&mut state, "office", Status::Medium);
    run(&mut state, &mut sensor, 550);
    assert_eq!(status(&state, "office"), Status::Default);
}

#[test]
fn test_maintaining_ventilation_when_reducing_co2_from_750_to_550() {
    let mut state = state();
    let mut sensor = sensor();
    run(&mut state, &mut sensor, 750);
    run(&mut state, &mut sensor, 700);
    assert_eq!(status(&state, "office"), Status::Medium);
    run(&mut state, &mut sensor, 550);
    assert_eq!(status(&state, "office"), Status::Default);
}

#[test]
fn test_reducing_ventilation_immediately_when_reducing_co2_to_600() {
    let mut state = state();
    let mut sensor = sensor();
    run(&mut state, &mut sensor, 700);
    assert_eq!(status(&state, "office"), Status::Low);
    run(&mut state, &mut sensor, 600);
    assert_eq!(status(&state, "office"), Status::Default);
}

#[test]
fn test_reducing_ventilation_immediately_when_reducing_co2_by_more_than_200() {
    let mut state = state();
    let mut sensor = sensor();
    run(&mut state, &mut sensor, 900);
    assert_eq!(status(&state, "office"), Status::High);
    run(&mut state, &mut sensor, 700);
    assert_eq!(status(&state, "office"), Status::Low);
    run(&mut state, &mut sensor, 500);
    assert_eq!(status(&state, "office"), Status::Default);
}

#[test]
fn test_reducing_ventilation_immediately_when_reducing_co2_is_below_700() {
    let mut state = state();
    let mut sensor = sensor();
    run(&mut state, &mut sensor, 750);
    assert_eq!(status(&state, "office"), Status::Medium);
    run(&mut state, &mut sensor, 675);
    assert_eq!(status(&state, "office"), Status::Low);
}

#[test]
fn test_using_a_custom_co2_minimum_threshold() {
    let mut state = state();
    let mut sensor = sensor();
    sensor.co2_minimum = 400;
    run(&mut state, &mut sensor, 400);
    assert_eq!(status(&state, "office"), Status::Low);
}

#[test]
fn sensor_keeps_status_without_waiting() {
    let mut sensor = sensor();
    for _ in 0..SAMPLES {
        sensor.sample(750);
    }
    assert!(matches!(sensor.decide(false).1, Co2Decision::Change(Status::Medium)));
    for _ in 0..SAMPLES {
        sensor.sample(700);
    }
    // A drop of 50 ppm to 700: no reduction until the waiting time passed.
    let (level, decision) = sensor.decide(false);
    assert_eq!(level, 700);
    assert!(matches!(decision, Co2Decision::Keep));
    assert_eq!(sensor.status, Status::Medium);
    assert_eq!(sensor.last_change_co2, 750);
}

#[test]
fn sensor_rise_below_700_reduces_after_waiting() {
    // The status was set at 660 ppm; the level rises to 675 (samples of
    // 680), which asks for Default. A rise never counts as a fall, but below
    // 700 ppm the room is reduced once the waiting time has passed.
    let mut sensor = sensor();
    sensor.status = Status::Low;
    sensor.last_change_co2 = 660;
    for _ in 0..SAMPLES {
        sensor.sample(680);
    }
    let (level, decision) = sensor.decide(false);
    assert_eq!(level, 675);
    assert!(matches!(decision, Co2Decision::Keep));
    assert_eq!(sensor.status, Status::Low);
    for _ in 0..SAMPLES {
        sensor.sample(680);
    }
    let (level, decision) = sensor.decide(true);
    assert_eq!(level, 675);
    assert!(matches!(decision, Co2Decision::Change(Status::Default)));
    assert_eq!(sensor.status, Status::Default);
    assert_eq!(sensor.last_change_co2, 675);
}

#[test]
fn sensor_low_minimum_keeps_hysteresis() {
    let mut s = sensor();
    s.co2_minimum = 30;
    s.last_change_co2 = 40;
    assert_eq!(s.status_for(10), Status::Low);
    s.last_change_co2 = 20;
    assert_eq!(s.status_for(10), Status::Default);
}

#[test]
fn sensor_status_thresholds() {
    let s = sensor();
    assert_eq!(s.status_for(1000), Status::Maximum);
    assert_eq!(s.status_for(999), Status::High);
    assert_eq!(s.status_for(800), Status::MediumHigh);
    assert_eq!(s.status_for(750), Status::Medium);
    assert_eq!(s.status_for(700), Status::Low);
    assert_eq!(s.status_for(699), Status::Default);
    assert!(s.should_reduce(false));
}

fn remote_input() -> RemoteInput {
    let mut input = RemoteInput::new("office".to_string());
    input.add_button("timer1".to_string(), Button::new(vec!["office".to_string()], Duration::from_secs(0)));
    input
}

fn timer1(timestamp: i64) -> Remote {
    Remote { status: RemoteStatus::from(8), timestamp }
}

fn low(timestamp: i64) -> Remote {
    Remote { status: RemoteStatus::from(0), timestamp }
}

/// One check of the remote, with a button timer of zero seconds.
fn check(state: &mut State, input: &mut RemoteInput, remote: Remote) {
    match input.check(remote, true) {
        RemoteAction::Ignore => {},
        RemoteAction::Expire(_) | RemoteAction::Reset => state.reset_buttons(),
        RemoteAction::Enable(rooms, _) => state.enable_buttons(&rooms),
    }
}

#[test]
fn test_the_initial_remote_state_is_ignored() {
    let mut state = state();
    let mut input = remote_input();
    check(&mut state, &mut input, timer1(123));
    assert_eq!(status(&state, "office"), Status::Default);
}

#[test]
fn test_the_state_is_ignored_if_the_timestamp_remains_the_same() {
    let mut state = state();
    let mut input = remote_input();
    check(&mut state, &mut input, timer1(123));
    check(&mut state, &mut input, timer1(123));
    assert_eq!(status(&state, "office"), Status::Default);
}

#[test]
fn test_enabling_ventilation_in_response_to_a_button_press() {
    let mut state = state();
    let mut input = remote_input();
    check(&mut state, &mut input, timer1(123));
    check(&mut state, &mut input, timer1(456));
    assert_eq!(status(&state, "office"), Status::Button(Box::new(Status::Default)));
}

#[test]
fn test_disabling_ventilation_when_a_button_times_out() {
    let mut state = state();
    let mut input = remote_input();
    check(&mut state, &mut input, timer1(123));
    check(&mut state, &mut input, timer1(456));
    check(&mut state, &mut input, timer1(456));
    assert_eq!(status(&state, "office"), Status::Default);
}

#[test]
fn test_resetting_the_remote_in_response_to_the_low_button() {
    let mut state = state();
    let mut input = remote_input();
    check(&mut state, &mut input, timer1(123));
    check(&mut state, &mut input, timer1(456));
    check(&mut state, &mut input, low(789));
    assert_eq!(status(&state, "office"), Status::Default);
}

#[test]
fn remote_button_without_configuration_is_ignored() {
    let mut input = remote_input();
    assert!(matches!(input.check(timer1(1), false), RemoteAction::Ignore));
    let cook = Remote { status: RemoteStatus::from(13), timestamp: 2 };
    assert!(matches!(input.check(cook, false), RemoteAction::Ignore));
    assert_eq!(input.status, RemoteStatus::Cook30);
    // The timer has not run out yet: nothing happens.
    assert!(matches!(input.check(cook, false), RemoteAction::Ignore));
    assert!(matches!(input.check(cook, true), RemoteAction::Expire(RemoteStatus::Cook30)));
    assert_eq!(input.status, RemoteStatus::Low);
}

#[test]
fn remote_button_replaced_by_name() {
    let mut input = remote_input();
    input.add_button("timer1".to_string(), Button::new(vec!["bathroom".to_string()], Duration::from_secs(5)));
    assert_eq!(input.buttons.len(), 1);
    input.check(timer1(1), false);
    match input.check(timer1(2), false) {
        RemoteAction::Enable(rooms, d) => {
            assert_eq!(rooms, vec!["bathroom".to_string()]);
            assert_eq!(d, Duration::from_secs(5));
        },
        _ => panic!("expected the button to be enabled"),
    }
}
