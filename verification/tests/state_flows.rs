use openflow::config::{Flow as FlowConfig, Itho as IthoConfig, Room as RoomConfig};
use openflow::json::JsonNumber;
use openflow::state::{exhaust_percentage, ApplyPlan, Room, Settlement, State, EXHAUST_MAX};
use openflow::status::Status;
use std::cmp::Ordering;

fn flow(minimum: u64, maximum: u64, default: u64, low: u64, button: u64) -> FlowConfig {
    FlowConfig {
        correction: JsonNumber { positive: true, mantissa: 1, exponent: 0 },
        minimum,
        maximum,
        default,
        low,
        medium: 50,
        medium_high: 65,
        high: 75,
        button,
    }
}

fn room(name: &str, exhaust: u64, flow: FlowConfig) -> RoomConfig {
    RoomConfig {
        name: name.to_string(),
        exhaust,
        flow,
        motion: None,
        humidity: None,
        co2: None,
        co2_minimum: None,
    }
}

fn state() -> State {
    let conf = IthoConfig {
        address: "localhost".to_string(),
        minimum_flow: 75,
        maximum_flow: 350,
        speed_id: 124,
        manual_id: 111,
        adjust_time: 0,
    };
    let mut state = State::new(&conf);
    let rooms = [
        room("living_room", 10, flow(0, 70, 0, 40, 50)),
        room("office", 11, flow(10, 80, 20, 5, 80)),
        room("bathroom", 15, flow(0, 120, 10, 40, 120)),
    ];
    for r in rooms.iter() {
        state.add_room(Room::new(r.name.clone(), r));
    }
    state
}

fn index(state: &State, name: &str) -> usize {
    state.room_index(name).unwrap()
}

/// Sets each room's corrected flow to its base flow (a correction of 1).
fn correct_identity(state: &mut State) {
    for r in state.rooms.iter_mut() {
        r.current_flow = r.base_flow;
    }
}

#[test]
fn exhaust_percentage_values() {
    assert_eq!(exhaust_percentage(100, 100), EXHAUST_MAX);
    assert_eq!(exhaust_percentage(150, 100), EXHAUST_MAX);
    assert_eq!(exhaust_percentage(0, 100), 0);
    assert_eq!(exhaust_percentage(0, 0), EXHAUST_MAX);
    assert_eq!(exhaust_percentage(50, 200), 1000);
    assert_eq!(exhaust_percentage(33, 100), 1400);
    assert_eq!(exhaust_percentage(1, 1000), 0);
    assert_eq!(exhaust_percentage(40, 75), 2200);
}

#[test]
fn exhaust_percentage_range_law() {
    for total in [1u64, 7, 75, 350] {
        let mut last = 0;
        for f in 0..=total + 1 {
            let e = exhaust_percentage(f, total);
            assert!(e <= EXHAUST_MAX);
            assert_eq!(e % 100, 0);
            assert!(e >= last);
            last = e;
        }
    }
}

#[test]
fn status_order_and_names() {
    assert_eq!(Status::Default.cmp(&Status::Low), Ordering::Less);
    assert_eq!(Status::Humid.cmp(&Status::Maximum), Ordering::Greater);
    assert_eq!(Status::High.cmp(&Status::High), Ordering::Equal);
    let b = Status::Button(Box::new(Status::Low));
    assert_eq!(b.cmp(&Status::Button(Box::new(Status::Medium))), Ordering::Less);
    assert_eq!(b.cmp(&Status::High), Ordering::Greater);
    // Maximum and a Button status both compare as the lesser.
    assert_eq!(Status::Maximum.cmp(&b), Ordering::Less);
    assert_eq!(b.cmp(&Status::Maximum), Ordering::Less);
    assert!(Status::Medium >= Status::Low);
    assert!(!(Status::Default >= Status::Low));
    assert!(Status::Humid.is_humid());
    assert!(!Status::Low.is_humid());
    assert_eq!(b.to_string(), "Button");
    assert_eq!(Status::MediumHigh.to_string(), "MediumHigh");
    assert_eq!(b.clone(), b);
    assert_ne!(b, Status::Low);
}

#[test]
fn status_order_equality_and_transitivity() {
    let low = Status::Button(Box::new(Status::Low));
    let high = Status::Button(Box::new(Status::High));
    assert_eq!(low.cmp(&Status::Button(Box::new(Status::Low))), Ordering::Equal);
    assert_eq!(low.clone() == Status::Button(Box::new(Status::Low)), true);
    assert_ne!(low.cmp(&high), Ordering::Equal);
    // Low < High < Button(Low) < Button(High) < Humid, pairwise.
    let ladder = vec![Status::Low, Status::High, low, high, Status::Humid];
    for i in 0..ladder.len() {
        for j in (i + 1)..ladder.len() {
            assert_eq!(ladder[i].cmp(&ladder[j]), Ordering::Less);
            assert_eq!(ladder[j].cmp(&ladder[i]), Ordering::Greater);
        }
    }
}

#[test]
fn room_new_and_update_flow() {
    let conf = room("office", 11, flow(10, 80, 20, 5, 80));
    let mut r = Room::new("office".to_string(), &conf);
    assert_eq!(r.exhaust_value, u64::MAX);
    assert_eq!(r.status, Status::Default);
    r.update_flow(0, 350);
    assert_eq!(r.base_flow, 10);
    r.update_flow(5, 350);
    assert_eq!(r.base_flow, 10);
    r.update_flow(500, 350);
    assert_eq!(r.base_flow, 80);
    r.update_flow(500, 60);
    assert_eq!(r.base_flow, 60);
    r.update_flow(0, 5);
    assert_eq!(r.base_flow, 5);
    r.update(Status::High);
    assert_eq!(r.status, Status::High);
}

#[test]
fn add_room_replaces_by_name() {
    let mut state = state();
    assert_eq!(state.rooms.len(), 3);
    let conf = room("office", 99, flow(0, 10, 0, 1, 1));
    state.add_room(Room::new("office".to_string(), &conf));
    assert_eq!(state.rooms.len(), 3);
    assert_eq!(state.rooms[index(&state, "office")].exhaust_id, 99);
    assert_eq!(state.room_index("attic"), None);
}

#[test]
fn requested_flows_follow_status() {
    let mut state = state();
    let office = index(&state, "office");
    let living = index(&state, "living_room");
    state.rooms[office].update(Status::Low);
    state.rooms[living].update(Status::Button(Box::new(Status::Default)));
    state.assign_requested_flows();
    // Low asks 5, raised to the office's minimum of 10.
    assert_eq!(state.rooms[office].base_flow, 10);
    assert_eq!(state.rooms[living].base_flow, 50);
    assert_eq!(state.rooms[index(&state, "bathroom")].base_flow, 0);
}

#[test]
fn humid_rooms_take_precedence() {
    let mut state = state();
    let office = index(&state, "office");
    let living = index(&state, "living_room");
    let bath = index(&state, "bathroom");
    state.rooms[bath].update(Status::Humid);
    state.rooms[living].update(Status::High);
    state.rooms[office].update(Status::Default);
    state.assign_requested_flows();
    assert_eq!(state.rooms[bath].base_flow, 120);
    assert_eq!(state.rooms[living].base_flow, 20);
    assert_eq!(state.rooms[office].base_flow, 10);
}

#[test]
fn default_flow_is_handed_out() {
    let mut state = state();
    state.assign_requested_flows();
    correct_identity(&mut state);
    // Only the office has a minimum flow: 10 of the 75 needed.
    let total = state.total_current_flow().unwrap();
    assert_eq!(total, 10);
    assert!(matches!(state.settle_flow(total), Settlement::Raised));
    correct_identity(&mut state);
    // office: 10 + (20 - 10) = 20; bathroom has no flow and 55 are still
    // missing: it gets 10 - 0 = 10.
    assert_eq!(state.rooms[index(&state, "office")].base_flow, 20);
    assert_eq!(state.rooms[index(&state, "bathroom")].base_flow, 10);
    assert_eq!(state.rooms[index(&state, "living_room")].base_flow, 0);
    assert_eq!(state.total_current_flow(), Some(30));
}

#[test]
fn settle_flow_sufficient_changes_nothing() {
    let mut state = state();
    state.assign_requested_flows();
    assert!(matches!(state.settle_flow(75), Settlement::Sufficient));
    assert!(matches!(state.settle_flow(300), Settlement::Sufficient));
}

#[test]
fn default_flow_below_minimum_adds_nothing() {
    let conf = IthoConfig {
        address: "x".to_string(),
        minimum_flow: 100,
        maximum_flow: 350,
        speed_id: 1,
        manual_id: 2,
        adjust_time: 0,
    };
    let mut state = State::new(&conf);
    // A default flow below the minimum flow.
    state.add_room(Room::new("odd".to_string(), &room("odd", 1, flow(30, 80, 20, 5, 80))));
    state.assign_requested_flows();
    correct_identity(&mut state);
    assert!(matches!(state.settle_flow(30), Settlement::Raised));
    assert_eq!(state.rooms[0].base_flow, 30);
}

#[test]
fn default_flow_overflow_is_reported() {
    let conf = IthoConfig {
        address: "x".to_string(),
        minimum_flow: 100,
        maximum_flow: u64::MAX,
        speed_id: 1,
        manual_id: 2,
        adjust_time: 0,
    };
    let mut state = State::new(&conf);
    state.add_room(Room::new("odd".to_string(), &room("odd", 1, flow(0, u64::MAX, 10, 5, 80))));
    // A base flow that cannot take the addition.
    state.rooms[0].base_flow = u64::MAX;
    state.rooms[0].current_flow = 1;
    assert!(matches!(state.settle_flow(1), Settlement::Overflow));
}

#[test]
fn total_flow_overflow_is_none() {
    let mut state = state();
    state.rooms[0].current_flow = u64::MAX;
    state.rooms[1].current_flow = 1;
    assert_eq!(state.total_current_flow(), None);
}

#[test]
fn plan_apply_orders_speed_changes() {
    let mut state = state();
    let office = index(&state, "office");
    state.rooms[office].update(Status::Maximum);
    state.assign_requested_flows();
    correct_identity(&mut state);
    let per_room = state.total_current_flow().unwrap();
    assert_eq!(per_room, 80);
    let plan = state.plan_apply(per_room).unwrap();
    assert_eq!(plan.total_flow, 80);
    assert_eq!(plan.speed, 22);
    assert!(!plan.lower_first);
    assert!(plan.raise_after);
    // Every exhaust starts at u64::MAX, so all change.
    assert_eq!(plan.exhausts.len(), 3);
    assert_eq!(plan.exhausts[office], (office, 4000));
    for (i, v) in plan.exhausts.iter() {
        if *i != office {
            assert_eq!(*v, 0);
        }
    }
    state.apply_plan(&plan);
    assert_eq!(state.speed, 22);
    assert_eq!(state.rooms[office].exhaust_value, 4000);
    for i in 0..state.rooms.len() {
        if i != office {
            assert_eq!(state.rooms[i].exhaust_value, 0);
        }
    }
    let again = state.plan_apply(per_room).unwrap();
    assert!(again.exhausts.is_empty());
    assert!(!again.lower_first && !again.raise_after);
    // Asking less than the minimum flow still runs the minimum.
    let low = state.plan_apply(10).unwrap();
    assert_eq!(low.total_flow, 75);
    assert_eq!(low.speed, 21);
    assert!(low.lower_first);
}

#[test]
fn plan_apply_refuses_zero_maximum() {
    let conf = IthoConfig {
        address: "x".to_string(),
        minimum_flow: 0,
        maximum_flow: 0,
        speed_id: 1,
        manual_id: 2,
        adjust_time: 0,
    };
    let state = State::new(&conf);
    assert!(state.plan_apply(10).is_none());
    assert_eq!(state.flow_percentage(10), None);
}

#[test]
fn buttons_are_enabled_and_reset() {
    let mut state = state();
    let office = index(&state, "office");
    let bath = index(&state, "bathroom");
    state.rooms[office].update(Status::Medium);
    state.enable_buttons(&vec!["office".to_string()]);
    assert_eq!(state.rooms[office].status, Status::Button(Box::new(Status::Medium)));
    assert_eq!(state.rooms[bath].status, Status::Default);
    state.reset_buttons();
    assert_eq!(state.rooms[office].status, Status::Medium);
}

#[test]
fn enabling_resets_earlier_buttons() {
    let mut state = state();
    let office = index(&state, "office");
    let bath = index(&state, "bathroom");
    state.enable_buttons(&vec!["office".to_string()]);
    state.enable_buttons(&vec!["bathroom".to_string()]);
    assert_eq!(state.rooms[office].status, Status::Default);
    assert_eq!(state.rooms[bath].status, Status::Button(Box::new(Status::Default)));
}

#[test]
fn co2_statuses_skip_humid_and_button_rooms() {
    let mut state = state();
    let office = index(&state, "office");
    let bath = index(&state, "bathroom");
    let living = index(&state, "living_room");
    state.rooms[bath].update(Status::Humid);
    state.rooms[living].update(Status::Button(Box::new(Status::Low)));
    state.apply_co2_statuses(&vec![
        ("office".to_string(), Status::High),
        ("bathroom".to_string(), Status::Low),
        ("living_room".to_string(), Status::Low),
    ]);
    assert_eq!(state.rooms[office].status, Status::High);
    assert_eq!(state.rooms[bath].status, Status::Humid);
    assert_eq!(state.rooms[living].status, Status::Button(Box::new(Status::Low)));
}

#[test]
fn apply_plan_records_settings_in_order() {
    let mut state = state();
    let plan = ApplyPlan {
        total_flow: 100,
        speed: 40,
        lower_first: false,
        exhausts: vec![(0, 700), (0, 800), (99, 100)],
        raise_after: true,
    };
    let others: Vec<u64> = state.rooms.iter().skip(1).map(|r| r.exhaust_value).collect();
    state.apply_plan(&plan);
    assert_eq!(state.speed, 40);
    // The later setting for a room wins; a position past the rooms is ignored.
    assert_eq!(state.rooms[0].exhaust_value, 800);
    let after: Vec<u64> = state.rooms.iter().skip(1).map(|r| r.exhaust_value).collect();
    assert_eq!(after, others);
}
