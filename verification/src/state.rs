//! The state of the ventilated rooms and the decisions taken on it: the
//! status of each room, the air flow each gets, and the exhaust and fan
//! settings that follow.
use crate::config::Itho as IthoConfig;
use crate::config::Room as RoomConfig;
use crate::status::Status;
use crate::text::str_eq;
use vstd::prelude::*;

verus! {

/// The maximum value of an exhaust valve setting.
///
/// While the API/hardware limit is 5000, the valves can make a distinct bonking
/// noise when opening them this far. The actual Itho hardware also appears to
/// limit the setting to this value.
pub const EXHAUST_MAX: u64 = 4000;

/// The time (in seconds) between hardware updates.
pub const APPLY_INTERVAL: u64 = 60;

/// The exhaust setting for a room with air flow `flow` out of `total_flow`:
/// fully open for a flow at or above the total, closed for no flow, and
/// otherwise the flow's share of `EXHAUST_MAX`, rounded up to the next
/// multiple of 100.
pub open spec fn exhaust_setting(flow: u64, total_flow: u64) -> int {
    if flow >= total_flow {
        EXHAUST_MAX as int
    } else if flow == 0 {
        0
    } else {
        let raw = (((flow * 100) / total_flow as int) * EXHAUST_MAX) / 100;
        ((raw + 99) / 100) * 100
    }
}

/// Computing an exhaust setting overflows when a flow below the total is
/// too large to be multiplied by 100.
pub open spec fn exhaust_overflows(flow: u64, total_flow: u64) -> bool {
    0 < flow < total_flow && flow * 100 > u64::MAX
}

pub fn exhaust_percentage(flow: u64, total_flow: u64) -> (setting: u64)
    requires
        !exhaust_overflows(flow, total_flow),
    ensures
        setting == exhaust_setting(flow, total_flow),
{
    if flow >= total_flow {
        return EXHAUST_MAX;
    }
    if flow == 0 {
        return 0;
    }
    let share = (flow * 100) / total_flow;
    assert(share <= 100) by (nonlinear_arith)
        requires
            flow < total_flow,
            share == (flow * 100) / total_flow as int,
    ;
    let raw = (share * EXHAUST_MAX) / 100;
    // To reduce the amount of micro adjustments of the exhaust motors, we round
    // the setting values up to the nearest multiple of 100, so 625 becomes 700.
    ((raw + 99) / 100) * 100
}

/// Law: an exhaust setting lies between 0 and `EXHAUST_MAX` and is a
/// multiple of 100; a room without flow gets 0 (when the total is
/// positive).
pub proof fn lemma_exhaust_setting_range(flow: u64, total_flow: u64)
    ensures
        0 <= exhaust_setting(flow, total_flow) <= EXHAUST_MAX,
        exhaust_setting(flow, total_flow) % 100 == 0,
        total_flow > 0 && flow == 0 ==> exhaust_setting(flow, total_flow) == 0,
{
    if 0 < flow < total_flow {
        let share = (flow * 100) / total_flow as int;
        assert(0 <= share <= 100) by (nonlinear_arith)
            requires
                0 < flow < total_flow,
                share == (flow * 100) / total_flow as int,
        ;
        let raw = (share * 4000) / 100;
        assert(raw == share * 40);
        let r = ((raw + 99) / 100) * 100;
        assert(0 <= r <= 4000 && r % 100 == 0) by (nonlinear_arith)
            requires
                0 <= raw <= 4000,
                r == ((raw + 99) / 100) * 100,
        ;
    }
}

/// Law: a larger flow (against the same total) never gets a smaller exhaust
/// setting.
pub proof fn lemma_exhaust_setting_monotone(a: u64, b: u64, total_flow: u64)
    requires
        a <= b,
    ensures
        exhaust_setting(a, total_flow) <= exhaust_setting(b, total_flow),
{
    lemma_exhaust_setting_range(a, total_flow);
    lemma_exhaust_setting_range(b, total_flow);
    if 0 < a && b < total_flow {
        let t = total_flow as int;
        let sa = (a * 100) / t;
        let sb = (b * 100) / t;
        assert(sa <= sb) by (nonlinear_arith)
            requires
                0 < a <= b,
                t > 0,
                sa == (a * 100) / t,
                sb == (b * 100) / t,
        ;
        let ra = (sa * 4000) / 100;
        let rb = (sb * 4000) / 100;
        assert(((ra + 99) / 100) * 100 <= ((rb + 99) / 100) * 100) by (nonlinear_arith)
            requires
                ra == sa * 40,
                rb == sb * 40,
                0 <= sa <= sb,
        ;
    }
}

/// The state of a single room.
pub struct Room {
    /// The unique ID/name of the room.
    pub name: String,
    /// The ventilation status of this room.
    pub status: Status,
    /// The ID of the exhaust for this room.
    pub exhaust_id: u64,
    /// The exhaust setting value, in a range from 0 to 4000.
    ///
    /// This value defaults to `u64::MAX`. This ensures that the first time we
    /// make any changes, we don't ignore exhausts with a target value of zero,
    /// as that could result in them remaining in whatever state they were
    /// before we started.
    pub exhaust_value: u64,
    /// The default air flow in m3/hour, without the flow correction.
    pub default_flow: u64,
    /// The air flow in m3/h for the "low" setting.
    pub low_flow: u64,
    /// The air flow in m3/h for the "medium" setting.
    pub medium_flow: u64,
    /// The air flow in m3/h for the "medium high" setting.
    pub medium_high_flow: u64,
    /// The air flow in m3/h for the "high" setting.
    pub high_flow: u64,
    /// The minimum air flow in m3/hour, without the flow correction.
    pub minimum_flow: u64,
    /// The maximum air flow in m3/hour, without the flow correction.
    pub maximum_flow: u64,
    /// The button air flow in m3/hour, without the flow correction.
    pub button_flow: u64,
    /// The air flow in m3/hour, without the flow correction applied.
    pub base_flow: u64,
    /// The air flow in m3/hour, with the flow correction applied.
    pub current_flow: u64,
}

pub open spec fn min_u64(a: u64, b: u64) -> u64 {
    if a <= b {
        a
    } else {
        b
    }
}

pub open spec fn max_u64(a: u64, b: u64) -> u64 {
    if a >= b {
        a
    } else {
        b
    }
}

/// The base flow a room gets when `flow` is asked of it: no flow gives its
/// minimum flow, any other flow is raised to its minimum and lowered to its
/// maximum; in both cases no more than the global `maximum`.
pub open spec fn clamped_flow(room: Room, flow: u64, maximum: u64) -> u64 {
    if flow == 0 {
        min_u64(room.minimum_flow, maximum)
    } else {
        min_u64(min_u64(max_u64(flow, room.minimum_flow), room.maximum_flow), maximum)
    }
}

/// The room with another base flow.
pub open spec fn with_base_flow(room: Room, base: u64) -> Room {
    Room { base_flow: base, ..room }
}

/// The room with another status.
pub open spec fn with_status(room: Room, status: Status) -> Room {
    Room { status: status, ..room }
}

impl Room {
    pub fn new(name: String, config: &RoomConfig) -> (room: Room)
        ensures
            room == (Room {
                name: name,
                status: Status::Default,
                exhaust_id: config.exhaust,
                exhaust_value: u64::MAX,
                default_flow: config.flow.default,
                low_flow: config.flow.low,
                medium_flow: config.flow.medium,
                medium_high_flow: config.flow.medium_high,
                high_flow: config.flow.high,
                minimum_flow: config.flow.minimum,
                maximum_flow: config.flow.maximum,
                button_flow: config.flow.button,
                base_flow: 0,
                current_flow: 0,
            }),
    {
        Room {
            name,
            status: Status::Default,
            exhaust_id: config.exhaust,
            exhaust_value: u64::MAX,
            default_flow: config.flow.default,
            low_flow: config.flow.low,
            medium_flow: config.flow.medium,
            medium_high_flow: config.flow.medium_high,
            high_flow: config.flow.high,
            minimum_flow: config.flow.minimum,
            maximum_flow: config.flow.maximum,
            button_flow: config.flow.button,
            base_flow: 0,
            current_flow: 0,
        }
    }

    pub fn update(&mut self, status: Status)
        ensures
            *final(self) == with_status(*old(self), status),
    {
        self.status = status;
    }

    /// Sets the base flow for an asked `flow` (see `clamped_flow`). The
    /// corrected flow is derived from it by the program, which holds the
    /// room's correction factor.
    pub fn update_flow(&mut self, flow: u64, maximum: u64)
        ensures
            *final(self) == with_base_flow(*old(self), clamped_flow(*old(self), flow, maximum)),
    {
        if flow == 0 {
            self.base_flow = if self.minimum_flow <= maximum {
                self.minimum_flow
            } else {
                maximum
            };
            return;
        }
        let raised = if flow >= self.minimum_flow {
            flow
        } else {
            self.minimum_flow
        };
        let lowered = if raised <= self.maximum_flow {
            raised
        } else {
            self.maximum_flow
        };
        self.base_flow = if lowered <= maximum {
            lowered
        } else {
            maximum
        };
    }
}

impl Clone for Room {
    fn clone(&self) -> (room: Self)
        ensures
            room == *self,
    {
        Room {
            name: self.name.clone(),
            status: self.status.clone(),
            exhaust_id: self.exhaust_id,
            exhaust_value: self.exhaust_value,
            default_flow: self.default_flow,
            low_flow: self.low_flow,
            medium_flow: self.medium_flow,
            medium_high_flow: self.medium_high_flow,
            high_flow: self.high_flow,
            minimum_flow: self.minimum_flow,
            maximum_flow: self.maximum_flow,
            button_flow: self.button_flow,
            base_flow: self.base_flow,
            current_flow: self.current_flow,
        }
    }
}

/// No two rooms share a name.
pub open spec fn unique_names(rooms: Seq<Room>) -> bool {
    forall|i: int, j: int| 0 <= i < rooms.len() && 0 <= j < rooms.len() && i != j ==> rooms[i].name@ != rooms[j].name@
}

/// Whether a room has the given name.
pub open spec fn has_room(rooms: Seq<Room>, name: Seq<char>) -> bool {
    exists|i: int| 0 <= i < rooms.len() && rooms[i].name@ == name
}

/// The status a `Button` status returns to; other statuses stay.
pub open spec fn unbutton(s: Status) -> Status {
    match s {
        Status::Button(old) => *old,
        _ => s,
    }
}

/// The rooms with their buttons reset (see `unbutton`).
pub open spec fn unbuttoned(rooms: Seq<Room>) -> Seq<Room> {
    rooms.map_values(|r: Room| with_status(r, unbutton(r.status)))
}

/// The room named `name` switched to ventilating for a button, keeping its
/// status to return to; other rooms stay.
pub open spec fn press(rooms: Seq<Room>, name: Seq<char>) -> Seq<Room> {
    rooms.map_values(
        |r: Room|
            if r.name@ == name {
                with_status(r, Status::Button(Box::new(r.status)))
            } else {
                r
            },
    )
}

/// The rooms after pressing the button of each named room, in order.
pub open spec fn press_all(rooms: Seq<Room>, names: Seq<String>) -> Seq<Room>
    decreases names.len(),
{
    if names.len() == 0 {
        rooms
    } else {
        press(press_all(rooms, names.drop_last()), names.last()@)
    }
}

/// The room named `name` given a status measured from CO2 levels, unless it
/// ventilates because of humidity or a button.
pub open spec fn measured(rooms: Seq<Room>, name: Seq<char>, status: Status) -> Seq<Room> {
    rooms.map_values(
        |r: Room|
            if r.name@ == name && !(r.status is Humid) && !(r.status is Button) {
                with_status(r, status)
            } else {
                r
            },
    )
}

/// The rooms after applying each measured status, in order.
pub open spec fn measured_all(rooms: Seq<Room>, updates: Seq<(String, Status)>) -> Seq<Room>
    decreases updates.len(),
{
    if updates.len() == 0 {
        rooms
    } else {
        measured(
            measured_all(rooms, updates.drop_last()),
            updates.last().0@,
            updates.last().1,
        )
    }
}

/// The same rooms, by name, as another sequence.
pub open spec fn same_names(a: Seq<Room>, b: Seq<Room>) -> bool {
    a.len() == b.len() && forall|i: int| 0 <= i < a.len() ==> #[trigger] a[i].name == b[i].name
}

proof fn lemma_press_keeps_names(rooms: Seq<Room>, names: Seq<String>)
    ensures
        same_names(press_all(rooms, names), rooms),
    decreases names.len(),
{
    if names.len() > 0 {
        lemma_press_keeps_names(rooms, names.drop_last());
    }
}

proof fn lemma_measured_keeps_names(rooms: Seq<Room>, updates: Seq<(String, Status)>)
    ensures
        same_names(measured_all(rooms, updates), rooms),
    decreases updates.len(),
{
    if updates.len() > 0 {
        lemma_measured_keeps_names(rooms, updates.drop_last());
    }
}

/// Law: CO2 readings never change a room that ventilates because of
/// humidity or a button, whatever statuses they bring.
pub proof fn lemma_measured_keeps_held_rooms(rooms: Seq<Room>, updates: Seq<(String, Status)>, i: int)
    requires
        0 <= i < rooms.len(),
        rooms[i].status is Humid || rooms[i].status is Button,
    ensures
        measured_all(rooms, updates)[i] == rooms[i],
    decreases updates.len(),
{
    if updates.len() > 0 {
        lemma_measured_keeps_held_rooms(rooms, updates.drop_last(), i);
        lemma_measured_keeps_names(rooms, updates.drop_last());
    }
}

/// The state of the ventilation system: the rooms and the settings of the
/// ventilation unit.
pub struct State {
    /// The minimum global air flow.
    pub minimum_flow: u64,
    /// The maximum global air flow.
    pub maximum_flow: u64,
    /// The ID of the setting that controls the ventilation speed.
    pub speed_id: u64,
    /// The ID of the setting that enables/disables manual control of the
    /// ventilation unit.
    pub manual_id: u64,
    /// The speed (as a percentage of its maximum) the ventilation unit is
    /// running at.
    pub speed: u64,
    /// The rooms to ventilate along with their current state.
    pub rooms: Vec<Room>,
    /// The amount of time to wait (in seconds) for exhaust valves to adjust
    /// themselves.
    pub adjust_time: u64,
}

impl State {
    /// Room names are unique.
    pub open spec fn wf(&self) -> bool {
        unique_names(self.rooms@)
    }

    pub fn new(config: &IthoConfig) -> (state: State)
        ensures
            state.wf(),
            state.minimum_flow == config.minimum_flow,
            state.maximum_flow == config.maximum_flow,
            state.speed_id == config.speed_id,
            state.manual_id == config.manual_id,
            state.speed == 0,
            state.rooms@.len() == 0,
            state.adjust_time == config.adjust_time,
    {
        State {
            minimum_flow: config.minimum_flow,
            maximum_flow: config.maximum_flow,
            speed_id: config.speed_id,
            manual_id: config.manual_id,
            speed: 0,
            rooms: Vec::new(),
            adjust_time: config.adjust_time,
        }
    }

    /// The position of the room with the given name.
    pub fn room_index(&self, name: &str) -> (index: Option<usize>)
        requires
            self.wf(),
        ensures
            match index {
                Some(i) => i < self.rooms@.len() && self.rooms@[i as int].name@ == name@,
                None => !has_room(self.rooms@, name@),
            },
    {
        let mut i: usize = 0;
        while i < self.rooms.len()
            invariant
                i <= self.rooms@.len(),
                forall|j: int| 0 <= j < i ==> self.rooms@[j].name@ != name@,
            decreases self.rooms@.len() - i,
        {
            if str_eq(self.rooms[i].name.as_str(), name) {
                return Some(i);
            }
            i = i + 1;
        }
        None
    }

    /// Adds a room, replacing the room of the same name if there is one.
    pub fn add_room(&mut self, room: Room)
        requires
            old(self).wf(),
        ensures
            final(self).wf(),
            has_room(old(self).rooms@, room.name@) ==> exists|i: int|
                0 <= i < old(self).rooms@.len() && old(self).rooms@[i].name@ == room.name@
                    && final(self).rooms@ == old(self).rooms@.update(i, room),
            !has_room(old(self).rooms@, room.name@) ==> final(self).rooms@ == old(self).rooms@.push(
                room,
            ),
            final(self).minimum_flow == old(self).minimum_flow,
            final(self).maximum_flow == old(self).maximum_flow,
            final(self).speed == old(self).speed,
    {
        match self.room_index(room.name.as_str()) {
            Some(i) => {
                self.rooms.set(i, room);
            },
            None => {
                self.rooms.push(room);
            },
        }
    }

    /// Resets the button state of each room: a room ventilating for a button
    /// returns to the status it had before.
    pub fn reset_buttons(&mut self)
        requires
            old(self).wf(),
        ensures
            final(self).wf(),
            final(self).rooms@ == unbuttoned(old(self).rooms@),
            final(self).minimum_flow == old(self).minimum_flow,
            final(self).maximum_flow == old(self).maximum_flow,
            final(self).speed == old(self).speed,
    {
        let ghost start = self.rooms@;
        let mut i: usize = 0;
        while i < self.rooms.len()
            invariant
                i <= self.rooms@.len(),
                self.rooms@.len() == start.len(),
                unique_names(start),
                forall|j: int| 0 <= j < i ==> self.rooms@[j] == unbuttoned(start)[j],
                forall|j: int| i <= j < start.len() ==> self.rooms@[j] == start[j],
                self.minimum_flow == old(self).minimum_flow,
                self.maximum_flow == old(self).maximum_flow,
                self.speed == old(self).speed,
                start == old(self).rooms@,
            decreases start.len() - i,
        {
            let mut room = self.rooms[i].clone();
            match &self.rooms[i].status {
                Status::Button(old) => {
                    room.status = (**old).clone();
                },
                _ => {},
            }
            self.rooms.set(i, room);
            i = i + 1;
        }
        assert(self.rooms@ =~= unbuttoned(start));
    }

    /// Switches the named rooms to ventilating for a button, after resetting
    /// all buttons. Every name must be that of a room.
    pub fn enable_buttons(&mut self, names: &Vec<String>)
        requires
            old(self).wf(),
            forall|k: int| 0 <= k < names@.len() ==> has_room(old(self).rooms@, #[trigger] names@[k]@),
        ensures
            final(self).wf(),
            final(self).rooms@ == press_all(unbuttoned(old(self).rooms@), names@),
            final(self).minimum_flow == old(self).minimum_flow,
            final(self).maximum_flow == old(self).maximum_flow,
            final(self).speed == old(self).speed,
    {
        self.reset_buttons();
        let ghost base = self.rooms@;
        assert(same_names(base, old(self).rooms@));
        let mut k: usize = 0;
        while k < names.len()
            invariant
                k <= names@.len(),
                same_names(base, old(self).rooms@),
                unique_names(old(self).rooms@),
                forall|k: int| 0 <= k < names@.len() ==> has_room(old(self).rooms@, #[trigger] names@[k]@),
                self.rooms@ == press_all(base, names@.take(k as int)),
                self.minimum_flow == old(self).minimum_flow,
                self.maximum_flow == old(self).maximum_flow,
                self.speed == old(self).speed,
            decreases names@.len() - k,
        {
            proof {
                lemma_press_keeps_names(base, names@.take(k as int));
                assert(names@.take(k + 1).drop_last() =~= names@.take(k as int));
            }
            let ghost before = self.rooms@;
            proof {
                let name = names@[k as int]@;
                assert(has_room(old(self).rooms@, name));
                let w = choose|w: int| 0 <= w < old(self).rooms@.len() && old(self).rooms@[w].name@ == name;
                assert(self.rooms@[w].name == base[w].name);
                assert(has_room(self.rooms@, name));
            }
            let i = match self.room_index(names[k].as_str()) {
                Some(i) => i,
                None => {
                    assert(false);
                    0
                },
            };
            let mut room = self.rooms[i].clone();
            let old_status = self.rooms[i].status.clone();
            room.status = Status::Button(Box::new(old_status));
            self.rooms.set(i, room);
            assert(self.rooms@ =~= press(before, names@[k as int]@));
            k = k + 1;
        }
        assert(names@.take(k as int) =~= names@);
        proof {
            lemma_press_keeps_names(base, names@);
        }
    }

    /// Gives rooms the statuses measured from their CO2 levels, in order;
    /// rooms ventilating because of humidity or a button keep their status.
    /// Every name must be that of a room.
    pub fn apply_co2_statuses(&mut self, updates: &Vec<(String, Status)>)
        requires
            old(self).wf(),
            forall|k: int| 0 <= k < updates@.len() ==> has_room(old(self).rooms@, #[trigger] updates@[k].0@),
        ensures
            final(self).wf(),
            final(self).rooms@ == measured_all(old(self).rooms@, updates@),
            final(self).minimum_flow == old(self).minimum_flow,
            final(self).maximum_flow == old(self).maximum_flow,
            final(self).speed == old(self).speed,
    {
        let ghost base = self.rooms@;
        let mut k: usize = 0;
        while k < updates.len()
            invariant
                k <= updates@.len(),
                base == old(self).rooms@,
                unique_names(base),
                forall|k: int| 0 <= k < updates@.len() ==> has_room(base, #[trigger] updates@[k].0@),
                self.rooms@ == measured_all(base, updates@.take(k as int)),
                self.minimum_flow == old(self).minimum_flow,
                self.maximum_flow == old(self).maximum_flow,
                self.speed == old(self).speed,
            decreases updates@.len() - k,
        {
            proof {
                lemma_measured_keeps_names(base, updates@.take(k as int));
                assert(updates@.take(k + 1).drop_last() =~= updates@.take(k as int));
            }
            let ghost before = self.rooms@;
            proof {
                let name = updates@[k as int].0@;
                assert(has_room(base, name));
                let w = choose|w: int| 0 <= w < base.len() && base[w].name@ == name;
                assert(self.rooms@[w].name == base[w].name);
                assert(has_room(self.rooms@, name));
            }
            let i = match self.room_index(updates[k].0.as_str()) {
                Some(i) => i,
                None => {
                    assert(false);
                    0
                },
            };
            match &self.rooms[i].status {
                Status::Humid | Status::Button(_) => {},
                _ => {
                    let mut room = self.rooms[i].clone();
                    room.status = updates[k].1.clone();
                    self.rooms.set(i, room);
                },
            }
            assert(self.rooms@ =~= measured(before, updates@[k as int].0@, updates@[k as int].1));
            k = k + 1;
        }
        assert(updates@.take(k as int) =~= updates@);
        proof {
            lemma_measured_keeps_names(base, updates@);
        }
    }
}

/// Whether some room ventilates because of humidity.
pub open spec fn any_humid(rooms: Seq<Room>) -> bool {
    exists|i: int| 0 <= i < rooms.len() && rooms[i].status is Humid
}

/// The flow a room asks for given its status. While some room is humid,
/// the humid rooms get their maximum, rooms without ventilation nothing,
/// and all other rooms 20 m3/h; otherwise each status asks for its own
/// configured flow.
pub open spec fn requested_flow(room: Room, humid: bool) -> u64 {
    if humid {
        match room.status {
            Status::Default => 0,
            Status::Humid => room.maximum_flow,
            _ => 20,
        }
    } else {
        match room.status {
            Status::Default => 0,
            Status::Low => room.low_flow,
            Status::Medium => room.medium_flow,
            Status::MediumHigh => room.medium_high_flow,
            Status::High => room.high_flow,
            Status::Button(_) => room.button_flow,
            Status::Maximum | Status::Humid => room.maximum_flow,
        }
    }
}

/// The rooms with the base flows their statuses ask for.
pub open spec fn requested_flows(rooms: Seq<Room>, maximum: u64) -> Seq<Room> {
    rooms.map_values(
        |r: Room| with_base_flow(r, clamped_flow(r, requested_flow(r, any_humid(rooms)), maximum)),
    )
}

/// The sum of the corrected flows of the rooms.
pub open spec fn current_total(rooms: Seq<Room>) -> int
    decreases rooms.len(),
{
    if rooms.len() == 0 {
        0
    } else {
        current_total(rooms.drop_last()) + rooms.last().current_flow
    }
}

/// Whether the room gets extra flow while `extra` m3/h are still missing:
/// only rooms without ventilation that have a default flow, and not when
/// the room has no flow at all and less than 10 m3/h are missing.
pub open spec fn gets_default_flow(room: Room, extra: u64) -> bool {
    &&& room.status is Default
    &&& room.default_flow > 0
    &&& extra != 0
    &&& !(room.current_flow == 0 && extra < 10)
}

/// The flow added to a room that gets extra flow: what its default flow
/// adds to its minimum (nothing when the default is below the minimum), at
/// most what is missing.
pub open spec fn default_addition(room: Room, extra: u64) -> u64 {
    if room.default_flow >= room.minimum_flow {
        min_u64((room.default_flow - room.minimum_flow) as u64, extra)
    } else {
        0
    }
}

/// Adding the default flow to a room overflows: its base flow plus the
/// addition exceeds `u64::MAX`.
pub open spec fn default_step_overflows(room: Room, extra: u64) -> bool {
    gets_default_flow(room, extra) && room.base_flow + default_addition(room, extra) > u64::MAX
}

/// One room's turn in handing out the missing flow: the room, and what is
/// still missing after it.
pub open spec fn default_step(room: Room, extra: u64, maximum: u64) -> (Room, u64) {
    if gets_default_flow(room, extra) {
        let add = default_addition(room, extra);
        (
            with_base_flow(room, clamped_flow(room, (room.base_flow + add) as u64, maximum)),
            (extra - add) as u64,
        )
    } else {
        (room, extra)
    }
}

/// The rooms after handing out `extra` missing m3/h, room by room in order,
/// and what is still missing at the end.
pub open spec fn default_pass(rooms: Seq<Room>, extra: u64, maximum: u64) -> (Seq<Room>, u64)
    decreases rooms.len(),
{
    if rooms.len() == 0 {
        (rooms, extra)
    } else {
        let (done, left) = default_pass(rooms.drop_last(), extra, maximum);
        let (r, left2) = default_step(rooms.last(), left, maximum);
        (done.push(r), left2)
    }
}

/// Whether some room's turn overflows.
pub open spec fn default_pass_overflows(rooms: Seq<Room>, extra: u64, maximum: u64) -> bool
    decreases rooms.len(),
{
    if rooms.len() == 0 {
        false
    } else {
        default_pass_overflows(rooms.drop_last(), extra, maximum) || default_step_overflows(
            rooms.last(),
            default_pass(rooms.drop_last(), extra, maximum).1,
        )
    }
}

proof fn lemma_default_pass_overflow_prefix(rooms: Seq<Room>, extra: u64, maximum: u64, k: int)
    requires
        0 <= k <= rooms.len(),
        default_pass_overflows(rooms.take(k), extra, maximum),
    ensures
        default_pass_overflows(rooms, extra, maximum),
    decreases rooms.len() - k,
{
    if k < rooms.len() {
        assert(rooms.take(k + 1).drop_last() =~= rooms.take(k));
        lemma_default_pass_overflow_prefix(rooms, extra, maximum, k + 1);
    } else {
        assert(rooms.take(k) =~= rooms);
    }
}

proof fn lemma_default_pass_names(rooms: Seq<Room>, extra: u64, maximum: u64)
    ensures
        same_names(default_pass(rooms, extra, maximum).0, rooms),
    decreases rooms.len(),
{
    if rooms.len() > 0 {
        lemma_default_pass_names(rooms.drop_last(), extra, maximum);
    }
}

/// The outcome of checking the flow of all rooms against the minimum flow.
pub enum Settlement {
    /// The rooms together already reach the minimum flow.
    Sufficient,
    /// The missing flow was handed out to rooms without ventilation; their
    /// corrected flows have to be derived again.
    Raised,
    /// Handing out the missing flow overflowed (see `default_pass_overflows`).
    Overflow,
}

impl State {
    /// Gives every room the base flow its status asks for (see
    /// `requested_flow` and `clamped_flow`). The corrected flows are then
    /// derived by the program.
    pub fn assign_requested_flows(&mut self)
        requires
            old(self).wf(),
        ensures
            final(self).wf(),
            final(self).rooms@ == requested_flows(old(self).rooms@, old(self).maximum_flow),
            final(self).minimum_flow == old(self).minimum_flow,
            final(self).maximum_flow == old(self).maximum_flow,
            final(self).speed == old(self).speed,
    {
        let ghost start = self.rooms@;
        let mut humid = false;
        let mut j: usize = 0;
        while j < self.rooms.len()
            invariant
                j <= self.rooms@.len(),
                humid == exists|i: int| 0 <= i < j && self.rooms@[i].status is Humid,
            decreases self.rooms@.len() - j,
        {
            if self.rooms[j].status.is_humid() {
                humid = true;
            }
            j = j + 1;
        }
        assert(humid == any_humid(start));
        let maximum = self.maximum_flow;
        let mut i: usize = 0;
        while i < self.rooms.len()
            invariant
                i <= self.rooms@.len(),
                self.rooms@.len() == start.len(),
                start == old(self).rooms@,
                unique_names(start),
                humid == any_humid(start),
                maximum == old(self).maximum_flow,
                forall|j: int| 0 <= j < i ==> self.rooms@[j] == requested_flows(start, maximum)[j],
                forall|j: int| i <= j < start.len() ==> self.rooms@[j] == start[j],
                self.minimum_flow == old(self).minimum_flow,
                self.maximum_flow == old(self).maximum_flow,
                self.speed == old(self).speed,
            decreases start.len() - i,
        {
            let mut room = self.rooms[i].clone();
            let base = if humid {
                match &room.status {
                    Status::Default => 0,
                    Status::Humid => room.maximum_flow,
                    _ => 20,
                }
            } else {
                match &room.status {
                    Status::Default => 0,
                    Status::Low => room.low_flow,
                    Status::Medium => room.medium_flow,
                    Status::MediumHigh => room.medium_high_flow,
                    Status::High => room.high_flow,
                    Status::Button(_) => room.button_flow,
                    Status::Maximum | Status::Humid => room.maximum_flow,
                }
            };
            room.update_flow(base, maximum);
            self.rooms.set(i, room);
            i = i + 1;
        }
        assert(self.rooms@ =~= requested_flows(start, maximum));
    }

    /// The sum of the corrected flows of all rooms; `None` where it exceeds
    /// `u64::MAX`.
    pub fn total_current_flow(&self) -> (total: Option<u64>)
        ensures
            current_total(self.rooms@) <= u64::MAX ==> total == Some(current_total(self.rooms@) as u64),
            current_total(self.rooms@) > u64::MAX ==> total is None,
    {
        let mut sum: u64 = 0;
        let mut i: usize = 0;
        while i < self.rooms.len()
            invariant
                i <= self.rooms@.len(),
                sum == current_total(self.rooms@.take(i as int)),
            decreases self.rooms@.len() - i,
        {
            proof {
                assert(self.rooms@.take(i + 1).drop_last() =~= self.rooms@.take(i as int));
            }
            let flow = self.rooms[i].current_flow;
            if sum > u64::MAX - flow {
                proof {
                    lemma_current_total_prefix(self.rooms@, i + 1);
                }
                return None;
            }
            sum = sum + flow;
            i = i + 1;
        }
        assert(self.rooms@.take(i as int) =~= self.rooms@);
        Some(sum)
    }

    /// Hands out the flow missing to reach the minimum flow (`total` being
    /// the current sum) to the rooms without ventilation, room by room (see
    /// `default_pass`). Returns false, leaving the rooms partly updated,
    /// where a room's turn overflows.
    pub fn assign_default_flow(&mut self, total: u64) -> (completed: bool)
        requires
            old(self).wf(),
            total < old(self).minimum_flow,
        ensures
            final(self).wf(),
            completed == !default_pass_overflows(
                old(self).rooms@,
                (old(self).minimum_flow - total) as u64,
                old(self).maximum_flow,
            ),
            completed ==> final(self).rooms@ == default_pass(
                old(self).rooms@,
                (old(self).minimum_flow - total) as u64,
                old(self).maximum_flow,
            ).0,
            final(self).minimum_flow == old(self).minimum_flow,
            final(self).maximum_flow == old(self).maximum_flow,
            final(self).speed == old(self).speed,
    {
        let ghost start = self.rooms@;
        let ghost initial = (self.minimum_flow - total) as u64;
        let mut extra = self.minimum_flow - total;
        let maximum = self.maximum_flow;
        let mut i: usize = 0;
        while i < self.rooms.len()
            invariant
                i <= self.rooms@.len(),
                self.rooms@.len() == start.len(),
                start == old(self).rooms@,
                unique_names(start),
                maximum == old(self).maximum_flow,
                initial == (old(self).minimum_flow - total) as u64,
                self.rooms@.take(i as int) == default_pass(start.take(i as int), initial, maximum).0,
                extra == default_pass(start.take(i as int), initial, maximum).1,
                !default_pass_overflows(start.take(i as int), initial, maximum),
                same_names(self.rooms@, start),
                forall|j: int| i <= j < start.len() ==> self.rooms@[j] == start[j],
                self.minimum_flow == old(self).minimum_flow,
                self.maximum_flow == old(self).maximum_flow,
                self.speed == old(self).speed,
            decreases start.len() - i,
        {
            proof {
                assert(start.take(i + 1).drop_last() =~= start.take(i as int));
                assert(start.take(i + 1).last() == start[i as int]);
                lemma_default_pass_names(start.take(i as int), initial, maximum);
                lemma_default_pass_names(start.take(i + 1), initial, maximum);
            }
            let ghost before = self.rooms@;
            let mut room = self.rooms[i].clone();
            let eligible = match &room.status {
                Status::Default => room.default_flow > 0,
                _ => false,
            };
            if eligible && !(extra == 0 || (room.current_flow == 0 && extra < 10)) {
                let spare = if room.default_flow >= room.minimum_flow {
                    room.default_flow - room.minimum_flow
                } else {
                    0
                };
                let add = if spare <= extra {
                    spare
                } else {
                    extra
                };
                if room.base_flow > u64::MAX - add {
                    proof {
                        lemma_default_pass_overflow_prefix(start, initial, maximum, i + 1);
                    }
                    return false;
                }
                let new = room.base_flow + add;
                extra = extra - add;
                room.update_flow(new, maximum);
                self.rooms.set(i, room);
            }
            assert(self.rooms@.take(i + 1) =~= default_pass(start.take(i + 1), initial, maximum).0);
            i = i + 1;
        }
        assert(start.take(i as int) =~= start);
        assert(self.rooms@.take(i as int) =~= self.rooms@);
        proof {
            lemma_default_pass_names(start, initial, maximum);
        }
        true
    }

    /// Checks the sum `total` of the corrected flows against the minimum
    /// flow, handing out what is missing when it falls short (see
    /// `assign_default_flow`).
    pub fn settle_flow(&mut self, total: u64) -> (outcome: Settlement)
        requires
            old(self).wf(),
        ensures
            final(self).wf(),
            total >= old(self).minimum_flow ==> outcome is Sufficient && *final(self) == *old(self),
            total < old(self).minimum_flow ==> {
                let pass = default_pass(
                    old(self).rooms@,
                    (old(self).minimum_flow - total) as u64,
                    old(self).maximum_flow,
                );
                if default_pass_overflows(
                    old(self).rooms@,
                    (old(self).minimum_flow - total) as u64,
                    old(self).maximum_flow,
                ) {
                    outcome is Overflow
                } else {
                    outcome is Raised && final(self).rooms@ == pass.0
                }
            },
            final(self).minimum_flow == old(self).minimum_flow,
            final(self).maximum_flow == old(self).maximum_flow,
            final(self).speed == old(self).speed,
    {
        if total >= self.minimum_flow {
            return Settlement::Sufficient;
        }
        if self.assign_default_flow(total) {
            Settlement::Raised
        } else {
            Settlement::Overflow
        }
    }

    /// The speed (in percent of the maximum flow) for a total flow; `None`
    /// where the maximum flow is zero or the flow is too large to be
    /// multiplied by 100.
    pub fn flow_percentage(&self, flow: u64) -> (speed: Option<u64>)
        ensures
            self.maximum_flow > 0 && flow * 100 <= u64::MAX ==> speed == Some(
                ((flow * 100) / self.maximum_flow as int) as u64,
            ),
            !(self.maximum_flow > 0 && flow * 100 <= u64::MAX) ==> speed is None,
    {
        if self.maximum_flow == 0 || flow > u64::MAX / 100 {
            return None;
        }
        Some(flow * 100 / self.maximum_flow)
    }
}

proof fn lemma_current_total_prefix(rooms: Seq<Room>, k: int)
    requires
        0 <= k <= rooms.len(),
    ensures
        current_total(rooms.take(k)) <= current_total(rooms),
    decreases rooms.len(),
{
    if k == rooms.len() {
        assert(rooms.take(k) =~= rooms);
    } else {
        lemma_current_total_prefix(rooms.drop_last(), k);
        assert(rooms.drop_last().take(k) =~= rooms.take(k));
    }
}

/// The total flow the unit is set for: the flow the rooms ask for, at most
/// the maximum flow and at least the minimum flow.
pub open spec fn planned_total(minimum: u64, maximum: u64, per_room: u64) -> u64 {
    max_u64(minimum, min_u64(per_room, maximum))
}

/// The exhausts whose setting changes for a total flow, with their new
/// setting, in room order.
pub open spec fn exhaust_changes(rooms: Seq<Room>, total: u64) -> Seq<(usize, u64)>
    decreases rooms.len(),
{
    if rooms.len() == 0 {
        Seq::empty()
    } else {
        let before = exhaust_changes(rooms.drop_last(), total);
        let setting = exhaust_setting(rooms.last().current_flow, total);
        if setting != rooms.last().exhaust_value {
            before.push(((rooms.len() - 1) as usize, setting as u64))
        } else {
            before
        }
    }
}

/// What applying the flows to the hardware does, in order: lower the fan
/// speed (when it goes down), set the exhausts that change, raise the fan
/// speed (when it goes up).
pub struct ApplyPlan {
    /// The total flow the unit is set for.
    pub total_flow: u64,
    /// The new fan speed, in percent.
    pub speed: u64,
    /// Whether the speed goes down, before the exhausts are set.
    pub lower_first: bool,
    /// The exhausts to set: the room's position and its new setting.
    pub exhausts: Vec<(usize, u64)>,
    /// Whether the speed goes up, after the exhausts are set.
    pub raise_after: bool,
}

/// Law: a planned exhaust setting is at most `EXHAUST_MAX` and a multiple of
/// 100.
pub proof fn lemma_exhaust_changes_bounded(rooms: Seq<Room>, total: u64, k: int)
    requires
        0 <= k < exhaust_changes(rooms, total).len(),
        rooms.len() <= usize::MAX,
    ensures
        exhaust_changes(rooms, total)[k].1 <= EXHAUST_MAX,
        exhaust_changes(rooms, total)[k].1 % 100 == 0,
        exhaust_changes(rooms, total)[k].0 < rooms.len(),
        exhaust_changes(rooms, total)[k].1 != rooms[exhaust_changes(rooms, total)[k].0 as int].exhaust_value,
    decreases rooms.len(),
{
    let before = exhaust_changes(rooms.drop_last(), total);
    if k < before.len() {
        lemma_exhaust_changes_bounded(rooms.drop_last(), total, k);
        assert(rooms.drop_last()[before[k].0 as int] == rooms[before[k].0 as int]);
    } else {
        lemma_exhaust_setting_range(rooms.last().current_flow, total);
    }
}

/// Law: when the minimum flow does not exceed the maximum flow, the planned
/// speed is at most 100 percent.
pub proof fn lemma_planned_speed_bounded(minimum: u64, maximum: u64, per_room: u64)
    requires
        0 < maximum,
        minimum <= maximum,
    ensures
        (planned_total(minimum, maximum, per_room) * 100) / (maximum as int) <= 100,
{
    let t = planned_total(minimum, maximum, per_room) as int;
    assert((t * 100) / (maximum as int) <= 100) by (nonlinear_arith)
        requires
            0 <= t <= maximum,
            maximum > 0,
    ;
}

impl State {
    /// Plans applying the corrected flows of the rooms, which ask for
    /// `per_room` m3/h in total; `None` where the maximum flow is zero or
    /// the planned total is too large to be multiplied by 100.
    pub fn plan_apply(&self, per_room: u64) -> (plan: Option<ApplyPlan>)
        ensures
            ({
                let total = planned_total(self.minimum_flow, self.maximum_flow, per_room);
                if self.maximum_flow > 0 && total * 100 <= u64::MAX {
                    plan matches Some(p) && {
                        &&& p.total_flow == total
                        &&& p.speed == (total * 100) / (self.maximum_flow as int)
                        &&& p.lower_first == (p.speed < self.speed)
                        &&& p.raise_after == (p.speed > self.speed)
                        &&& p.exhausts@ == exhaust_changes(self.rooms@, total)
                    }
                } else {
                    plan is None
                }
            }),
    {
        let capped = if per_room <= self.maximum_flow {
            per_room
        } else {
            self.maximum_flow
        };
        let total_flow = if self.minimum_flow >= capped {
            self.minimum_flow
        } else {
            capped
        };
        let new_speed = match self.flow_percentage(total_flow) {
            Some(s) => s,
            None => return None,
        };
        let mut exhausts: Vec<(usize, u64)> = Vec::new();
        let mut i: usize = 0;
        while i < self.rooms.len()
            invariant
                i <= self.rooms@.len(),
                total_flow * 100 <= u64::MAX,
                exhausts@ == exhaust_changes(self.rooms@.take(i as int), total_flow),
            decreases self.rooms@.len() - i,
        {
            proof {
                assert(self.rooms@.take(i + 1).drop_last() =~= self.rooms@.take(i as int));
                assert(self.rooms@.take(i + 1).last() == self.rooms@[i as int]);
            }
            let flow = self.rooms[i].current_flow;
            assert(!exhaust_overflows(flow, total_flow));
            let new = exhaust_percentage(flow, total_flow);
            if new != self.rooms[i].exhaust_value {
                exhausts.push((i, new));
            }
            i = i + 1;
        }
        assert(self.rooms@.take(i as int) =~= self.rooms@);
        Some(
            ApplyPlan {
                total_flow: total_flow,
                speed: new_speed,
                lower_first: new_speed < self.speed,
                exhausts: exhausts,
                raise_after: new_speed > self.speed,
            },
        )
    }
}

/// The room with another exhaust setting recorded.
pub open spec fn with_exhaust_value(room: Room, value: u64) -> Room {
    Room { exhaust_value: value, ..room }
}

/// The rooms with the exhaust settings of `changes` recorded, in order;
/// a change for a position past the last room is ignored.
pub open spec fn with_exhausts(rooms: Seq<Room>, changes: Seq<(usize, u64)>) -> Seq<Room>
    decreases changes.len(),
{
    if changes.len() == 0 {
        rooms
    } else {
        let before = with_exhausts(rooms, changes.drop_last());
        let i = changes.last().0 as int;
        if i < before.len() {
            before.update(i, with_exhaust_value(before[i], changes.last().1))
        } else {
            before
        }
    }
}

proof fn lemma_with_exhausts_keeps_names(rooms: Seq<Room>, changes: Seq<(usize, u64)>)
    ensures
        same_names(with_exhausts(rooms, changes), rooms),
    decreases changes.len(),
{
    if changes.len() > 0 {
        lemma_with_exhausts_keeps_names(rooms, changes.drop_last());
    }
}

/// Changes that only touch the rooms before the last one leave the last
/// room as it is.
proof fn lemma_with_exhausts_before_last(rooms: Seq<Room>, changes: Seq<(usize, u64)>)
    requires
        rooms.len() > 0,
        forall|k: int| 0 <= k < changes.len() ==> (#[trigger] changes[k]).0 < rooms.len() - 1,
    ensures
        with_exhausts(rooms, changes) == with_exhausts(rooms.drop_last(), changes).push(rooms.last()),
    decreases changes.len(),
{
    if changes.len() == 0 {
        assert(rooms =~= rooms.drop_last().push(rooms.last()));
    } else {
        let rest = changes.drop_last();
        assert forall|k: int| 0 <= k < rest.len() implies (#[trigger] rest[k]).0 < rooms.len() - 1 by {
            assert(rest[k] == changes[k]);
        }
        lemma_with_exhausts_before_last(rooms, rest);
        lemma_with_exhausts_keeps_names(rooms.drop_last(), rest);
        assert(changes.last() == changes[changes.len() - 1]);
        let w = with_exhausts(rooms.drop_last(), rest);
        let i = changes.last().0 as int;
        assert(with_exhausts(rooms, changes) =~= with_exhausts(rooms.drop_last(), changes).push(
            rooms.last(),
        )) by {
            assert(w.push(rooms.last()).update(i, with_exhaust_value(w[i], changes.last().1))
                =~= w.update(i, with_exhaust_value(w[i], changes.last().1)).push(rooms.last()));
        }
    }
}

/// Law: recording the planned exhaust changes leaves every room at the
/// setting its flow asks for, and changes nothing else.
pub proof fn lemma_planned_exhausts_settle(rooms: Seq<Room>, total: u64, i: int)
    requires
        0 <= i < rooms.len(),
        rooms.len() <= usize::MAX,
    ensures
        with_exhausts(rooms, exhaust_changes(rooms, total)).len() == rooms.len(),
        with_exhausts(rooms, exhaust_changes(rooms, total))[i] == with_exhaust_value(
            rooms[i],
            exhaust_setting(rooms[i].current_flow, total) as u64,
        ),
    decreases rooms.len(),
{
    let rest = rooms.drop_last();
    let n = rooms.len() - 1;
    let before = exhaust_changes(rest, total);
    assert forall|k: int| 0 <= k < before.len() implies (#[trigger] before[k]).0 < rooms.len() - 1 by {
        lemma_exhaust_changes_bounded(rest, total, k);
    }
    lemma_with_exhausts_before_last(rooms, before);
    lemma_with_exhausts_keeps_names(rest, before);
    lemma_exhaust_setting_range(rooms.last().current_flow, total);
    let w = with_exhausts(rest, before);
    let last = rooms.last();
    let setting = exhaust_setting(last.current_flow, total) as u64;
    let all = exhaust_changes(rooms, total);
    assert(with_exhausts(rooms, before) == w.push(last));
    assert(w.len() == rest.len());
    if setting != last.exhaust_value {
        assert(all == before.push((n as usize, setting)));
        assert(all.drop_last() =~= before);
        assert(with_exhausts(rooms, all) == w.push(last).update(n, with_exhaust_value(last, setting)));
    } else {
        assert(all == before);
        assert(with_exhaust_value(last, setting) == last);
    }
    if i < n {
        assert(rest[i] == rooms[i]);
        lemma_planned_exhausts_settle(rest, total, i);
    } else {
        assert(rooms.last() == rooms[i]);
    }
}

/// Law: when no exhaust setting is known yet (every room still holds
/// `u64::MAX`), the plan writes every room, in room order.
pub proof fn lemma_first_plan_writes_every_room(rooms: Seq<Room>, total: u64)
    requires
        rooms.len() <= usize::MAX,
        forall|i: int| 0 <= i < rooms.len() ==> (#[trigger] rooms[i]).exhaust_value == u64::MAX,
    ensures
        exhaust_changes(rooms, total).len() == rooms.len(),
        forall|k: int|
            0 <= k < rooms.len() ==> #[trigger] exhaust_changes(rooms, total)[k] == (
                k as usize,
                exhaust_setting(rooms[k].current_flow, total) as u64,
            ),
    decreases rooms.len(),
{
    if rooms.len() > 0 {
        let rest = rooms.drop_last();
        assert forall|i: int| 0 <= i < rest.len() implies (#[trigger] rest[i]).exhaust_value == u64::MAX by {
            assert(rest[i] == rooms[i]);
        }
        lemma_first_plan_writes_every_room(rest, total);
        lemma_exhaust_setting_range(rooms.last().current_flow, total);
        assert(rooms.last() == rooms[rooms.len() - 1]);
        assert forall|k: int| 0 <= k < rooms.len() implies #[trigger] exhaust_changes(rooms, total)[k] == (
            k as usize,
            exhaust_setting(rooms[k].current_flow, total) as u64,
        ) by {
            if k < rest.len() {
                assert(rest[k] == rooms[k]);
            }
        }
    }
}

impl State {
    /// Records what applying a plan set: the fan speed and, in order, the
    /// exhaust settings of the plan (a setting for a position past the last
    /// room is ignored). Everything else stays.
    pub fn apply_plan(&mut self, plan: &ApplyPlan)
        requires
            old(self).wf(),
        ensures
            final(self).wf(),
            final(self).speed == plan.speed,
            final(self).rooms@ == with_exhausts(old(self).rooms@, plan.exhausts@),
            final(self).minimum_flow == old(self).minimum_flow,
            final(self).maximum_flow == old(self).maximum_flow,
            final(self).speed_id == old(self).speed_id,
            final(self).manual_id == old(self).manual_id,
            final(self).adjust_time == old(self).adjust_time,
    {
        let ghost start = self.rooms@;
        let mut k: usize = 0;
        while k < plan.exhausts.len()
            invariant
                k <= plan.exhausts@.len(),
                start == old(self).rooms@,
                unique_names(start),
                self.rooms@ == with_exhausts(start, plan.exhausts@.take(k as int)),
                self.minimum_flow == old(self).minimum_flow,
                self.maximum_flow == old(self).maximum_flow,
                self.speed_id == old(self).speed_id,
                self.manual_id == old(self).manual_id,
                self.adjust_time == old(self).adjust_time,
            decreases plan.exhausts@.len() - k,
        {
            proof {
                assert(plan.exhausts@.take(k + 1).drop_last() =~= plan.exhausts@.take(k as int));
                assert(plan.exhausts@.take(k + 1).last() == plan.exhausts@[k as int]);
            }
            let (i, value) = plan.exhausts[k];
            if i < self.rooms.len() {
                let mut room = self.rooms[i].clone();
                room.exhaust_value = value;
                self.rooms.set(i, room);
            }
            proof {
                assert(self.rooms@ =~= with_exhausts(start, plan.exhausts@.take(k + 1)));
            }
            k = k + 1;
        }
        assert(plan.exhausts@.take(k as int) =~= plan.exhausts@);
        proof {
            lemma_with_exhausts_keeps_names(start, plan.exhausts@);
        }
        self.speed = plan.speed;
    }
}

/// Whether a name occurs in a list of names.
pub open spec fn named(names: Seq<String>, name: Seq<char>) -> bool {
    exists|k: int| 0 <= k < names.len() && names[k]@ == name
}

/// No name occurs twice in a list of names.
pub open spec fn distinct_names(names: Seq<String>) -> bool {
    forall|k: int, l: int| 0 <= k < names.len() && 0 <= l < names.len() && k != l ==> names[k]@ != names[l]@
}

proof fn lemma_press_all_entry(rooms: Seq<Room>, names: Seq<String>, i: int)
    requires
        0 <= i < rooms.len(),
        distinct_names(names),
    ensures
        press_all(rooms, names).len() == rooms.len(),
        press_all(rooms, names)[i] == if named(names, rooms[i].name@) {
            with_status(rooms[i], Status::Button(Box::new(rooms[i].status)))
        } else {
            rooms[i]
        },
    decreases names.len(),
{
    if names.len() > 0 {
        let rest = names.drop_last();
        assert(distinct_names(rest)) by {
            assert forall|k: int, l: int| 0 <= k < rest.len() && 0 <= l < rest.len() && k != l implies rest[k]@ != rest[l]@ by {
                assert(rest[k] == names[k] && rest[l] == names[l]);
            }
        }
        lemma_press_all_entry(rooms, rest, i);
        let n = rooms[i].name@;
        if named(rest, n) {
            let k = choose|k: int| 0 <= k < rest.len() && rest[k]@ == n;
            assert(names[k]@ == n);
            assert(names.last()@ != n);
            assert(named(names, n));
        } else if names.last()@ == n {
            assert(named(names, n));
        } else {
            assert forall|k: int| 0 <= k < names.len() implies names[k]@ != n by {
                if k < rest.len() {
                    assert(rest[k] == names[k]);
                }
            }
        }
    }
}

/// Law: pressing the buttons of distinct rooms and then resetting the
/// buttons gives every pressed room back exactly its state from before the
/// press; the other rooms lose one level of button.
pub proof fn lemma_press_then_reset(rooms: Seq<Room>, names: Seq<String>, i: int)
    requires
        0 <= i < rooms.len(),
        distinct_names(names),
    ensures
        unbuttoned(press_all(rooms, names)).len() == rooms.len(),
        unbuttoned(press_all(rooms, names))[i] == if named(names, rooms[i].name@) {
            rooms[i]
        } else {
            with_status(rooms[i], unbutton(rooms[i].status))
        },
{
    lemma_press_all_entry(rooms, names, i);
}

/// Law (what a button's timeout undoes): enabling buttons for distinct
/// rooms and then resetting the buttons leaves each pressed room in the
/// state that resetting alone would have left it in.
pub proof fn lemma_enable_then_reset(rooms: Seq<Room>, names: Seq<String>, i: int)
    requires
        0 <= i < rooms.len(),
        distinct_names(names),
        named(names, rooms[i].name@),
    ensures
        unbuttoned(press_all(unbuttoned(rooms), names))[i] == unbuttoned(rooms)[i],
{
    lemma_press_then_reset(unbuttoned(rooms), names, i);
}

/// Law: the base flow a room is given never exceeds the global maximum
/// flow, and never exceeds the room's own maximum when its minimum does not.
pub proof fn lemma_requested_flows_bounded(rooms: Seq<Room>, maximum: u64, i: int)
    requires
        0 <= i < rooms.len(),
    ensures
        requested_flows(rooms, maximum)[i].base_flow <= maximum,
        rooms[i].minimum_flow <= rooms[i].maximum_flow ==> requested_flows(rooms, maximum)[i].base_flow
            <= rooms[i].maximum_flow,
{
}

/// A room's base flow lies within its maximum and the global maximum.
pub open spec fn within_caps(room: Room, maximum: u64) -> bool {
    room.base_flow <= room.maximum_flow && room.base_flow <= maximum
}

/// Law: handing out the missing flow never lowers a room's base flow (for
/// rooms whose base flow lies within their caps), never changes a room
/// that is ventilating, and never hands out more than is missing.
pub proof fn lemma_default_pass_raises(rooms: Seq<Room>, extra: u64, maximum: u64, i: int)
    requires
        0 <= i < rooms.len(),
        !default_pass_overflows(rooms, extra, maximum),
    ensures
        default_pass(rooms, extra, maximum).0.len() == rooms.len(),
        default_pass(rooms, extra, maximum).1 <= extra,
        within_caps(rooms[i], maximum) ==> default_pass(rooms, extra, maximum).0[i].base_flow
            >= rooms[i].base_flow,
        !(rooms[i].status is Default) ==> default_pass(rooms, extra, maximum).0[i] == rooms[i],
    decreases rooms.len(),
{
    let rest = rooms.drop_last();
    let last = rooms.len() - 1;
    if i < last {
        assert(rest[i] == rooms[i]);
        lemma_default_pass_raises(rest, extra, maximum, i);
        lemma_default_pass_extra(rest, extra, maximum);
    } else {
        lemma_default_pass_extra(rest, extra, maximum);
        lemma_default_pass_names(rest, extra, maximum);
    }
}

proof fn lemma_default_pass_extra(rooms: Seq<Room>, extra: u64, maximum: u64)
    ensures
        default_pass(rooms, extra, maximum).0.len() == rooms.len(),
        default_pass(rooms, extra, maximum).1 <= extra,
    decreases rooms.len(),
{
    if rooms.len() > 0 {
        lemma_default_pass_extra(rooms.drop_last(), extra, maximum);
    }
}

/// Law: the planned exhaust changes cover exactly the rooms whose exhaust
/// setting differs from the one their flow asks for: after the changes,
/// every exhaust is at its room's setting.
pub proof fn lemma_exhaust_changes_complete(rooms: Seq<Room>, total: u64, i: int)
    requires
        0 <= i < rooms.len(),
        rooms.len() <= usize::MAX,
    ensures
        exhaust_setting(rooms[i].current_flow, total) == rooms[i].exhaust_value || exists|k: int|
            0 <= k < exhaust_changes(rooms, total).len() && exhaust_changes(rooms, total)[k] == (
                i as usize,
                exhaust_setting(rooms[i].current_flow, total) as u64,
            ),
    decreases rooms.len(),
{
    let rest = rooms.drop_last();
    let before = exhaust_changes(rest, total);
    if i < rooms.len() - 1 {
        assert(rest[i] == rooms[i]);
        lemma_exhaust_changes_complete(rest, total, i);
        if exhaust_setting(rooms[i].current_flow, total) != rooms[i].exhaust_value {
            let k = choose|k: int|
                0 <= k < before.len() && before[k] == (
                    i as usize,
                    exhaust_setting(rooms[i].current_flow, total) as u64,
                );
            assert(exhaust_changes(rooms, total)[k] == before[k]);
        }
    } else if exhaust_setting(rooms[i].current_flow, total) != rooms[i].exhaust_value {
        let k = before.len() as int;
        assert(exhaust_changes(rooms, total)[k] == (
            i as usize,
            exhaust_setting(rooms[i].current_flow, total) as u64,
        ));
    }
}


/// Whether a flow lies within a room's minimum and maximum and the unit's
/// maximum.
pub open spec fn flow_fits(room: Room, flow: u64, maximum: u64) -> bool {
    room.minimum_flow <= flow && flow <= room.maximum_flow && flow <= maximum
}

/// What a room that asks for `flow` may be given as base flow: never more
/// than the unit's maximum; the flow itself when it fits; the room's
/// maximum when the flow reaches it, the room's minimum when the flow
/// stays at or below it (for consistent limits within the unit's maximum),
/// and the unit's maximum when the flow reaches that first.
pub open spec fn given_for(room: Room, flow: u64, maximum: u64, base: u64) -> bool {
    &&& base <= maximum
    &&& (flow_fits(room, flow, maximum) ==> base == flow)
    &&& (room.minimum_flow <= room.maximum_flow <= maximum && flow >= room.maximum_flow ==> base
        == room.maximum_flow)
    &&& (room.minimum_flow <= room.maximum_flow && room.minimum_flow <= maximum && flow
        <= room.minimum_flow ==> base == room.minimum_flow)
    &&& (room.minimum_flow <= maximum <= room.maximum_flow && flow >= maximum ==> base == maximum)
}

/// Law: while no room is humid, each status asks for the configured flow of
/// its own level: `Low` the low flow, `Medium` the medium flow,
/// `MediumHigh` the medium-high flow, `High` the high flow, `Maximum` the
/// maximum flow, a button the button flow, and `Default` no flow (so the
/// room's minimum). Only the base flow changes.
pub proof fn lemma_requested_flow_levels(rooms: Seq<Room>, maximum: u64, i: int)
    requires
        0 <= i < rooms.len(),
        forall|j: int| 0 <= j < rooms.len() ==> !((#[trigger] rooms[j]).status is Humid),
    ensures
        ({
            let r = rooms[i];
            let b = requested_flows(rooms, maximum)[i].base_flow;
            &&& requested_flows(rooms, maximum).len() == rooms.len()
            &&& requested_flows(rooms, maximum)[i] == with_base_flow(r, b)
            &&& (r.status is Default ==> given_for(r, 0, maximum, b))
            &&& (r.status is Low ==> given_for(r, r.low_flow, maximum, b))
            &&& (r.status is Medium ==> given_for(r, r.medium_flow, maximum, b))
            &&& (r.status is MediumHigh ==> given_for(r, r.medium_high_flow, maximum, b))
            &&& (r.status is High ==> given_for(r, r.high_flow, maximum, b))
            &&& (r.status is Maximum ==> given_for(r, r.maximum_flow, maximum, b))
            &&& (r.status is Button ==> given_for(r, r.button_flow, maximum, b))
        }),
{
}

/// Law: while some room is humid, humid rooms ask for their maximum flow,
/// rooms without ventilation for none, and every other room for 20 m3/h.
pub proof fn lemma_requested_flow_humid(rooms: Seq<Room>, maximum: u64, i: int, h: int)
    requires
        0 <= i < rooms.len(),
        0 <= h < rooms.len(),
        rooms[h].status is Humid,
    ensures
        ({
            let r = rooms[i];
            let b = requested_flows(rooms, maximum)[i].base_flow;
            &&& requested_flows(rooms, maximum)[i] == with_base_flow(r, b)
            &&& (r.status is Humid ==> given_for(r, r.maximum_flow, maximum, b))
            &&& (r.status is Default ==> given_for(r, 0, maximum, b))
            &&& (!(r.status is Humid) && !(r.status is Default) ==> given_for(r, 20, maximum, b))
        }),
{
}


/// The sum of the base flows of the rooms.
pub open spec fn base_total(rooms: Seq<Room>) -> int
    decreases rooms.len(),
{
    if rooms.len() == 0 {
        0
    } else {
        base_total(rooms.drop_last()) + rooms.last().base_flow
    }
}

/// Law: handing out the missing flow never gives the rooms together more
/// than what is handed out: the base flows grow by at most `extra` minus
/// what is still missing afterwards, and what is still missing never
/// exceeds `extra` (for rooms that have at least their minimum flow).
pub proof fn lemma_default_pass_within_missing(rooms: Seq<Room>, extra: u64, maximum: u64)
    requires
        !default_pass_overflows(rooms, extra, maximum),
        forall|i: int| 0 <= i < rooms.len() ==> (#[trigger] rooms[i]).minimum_flow <= rooms[i].base_flow,
    ensures
        default_pass(rooms, extra, maximum).1 <= extra,
        base_total(default_pass(rooms, extra, maximum).0) - base_total(rooms) <= extra
            - default_pass(rooms, extra, maximum).1,
    decreases rooms.len(),
{
    if rooms.len() > 0 {
        let rest = rooms.drop_last();
        assert forall|i: int| 0 <= i < rest.len() implies (#[trigger] rest[i]).minimum_flow
            <= rest[i].base_flow by {
            assert(rest[i] == rooms[i]);
        }
        lemma_default_pass_within_missing(rest, extra, maximum);
        let (done, left) = default_pass(rest, extra, maximum);
        let last = rooms.last();
        assert(last == rooms[rooms.len() - 1]);
        let (r, left2) = default_step(last, left, maximum);
        assert(default_pass(rooms, extra, maximum) == (done.push(r), left2));
        assert(done.push(r).drop_last() =~= done);
        if gets_default_flow(last, left) {
            let add = default_addition(last, left);
            assert(add <= left);
            assert(last.base_flow + add <= u64::MAX);
            let f = (last.base_flow + add) as u64;
            assert(f >= last.minimum_flow);
            assert(r.base_flow == clamped_flow(last, f, maximum));
            assert(r.base_flow <= f);
        }
    }
}


/// Law: a flow below the total gets its share of `EXHAUST_MAX` (the whole
/// percentage of the total it is, times 40), rounded up to the next
/// multiple of 100; a flow at or above the total opens the exhaust fully
/// and no flow closes it.
pub proof fn lemma_exhaust_setting_rounds_up(flow: u64, total_flow: u64)
    ensures
        flow >= total_flow ==> exhaust_setting(flow, total_flow) == EXHAUST_MAX,
        flow == 0 && total_flow > 0 ==> exhaust_setting(flow, total_flow) == 0,
        0 < flow < total_flow ==> ({
            let share = (flow * 100) / (total_flow as int);
            &&& share * 40 <= exhaust_setting(flow, total_flow) < share * 40 + 100
            &&& exhaust_setting(flow, total_flow) % 100 == 0
        }),
{
    if 0 < flow < total_flow {
        let share = (flow * 100) / (total_flow as int);
        assert(share >= 0) by (nonlinear_arith)
            requires
                share == (flow * 100) / (total_flow as int),
                flow > 0,
                total_flow > 0,
        ;
        let raw = (share * 4000) / 100;
        assert(raw == share * 40) by (nonlinear_arith)
            requires
                raw == (share * 4000) / 100,
        ;
        let r = ((raw + 99) / 100) * 100;
        assert(raw <= r < raw + 100 && r % 100 == 0) by (nonlinear_arith)
            requires
                r == ((raw + 99) / 100) * 100,
                raw >= 0,
        ;
    }
}

/// Law: the planned total flow lies between the unit's minimum and maximum
/// (when the minimum does not exceed the maximum), is the flow the rooms
/// ask for when that lies between them, the maximum when they ask for more
/// and the minimum when they ask for less.
pub proof fn lemma_planned_total_bounds(minimum: u64, maximum: u64, per_room: u64)
    ensures
        minimum <= maximum ==> minimum <= planned_total(minimum, maximum, per_room) <= maximum,
        minimum <= per_room <= maximum ==> planned_total(minimum, maximum, per_room) == per_room,
        minimum <= maximum <= per_room ==> planned_total(minimum, maximum, per_room) == maximum,
        per_room <= minimum ==> planned_total(minimum, maximum, per_room) == minimum,
{
}

/// Law: one room's turn in handing out missing flow. A room that is
/// ventilating, has no default flow, or has no flow at all while less than
/// 10 m3/h is missing, or any room when nothing is missing, is passed over
/// and the missing flow stays. Otherwise the room's base flow is raised by
/// what its default flow adds to its minimum (at most what is missing, and
/// nothing when the default is below the minimum), within its limits, and
/// exactly that addition is no longer missing.
pub proof fn lemma_default_step_rules(room: Room, extra: u64, maximum: u64)
    ensures
        (!(room.status is Default) || room.default_flow == 0 || extra == 0 || (room.current_flow
            == 0 && extra < 10)) ==> default_step(room, extra, maximum) == (room, extra),
        ((room.status is Default) && room.default_flow > 0 && extra > 0 && !(room.current_flow == 0
            && extra < 10) && !default_step_overflows(room, extra)) ==> ({
            let add: int = if room.default_flow >= room.minimum_flow {
                if room.default_flow - room.minimum_flow <= extra {
                    room.default_flow - room.minimum_flow
                } else {
                    extra as int
                }
            } else {
                0
            };
            let (r, left) = default_step(room, extra, maximum);
            &&& left == extra - add
            &&& r == with_base_flow(room, r.base_flow)
            &&& given_for(room, (room.base_flow + add) as u64, maximum, r.base_flow)
        }),
{
}

/// Law: a single CO2 update gives the named room the new status unless it
/// ventilates because of humidity or a button; every other room stays.
pub proof fn lemma_measured_single(rooms: Seq<Room>, name: String, status: Status, i: int)
    requires
        0 <= i < rooms.len(),
    ensures
        measured_all(rooms, seq![(name, status)]).len() == rooms.len(),
        rooms[i].name@ == name@ && !(rooms[i].status is Humid) && !(rooms[i].status is Button)
            ==> measured_all(rooms, seq![(name, status)])[i] == with_status(rooms[i], status),
        !(rooms[i].name@ == name@ && !(rooms[i].status is Humid) && !(rooms[i].status is Button))
            ==> measured_all(rooms, seq![(name, status)])[i] == rooms[i],
{
    let u = seq![(name, status)];
    assert(u.len() == 1);
    assert(u.drop_last() =~= Seq::<(String, Status)>::empty());
    assert(measured_all(rooms, u.drop_last()) == rooms);
    assert(u.last() == (name, status));
    assert(measured_all(rooms, u) == measured(rooms, name@, status));
}


/// Law: the total corrected flow adds up the corrected flows of the rooms:
/// no rooms give 0, one more room adds its corrected flow, and the total is
/// at least each room's corrected flow.
pub proof fn lemma_current_total_sums(rooms: Seq<Room>, room: Room)
    ensures
        current_total(Seq::<Room>::empty()) == 0,
        current_total(rooms.push(room)) == current_total(rooms) + room.current_flow,
        forall|i: int| 0 <= i < rooms.len() ==> (#[trigger] rooms[i]).current_flow <= current_total(rooms),
    decreases rooms.len(),
{
    assert(rooms.push(room).drop_last() =~= rooms);
    if rooms.len() > 0 {
        lemma_current_total_sums(rooms.drop_last(), rooms.last());
        assert(rooms.drop_last().push(rooms.last()) =~= rooms);
        assert forall|i: int| 0 <= i < rooms.len() implies (#[trigger] rooms[i]).current_flow
            <= current_total(rooms) by {
            if i < rooms.len() - 1 {
                assert(rooms.drop_last()[i] == rooms[i]);
            }
        }
    }
}

} // verus!
