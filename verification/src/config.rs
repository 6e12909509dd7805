//! The configuration file: its parts, and how they are read from the JSON
//! document.
use crate::json::{
    as_array, as_i64, as_number, as_object, as_string, as_u64, get,
    json_i64, json_number, json_parse, json_str, json_u64, member, parse, Json, JsonNumber,
};
use std::time::Duration;
use vstd::prelude::*;
use vstd::string::*;

verus! {

/// An error produced while parsing a configuration file.
#[derive(Eq, PartialEq, Debug)]
pub enum Error {
    InvalidFile(String),
    InvalidSyntax(String),
    InvalidConfig,
}

/// The message shown for a configuration error.
pub open spec fn error_message(e: Error) -> Seq<char> {
    match e {
        Error::InvalidFile(m) => m@,
        Error::InvalidSyntax(m) => "the JSON syntax is invalid: "@ + m@,
        Error::InvalidConfig => "the configuration is invalid"@,
    }
}

impl Error {
    /// The message shown for the error.
    pub fn to_string(&self) -> (message: String)
        ensures
            message@ == error_message(*self),
    {
        match self {
            Error::InvalidFile(e) => e.clone(),
            Error::InvalidSyntax(e) => {
                let mut m = "the JSON syntax is invalid: ".to_owned();
                m.append(e.as_str());
                m
            },
            Error::InvalidConfig => "the configuration is invalid".to_owned(),
        }
    }

    /// The error for a JSON text that does not parse.
    pub fn from(value: String) -> (e: Error)
        ensures
            e == Error::InvalidSyntax(value),
    {
        Error::InvalidSyntax(value)
    }
}

/// The `Duration` of a number of seconds.
pub uninterp spec fn secs_duration(secs: u64) -> Duration;

/// Trusted: `Duration::from_secs` is a function of its argument (it never
/// panics); nothing more is stated of the opaque `Duration`.
#[verifier::external_body]
fn duration_from_secs(secs: u64) -> (d: Duration)
    ensures
        d == secs_duration(secs),
{
    Duration::from_secs(secs)
}

fn opt_int(object: &Vec<(String, Json)>, key: &str) -> (r: Option<i64>)
    ensures
        r == json_i64(member(object@, key@)),
{
    as_i64(get(object, key))
}

fn opt_uint(object: &Vec<(String, Json)>, key: &str) -> (r: Option<u64>)
    ensures
        r == json_u64(member(object@, key@)),
{
    as_u64(get(object, key))
}

fn opt_string(object: &Vec<(String, Json)>, key: &str) -> (r: Option<String>)
    ensures
        r == json_str(member(object@, key@)),
{
    as_string(get(object, key))
}

fn string(object: &Vec<(String, Json)>, key: &str) -> (r: Result<String, Error>)
    ensures
        r == match json_str(member(object@, key@)) {
            Some(s) => Ok::<String, Error>(s),
            None => Err(Error::InvalidConfig),
        },
{
    match as_string(get(object, key)) {
        Some(s) => Ok(s),
        None => Err(Error::InvalidConfig),
    }
}

fn uint(object: &Vec<(String, Json)>, key: &str) -> (r: Result<u64, Error>)
    ensures
        r == match json_u64(member(object@, key@)) {
            Some(n) => Ok::<u64, Error>(n),
            None => Err(Error::InvalidConfig),
        },
{
    match as_u64(get(object, key)) {
        Some(n) => Ok(n),
        None => Err(Error::InvalidConfig),
    }
}

/// A number of any kind; it is kept as written, since what it stands for is
/// a fractional factor.
fn float(object: &Vec<(String, Json)>, key: &str) -> (r: Result<JsonNumber, Error>)
    ensures
        r == match json_number(member(object@, key@)) {
            Some(n) => Ok::<JsonNumber, Error>(n),
            None => Err(Error::InvalidConfig),
        },
{
    match as_number(get(object, key)) {
        Some(n) => Ok(n),
        None => Err(Error::InvalidConfig),
    }
}

/// Configuration details for the air flow of a room.
#[derive(Clone, Copy, PartialEq, Eq, Debug, Structural)]
pub struct Flow {
    /// The value to multiply the flow by to obtain the true air flow, as
    /// written in the configuration (for example `1.1`).
    ///
    /// Given a configured air flow of X m3/h, the actual air flow may end up
    /// lower due to the distance from the exhaust to the ventilation system,
    /// the amount of corners the duct has to take, the material of the duct,
    /// etc. This value is multiplied with the flow to correct for such
    /// variables.
    pub correction: JsonNumber,
    /// The minimum air flow for active ventilation in m3/h.
    pub minimum: u64,
    /// The maximum air flow in m3/h.
    pub maximum: u64,
    /// The default air flow in m3/h.
    pub default: u64,
    /// The air flow in m3/h for the "low" setting.
    pub low: u64,
    /// The air flow in m3/h for the "medium" setting.
    pub medium: u64,
    /// The air flow in m3/h for the "medium high" setting.
    pub medium_high: u64,
    /// The air flow in m3/h for the "high" setting.
    pub high: u64,
    /// The air flow in m3/h to apply when enabling ventilation in response to a
    /// button.
    pub button: u64,
}

/// The flow settings an object describes: all keys but `button` are
/// required, `button` defaults to the maximum.
pub open spec fn flow_from(o: Seq<(String, Json)>) -> Option<Flow> {
    let correction = json_number(member(o, "correction"@));
    let minimum = json_u64(member(o, "minimum"@));
    let maximum = json_u64(member(o, "maximum"@));
    let default = json_u64(member(o, "default"@));
    let low = json_u64(member(o, "low"@));
    let medium = json_u64(member(o, "medium"@));
    let medium_high = json_u64(member(o, "medium_high"@));
    let high = json_u64(member(o, "high"@));
    if correction is Some && minimum is Some && maximum is Some && default is Some && low is Some
        && medium is Some && medium_high is Some && high is Some {
        Some(
            Flow {
                correction: correction->0,
                minimum: minimum->0,
                maximum: maximum->0,
                default: default->0,
                low: low->0,
                medium: medium->0,
                medium_high: medium_high->0,
                high: high->0,
                button: match json_u64(member(o, "button"@)) {
                    Some(b) => b,
                    None => maximum->0,
                },
            },
        )
    } else {
        None
    }
}

/// An optional spec value turned into the result of reading a section.
pub open spec fn required<T>(v: Option<T>) -> Result<T, Error> {
    match v {
        Some(x) => Ok(x),
        None => Err(Error::InvalidConfig),
    }
}

impl Flow {
    pub fn from_json(object: &Vec<(String, Json)>) -> (r: Result<Flow, Error>)
        ensures
            r == required(flow_from(object@)),
    {
        let correct = float(object, "correction")?;
        let min = uint(object, "minimum")?;
        let max = uint(object, "maximum")?;
        let def = uint(object, "default")?;
        let low = uint(object, "low")?;
        let med = uint(object, "medium")?;
        let med_high = uint(object, "medium_high")?;
        let high = uint(object, "high")?;
        let button = match opt_uint(object, "button") {
            Some(b) => b,
            None => max,
        };
        Ok(
            Flow {
                correction: correct,
                minimum: min,
                maximum: max,
                default: def,
                low: low,
                medium: med,
                medium_high: med_high,
                high: high,
                button: button,
            },
        )
    }
}

/// Configuration details for a single room.
pub struct Room {
    /// The unique name of the room.
    pub name: String,
    /// The setting ID of the exhaust for this room.
    pub exhaust: u64,
    /// The air flow configuration for this room.
    pub flow: Flow,
    /// The ID of the motion sensor associated with this room.
    pub motion: Option<u64>,
    /// The name of the humidity sensor associated with this room.
    pub humidity: Option<String>,
    /// The address of a MoreSense CO2 sensor associated with this room.
    pub co2: Option<String>,
    /// The minimum CO2 value to observe before enabling active ventilation.
    pub co2_minimum: Option<u64>,
}

/// The room a named object describes: `exhaust` and the `flow` object are
/// required, the other keys are optional.
pub open spec fn room_from(name: String, o: Seq<(String, Json)>) -> Option<Room> {
    let exhaust = json_u64(member(o, "exhaust"@));
    let flow = match member(o, "flow"@) {
        Some(Json::Object(f)) => flow_from(f@),
        _ => None,
    };
    if exhaust is Some && flow is Some {
        Some(
            Room {
                name: name,
                exhaust: exhaust->0,
                flow: flow->0,
                motion: json_u64(member(o, "motion"@)),
                humidity: json_str(member(o, "humidity"@)),
                co2: json_str(member(o, "co2"@)),
                co2_minimum: json_u64(member(o, "co2_minimum"@)),
            },
        )
    } else {
        None
    }
}

impl Room {
    pub fn from_json(name: String, object: &Vec<(String, Json)>) -> (r: Result<Room, Error>)
        ensures
            r == required(room_from(name, object@)),
    {
        let exhaust = uint(object, "exhaust")?;
        let flow = match as_object(get(object, "flow")) {
            Some(o) => Flow::from_json(o)?,
            _ => return Err(Error::InvalidConfig),
        };
        let motion = opt_uint(object, "motion");
        let humidity = opt_string(object, "humidity");
        let co2 = opt_string(object, "co2");
        let co2_min = opt_uint(object, "co2_minimum");
        Ok(
            Room {
                name: name,
                flow: flow,
                exhaust: exhaust,
                motion: motion,
                humidity: humidity,
                co2: co2,
                co2_minimum: co2_min,
            },
        )
    }
}

/// Configuration details for the Itho ventilation unit.
pub struct Itho {
    /// The address of the Itho WiFi module.
    pub address: String,
    /// The ID of the setting that controls the manual mode.
    pub manual_id: u64,
    /// The ID of the setting that controls the ventilation speed.
    pub speed_id: u64,
    /// The minimum air flow to always apply.
    pub minimum_flow: u64,
    /// The maximum air flow supported by the unit.
    pub maximum_flow: u64,
    /// The amount of time (in seconds) to wait for the valves to adjust
    /// their setting.
    pub adjust_time: u64,
}

/// The unit an object describes: `adjust_time` defaults to 5 seconds, the
/// other keys are required.
pub open spec fn itho_from(o: Seq<(String, Json)>) -> Option<Itho> {
    let address = json_str(member(o, "address"@));
    let manual = json_u64(member(o, "manual_id"@));
    let speed = json_u64(member(o, "speed_id"@));
    let min = json_u64(member(o, "minimum_flow"@));
    let max = json_u64(member(o, "maximum_flow"@));
    if address is Some && manual is Some && speed is Some && min is Some && max is Some {
        Some(
            Itho {
                address: address->0,
                manual_id: manual->0,
                speed_id: speed->0,
                minimum_flow: min->0,
                maximum_flow: max->0,
                adjust_time: match json_u64(member(o, "adjust_time"@)) {
                    Some(t) => t,
                    None => 5,
                },
            },
        )
    } else {
        None
    }
}

impl Itho {
    pub fn from_json(object: &Vec<(String, Json)>) -> (r: Result<Itho, Error>)
        ensures
            r == required(itho_from(object@)),
    {
        let address = string(object, "address")?;
        let manual = uint(object, "manual_id")?;
        let speed = uint(object, "speed_id")?;
        let min = uint(object, "minimum_flow")?;
        let max = uint(object, "maximum_flow")?;
        let adjust_time = match opt_uint(object, "adjust_time") {
            Some(t) => t,
            None => 5,
        };
        Ok(
            Itho {
                address,
                manual_id: manual,
                speed_id: speed,
                minimum_flow: min,
                maximum_flow: max,
                adjust_time: adjust_time,
            },
        )
    }
}

/// Configuration details for the metrics database.
pub struct Metrics {
    /// The IP address to connect to, as written (see
    /// `Config::check_addresses`).
    pub ip: String,
    /// The port number of the server.
    pub port: u16,
}

/// The metrics database an object describes; the port is the low 16 bits
/// of the number given.
pub open spec fn metrics_from(o: Seq<(String, Json)>) -> Option<Metrics> {
    let ip = json_str(member(o, "ip"@));
    let port = json_u64(member(o, "port"@));
    if ip is Some && port is Some {
        Some(Metrics { ip: ip->0, port: port->0 as u16 })
    } else {
        None
    }
}

impl Metrics {
    pub fn from_json(object: &Vec<(String, Json)>) -> (r: Result<Metrics, Error>)
        ensures
            r == required(metrics_from(object@)),
    {
        let ip = string(object, "ip")?;
        let port = uint(object, "port")? as u16;
        Ok(Metrics { ip: ip, port: port })
    }
}

/// Configuration details for the Hue API.
pub struct Hue {
    /// The IP address to connect to, as written (see
    /// `Config::check_addresses`).
    pub ip: String,
    /// The user/API token to use.
    pub user: String,
}

pub open spec fn hue_from(o: Seq<(String, Json)>) -> Option<Hue> {
    let ip = json_str(member(o, "ip"@));
    let user = json_str(member(o, "user"@));
    if ip is Some && user is Some {
        Some(Hue { ip: ip->0, user: user->0 })
    } else {
        None
    }
}

impl Hue {
    pub fn from_json(object: &Vec<(String, Json)>) -> (r: Result<Hue, Error>)
        ensures
            r == required(hue_from(object@)),
    {
        let ip = string(object, "ip")?;
        let user = string(object, "user")?;
        Ok(Hue { ip: ip, user: user })
    }
}

/// Configuration settings for the humidity sensors.
#[derive(Clone, Copy, PartialEq, Eq, Debug, Structural)]
pub struct Humidity {
    /// The threshold at which to start ventilating at maximum speed.
    pub high: u64,
    /// The threshold at which to return to normal ventilation.
    pub low: u64,
    /// If humidity increases by this value then ventilation is enabled,
    /// regardless of the absolute value.
    pub max_increase: u64,
    /// The value to add to the raw sensor values to obtain the correct value.
    pub correction: i64,
}

/// The humidity settings an object describes: `high` and `low` are
/// required, `max_increase` defaults to 15 and `correction` to -5.
pub open spec fn humidity_from(o: Seq<(String, Json)>) -> Option<Humidity> {
    let high = json_u64(member(o, "high"@));
    let low = json_u64(member(o, "low"@));
    if high is Some && low is Some {
        Some(
            Humidity {
                high: high->0,
                low: low->0,
                max_increase: match json_u64(member(o, "max_increase"@)) {
                    Some(v) => v,
                    None => 15,
                },
                correction: match json_i64(member(o, "correction"@)) {
                    Some(v) => v,
                    None => -5i64,
                },
            },
        )
    } else {
        None
    }
}

impl Humidity {
    pub fn from_json(object: &Vec<(String, Json)>) -> (r: Result<Humidity, Error>)
        ensures
            r == required(humidity_from(object@)),
    {
        let high = uint(object, "high")?;
        let low = uint(object, "low")?;
        let max_increase = match opt_uint(object, "max_increase") {
            Some(v) => v,
            None => 15,
        };
        let correct = match opt_int(object, "correction") {
            Some(v) => v,
            None => -5,
        };
        Ok(Humidity { high: high, low: low, max_increase: max_increase, correction: correct })
    }
}

/// Configuration details for a single button.
pub struct Button {
    /// The name of the button state.
    pub name: String,
    /// The rooms to ventilate.
    pub rooms: Vec<String>,
    /// The time to ventilate the room for.
    pub duration: Duration,
}

pub struct ButtonView {
    pub name: String,
    pub rooms: Seq<String>,
    pub duration: Duration,
}

impl View for Button {
    type V = ButtonView;

    open spec fn view(&self) -> ButtonView {
        ButtonView { name: self.name, rooms: self.rooms@, duration: self.duration }
    }
}

/// The strings of an array, when all its items are strings.
pub open spec fn strings_of(items: Seq<Json>) -> Option<Seq<String>>
    decreases items.len(),
{
    if items.len() == 0 {
        Some(Seq::empty())
    } else {
        match (strings_of(items.drop_last()), items.last()) {
            (Some(s), Json::Str(x)) => Some(s.push(x)),
            _ => None,
        }
    }
}

/// The button a named object describes: an array `rooms` of strings and a
/// `duration` in seconds.
pub open spec fn button_from(name: String, o: Seq<(String, Json)>) -> Option<ButtonView> {
    let rooms = match member(o, "rooms"@) {
        Some(Json::Array(items)) => strings_of(items@),
        _ => None,
    };
    let duration = json_u64(member(o, "duration"@));
    if rooms is Some && duration is Some {
        Some(ButtonView { name: name, rooms: rooms->0, duration: secs_duration(duration->0) })
    } else {
        None
    }
}

impl Button {
    pub fn from_json(name: String, object: &Vec<(String, Json)>) -> (r: Result<Button, Error>)
        ensures
            match r {
                Ok(b) => button_from(name, object@) == Some(b@),
                Err(e) => button_from(name, object@) is None && e == Error::InvalidConfig,
            },
    {
        let vals = match as_array(get(object, "rooms")) {
            Some(v) => v,
            None => return Err(Error::InvalidConfig),
        };
        let mut rooms: Vec<String> = Vec::new();
        let mut i: usize = 0;
        while i < vals.len()
            invariant
                i <= vals@.len(),
                member(object@, "rooms"@) matches Some(Json::Array(items)) && items@ == vals@,
                strings_of(vals@.take(i as int)) == Some(rooms@),
            decreases vals@.len() - i,
        {
            proof {
                assert(vals@.take(i + 1).drop_last() =~= vals@.take(i as int));
            }
            match as_string(Some(&vals[i])) {
                Some(v) => rooms.push(v),
                None => {
                    proof {
                        lemma_strings_of_prefix(vals@, i + 1);
                    }
                    return Err(Error::InvalidConfig);
                },
            }
            i = i + 1;
        }
        assert(vals@.take(i as int) =~= vals@);
        let duration = duration_from_secs(uint(object, "duration")?);
        Ok(Button { name: name, rooms: rooms, duration: duration })
    }
}

/// An array with an item that is no string has no strings, whatever
/// follows it.
proof fn lemma_strings_of_prefix(items: Seq<Json>, k: int)
    requires
        0 <= k <= items.len(),
        strings_of(items.take(k)) is None,
    ensures
        strings_of(items) is None,
    decreases items.len() - k,
{
    if k < items.len() {
        assert(items.take(k + 1).drop_last() =~= items.take(k));
        lemma_strings_of_prefix(items, k + 1);
    } else {
        assert(items.take(k) =~= items);
    }
}

/// Configuration details for the RF remote.
pub struct Remote {
    /// The ID/name of the remote as used in the API.
    pub id: String,
    /// The button states and their rooms to ventilate.
    pub buttons: Vec<Button>,
}

pub struct RemoteView {
    pub id: String,
    pub buttons: Seq<ButtonView>,
}

impl View for Remote {
    type V = RemoteView;

    open spec fn view(&self) -> RemoteView {
        RemoteView { id: self.id, buttons: self.buttons@.map_values(|b: Button| b@) }
    }
}

/// The buttons that the entries of an object describe, each entry an
/// object named by its key.
pub open spec fn buttons_from(entries: Seq<(String, Json)>) -> Option<Seq<ButtonView>>
    decreases entries.len(),
{
    if entries.len() == 0 {
        Some(Seq::empty())
    } else {
        match (buttons_from(entries.drop_last()), entries.last().1) {
            (Some(bs), Json::Object(o)) => match button_from(entries.last().0, o@) {
                Some(b) => Some(bs.push(b)),
                None => None,
            },
            _ => None,
        }
    }
}

pub open spec fn remote_from(o: Seq<(String, Json)>) -> Option<RemoteView> {
    let id = json_str(member(o, "id"@));
    let buttons = match member(o, "buttons"@) {
        Some(Json::Object(entries)) => buttons_from(entries@),
        _ => None,
    };
    if id is Some && buttons is Some {
        Some(RemoteView { id: id->0, buttons: buttons->0 })
    } else {
        None
    }
}

proof fn lemma_buttons_from_prefix(entries: Seq<(String, Json)>, k: int)
    requires
        0 <= k <= entries.len(),
        buttons_from(entries.take(k)) is None,
    ensures
        buttons_from(entries) is None,
    decreases entries.len() - k,
{
    if k < entries.len() {
        assert(entries.take(k + 1).drop_last() =~= entries.take(k));
        lemma_buttons_from_prefix(entries, k + 1);
    } else {
        assert(entries.take(k) =~= entries);
    }
}

impl Remote {
    pub fn from_json(object: &Vec<(String, Json)>) -> (r: Result<Remote, Error>)
        ensures
            match r {
                Ok(remote) => remote_from(object@) == Some(remote@),
                Err(e) => remote_from(object@) is None && e == Error::InvalidConfig,
            },
    {
        let id = string(object, "id")?;
        let mut buttons: Vec<Button> = Vec::new();
        let obj = match as_object(get(object, "buttons")) {
            Some(obj) => obj,
            None => return Err(Error::InvalidConfig),
        };
        let mut i: usize = 0;
        while i < obj.len()
            invariant
                i <= obj@.len(),
                member(object@, "buttons"@) matches Some(Json::Object(entries)) && entries@
                    == obj@,
                json_str(member(object@, "id"@)) == Some(id),
                buttons_from(obj@.take(i as int)) == Some(buttons@.map_values(|b: Button| b@)),
            decreases obj@.len() - i,
        {
            proof {
                assert(obj@.take(i + 1).drop_last() =~= obj@.take(i as int));
                assert(obj@.take(i + 1).last() == obj@[i as int]);
            }
            let v = match as_object(Some(&obj[i].1)) {
                Some(v) => v,
                None => {
                    proof {
                        lemma_buttons_from_prefix(obj@, i + 1);
                    }
                    return Err(Error::InvalidConfig);
                },
            };
            match Button::from_json(obj[i].0.clone(), v) {
                Ok(b) => {
                    let ghost before = buttons@;
                    buttons.push(b);
                    assert(buttons@.map_values(|b: Button| b@) =~= before.map_values(
                        |b: Button| b@,
                    ).push(b@));
                },
                Err(e) => {
                    proof {
                        lemma_buttons_from_prefix(obj@, i + 1);
                    }
                    return Err(e);
                },
            }
            i = i + 1;
        }
        assert(obj@.take(i as int) =~= obj@);
        Ok(Remote { id: id, buttons: buttons })
    }
}

/// All configuration details.
pub struct Config {
    /// The configuration details for each room to ventilate.
    pub rooms: Vec<Room>,
    /// The configuration details for the Itho ventilation unit.
    pub itho: Itho,
    /// The configuration details for the metrics database.
    pub metrics: Metrics,
    /// The configuration details for the Hue API.
    pub hue: Hue,
    /// The configuration details for the humidity sensors.
    pub humidity: Humidity,
    /// The configuration details for the RF remote.
    pub remote: Option<Remote>,
}

pub struct ConfigView {
    pub rooms: Seq<Room>,
    pub itho: Itho,
    pub metrics: Metrics,
    pub hue: Hue,
    pub humidity: Humidity,
    pub remote: Option<RemoteView>,
}

impl View for Config {
    type V = ConfigView;

    open spec fn view(&self) -> ConfigView {
        ConfigView {
            rooms: self.rooms@,
            itho: self.itho,
            metrics: self.metrics,
            hue: self.hue,
            humidity: self.humidity,
            remote: match self.remote {
                Some(r) => Some(r@),
                None => None,
            },
        }
    }
}

/// The rooms that the entries of an object describe, each entry an object
/// named by its key, in the order of the entries.
pub open spec fn rooms_from(entries: Seq<(String, Json)>) -> Option<Seq<Room>>
    decreases entries.len(),
{
    if entries.len() == 0 {
        Some(Seq::empty())
    } else {
        match (rooms_from(entries.drop_last()), entries.last().1) {
            (Some(rs), Json::Object(o)) => match room_from(entries.last().0, o@) {
                Some(r) => Some(rs.push(r)),
                None => None,
            },
            _ => None,
        }
    }
}

proof fn lemma_rooms_from_prefix(entries: Seq<(String, Json)>, k: int)
    requires
        0 <= k <= entries.len(),
        rooms_from(entries.take(k)) is None,
    ensures
        rooms_from(entries) is None,
    decreases entries.len() - k,
{
    if k < entries.len() {
        assert(entries.take(k + 1).drop_last() =~= entries.take(k));
        lemma_rooms_from_prefix(entries, k + 1);
    } else {
        assert(entries.take(k) =~= entries);
    }
}

/// A section of the root object that must be an object.
pub open spec fn section(root: Seq<(String, Json)>, key: Seq<char>) -> Option<Seq<(String, Json)>> {
    match member(root, key) {
        Some(Json::Object(o)) => Some(o@),
        _ => None,
    }
}

/// The configuration a document describes: the root must be an object with
/// the objects `rooms`, `itho`, `metrics`, `hue` and `humidity`, each valid;
/// `remote` is read when it is an object and ignored otherwise.
pub open spec fn config_from(root: Json) -> Option<ConfigView> {
    match root {
        Json::Object(r) => {
            let rooms = match section(r@, "rooms"@) {
                Some(e) => rooms_from(e),
                None => None,
            };
            let itho = match section(r@, "itho"@) {
                Some(o) => itho_from(o),
                None => None,
            };
            let metrics = match section(r@, "metrics"@) {
                Some(o) => metrics_from(o),
                None => None,
            };
            let hue = match section(r@, "hue"@) {
                Some(o) => hue_from(o),
                None => None,
            };
            let humidity = match section(r@, "humidity"@) {
                Some(o) => humidity_from(o),
                None => None,
            };
            let remote = match section(r@, "remote"@) {
                Some(o) => match remote_from(o) {
                    Some(x) => Some(Some(x)),
                    None => None,
                },
                None => Some(None),
            };
            if rooms is Some && itho is Some && metrics is Some && hue is Some && humidity is Some
                && remote is Some {
                Some(
                    ConfigView {
                        rooms: rooms->0,
                        itho: itho->0,
                        metrics: metrics->0,
                        hue: hue->0,
                        humidity: humidity->0,
                        remote: remote->0,
                    },
                )
            } else {
                None
            }
        },
        _ => None,
    }
}

impl Config {
    /// Reads the configuration a JSON document describes.
    pub fn from_json(root: &Json) -> (r: Result<Config, Error>)
        ensures
            match r {
                Ok(c) => config_from(*root) == Some(c@),
                Err(e) => config_from(*root) is None && e == Error::InvalidConfig,
            },
    {
        let entries = match root {
            Json::Object(o) => o,
            _ => return Err(Error::InvalidConfig),
        };
        let mut rooms: Vec<Room> = Vec::new();
        match as_object(get(entries, "rooms")) {
            Some(obj) => {
                let mut i: usize = 0;
                while i < obj.len()
                    invariant
                        i <= obj@.len(),
                        *root matches Json::Object(e) && e@ == entries@,
                        section(entries@, "rooms"@) == Some(obj@),
                        rooms_from(obj@.take(i as int)) == Some(rooms@),
                    decreases obj@.len() - i,
                {
                    proof {
                        assert(obj@.take(i + 1).drop_last() =~= obj@.take(i as int));
                        assert(obj@.take(i + 1).last() == obj@[i as int]);
                    }
                    match as_object(Some(&obj[i].1)) {
                        Some(v) => {
                            match Room::from_json(obj[i].0.clone(), v) {
                                Ok(room) => rooms.push(room),
                                Err(e) => {
                                    proof {
                                        lemma_rooms_from_prefix(obj@, i + 1);
                                    }
                                    return Err(e);
                                },
                            }
                        },
                        _ => {
                            proof {
                                lemma_rooms_from_prefix(obj@, i + 1);
                            }
                            return Err(Error::InvalidConfig);
                        },
                    }
                    i = i + 1;
                }
                assert(obj@.take(i as int) =~= obj@);
            },
            _ => return Err(Error::InvalidConfig),
        };
        let itho = match as_object(get(entries, "itho")) {
            Some(v) => match Itho::from_json(v) {
                Ok(x) => x,
                Err(e) => return Err(e),
            },
            _ => return Err(Error::InvalidConfig),
        };
        let metrics = match as_object(get(entries, "metrics")) {
            Some(v) => match Metrics::from_json(v) {
                Ok(x) => x,
                Err(e) => return Err(e),
            },
            _ => return Err(Error::InvalidConfig),
        };
        let hue = match as_object(get(entries, "hue")) {
            Some(v) => match Hue::from_json(v) {
                Ok(x) => x,
                Err(e) => return Err(e),
            },
            _ => return Err(Error::InvalidConfig),
        };
        let humidity = match as_object(get(entries, "humidity")) {
            Some(v) => match Humidity::from_json(v) {
                Ok(x) => x,
                Err(e) => return Err(e),
            },
            _ => return Err(Error::InvalidConfig),
        };
        let remote = match as_object(get(entries, "remote")) {
            Some(v) => match Remote::from_json(v) {
                Ok(x) => Some(x),
                Err(e) => return Err(e),
            },
            _ => None,
        };
        Ok(
            Config {
                rooms: rooms,
                itho: itho,
                metrics: metrics,
                hue: hue,
                humidity: humidity,
                remote: remote,
            },
        )
    }

    /// Parses the text of a configuration file: a text that is no JSON
    /// gives `InvalidSyntax` with the parser's message, a document that
    /// describes no configuration `InvalidConfig`.
    pub fn parse(text: &str) -> (r: Result<Config, Error>)
        ensures
            match json_parse(text@) {
                Ok(doc) => match r {
                    Ok(c) => config_from(doc) == Some(c@),
                    Err(e) => config_from(doc) is None && e == Error::InvalidConfig,
                },
                Err(m) => r matches Err(Error::InvalidSyntax(s)) && s@ == m,
            },
    {
        match parse(text) {
            Ok(doc) => Config::from_json(&doc),
            Err(m) => Err(Error::from(m)),
        }
    }

    /// Checks the addresses of the metrics database and the Hue bridge,
    /// which must be IP addresses: `metrics_ip_valid` and `hue_ip_valid`
    /// tell whether `self.metrics.ip` and `self.hue.ip` are. Either one
    /// invalid gives `InvalidConfig`; otherwise the configuration is kept.
    pub fn check_addresses(self, metrics_ip_valid: bool, hue_ip_valid: bool) -> (r: Result<
        Config,
        Error,
    >)
        ensures
            metrics_ip_valid && hue_ip_valid ==> r == Ok::<Config, Error>(self),
            !(metrics_ip_valid && hue_ip_valid) ==> r == Err::<Config, Error>(Error::InvalidConfig),
    {
        if metrics_ip_valid && hue_ip_valid {
            Ok(self)
        } else {
            Err(Error::InvalidConfig)
        }
    }
}


/// Law: each flow setting is the number under the key of its own name;
/// `button` falls back to the maximum; the settings are read exactly when
/// every required key holds a number of the right kind.
pub proof fn lemma_flow_keys(o: Seq<(String, Json)>)
    ensures
        flow_from(o) matches Some(f) ==> {
            &&& json_number(member(o, "correction"@)) == Some(f.correction)
            &&& json_u64(member(o, "minimum"@)) == Some(f.minimum)
            &&& json_u64(member(o, "maximum"@)) == Some(f.maximum)
            &&& json_u64(member(o, "default"@)) == Some(f.default)
            &&& json_u64(member(o, "low"@)) == Some(f.low)
            &&& json_u64(member(o, "medium"@)) == Some(f.medium)
            &&& json_u64(member(o, "medium_high"@)) == Some(f.medium_high)
            &&& json_u64(member(o, "high"@)) == Some(f.high)
            &&& (json_u64(member(o, "button"@)) matches Some(b) ==> f.button == b)
            &&& (json_u64(member(o, "button"@)) is None ==> f.button == f.maximum)
        },
        flow_from(o) is Some <==> (json_number(member(o, "correction"@)) is Some && json_u64(
            member(o, "minimum"@),
        ) is Some && json_u64(member(o, "maximum"@)) is Some && json_u64(member(o, "default"@))
            is Some && json_u64(member(o, "low"@)) is Some && json_u64(member(o, "medium"@)) is Some
            && json_u64(member(o, "medium_high"@)) is Some && json_u64(member(o, "high"@)) is Some),
{
}

/// Law: a room's settings come from the keys of their own names, its
/// name from the entry's key, and its flow from the `flow` object.
pub proof fn lemma_room_keys(name: String, o: Seq<(String, Json)>)
    ensures
        room_from(name, o) matches Some(r) ==> {
            &&& r.name == name
            &&& json_u64(member(o, "exhaust"@)) == Some(r.exhaust)
            &&& member(o, "flow"@) matches Some(Json::Object(f)) && flow_from(f@) == Some(r.flow)
            &&& r.motion == json_u64(member(o, "motion"@))
            &&& r.humidity == json_str(member(o, "humidity"@))
            &&& r.co2 == json_str(member(o, "co2"@))
            &&& r.co2_minimum == json_u64(member(o, "co2_minimum"@))
        },
{
}

/// Law: the unit's settings come from the keys of their own names;
/// `adjust_time` falls back to 5 seconds.
pub proof fn lemma_itho_keys(o: Seq<(String, Json)>)
    ensures
        itho_from(o) matches Some(i) ==> {
            &&& json_str(member(o, "address"@)) == Some(i.address)
            &&& json_u64(member(o, "manual_id"@)) == Some(i.manual_id)
            &&& json_u64(member(o, "speed_id"@)) == Some(i.speed_id)
            &&& json_u64(member(o, "minimum_flow"@)) == Some(i.minimum_flow)
            &&& json_u64(member(o, "maximum_flow"@)) == Some(i.maximum_flow)
            &&& (json_u64(member(o, "adjust_time"@)) matches Some(t) ==> i.adjust_time == t)
            &&& (json_u64(member(o, "adjust_time"@)) is None ==> i.adjust_time == 5)
        },
        itho_from(o) is Some <==> (json_str(member(o, "address"@)) is Some && json_u64(
            member(o, "manual_id"@),
        ) is Some && json_u64(member(o, "speed_id"@)) is Some && json_u64(
            member(o, "minimum_flow"@),
        ) is Some && json_u64(member(o, "maximum_flow"@)) is Some),
{
}

/// Law: the metrics, Hue and humidity settings come from the keys of their
/// own names; the port keeps the low 16 bits of its number, `max_increase`
/// falls back to 15 and `correction` to -5.
pub proof fn lemma_section_keys(o: Seq<(String, Json)>)
    ensures
        metrics_from(o) matches Some(m) ==> json_str(member(o, "ip"@)) == Some(m.ip) && (json_u64(
            member(o, "port"@),
        ) matches Some(p) && m.port == p as u16),
        hue_from(o) matches Some(h) ==> json_str(member(o, "ip"@)) == Some(h.ip) && json_str(
            member(o, "user"@),
        ) == Some(h.user),
        humidity_from(o) matches Some(h) ==> {
            &&& json_u64(member(o, "high"@)) == Some(h.high)
            &&& json_u64(member(o, "low"@)) == Some(h.low)
            &&& (json_u64(member(o, "max_increase"@)) matches Some(v) ==> h.max_increase == v)
            &&& (json_u64(member(o, "max_increase"@)) is None ==> h.max_increase == 15)
            &&& (json_i64(member(o, "correction"@)) matches Some(v) ==> h.correction == v)
            &&& (json_i64(member(o, "correction"@)) is None ==> h.correction == -5)
        },
{
}


/// Law: a button's rooms are the strings of its `rooms` array and its
/// duration the number of seconds under `duration`.
pub proof fn lemma_button_keys(name: String, o: Seq<(String, Json)>)
    ensures
        button_from(name, o) matches Some(b) ==> {
            &&& b.name == name
            &&& member(o, "rooms"@) matches Some(Json::Array(items)) && strings_of(items@) == Some(
                b.rooms,
            )
            &&& json_u64(member(o, "duration"@)) matches Some(d) && b.duration == secs_duration(d)
        },
{
}

/// Law: each part of the configuration is read from the section of its
/// own name; `remote` is absent exactly when its section is.
pub proof fn lemma_config_sections(root: Json)
    ensures
        config_from(root) matches Some(c) ==> root matches Json::Object(r) && {
            &&& section(r@, "rooms"@) matches Some(e) && rooms_from(e) == Some(c.rooms)
            &&& section(r@, "itho"@) matches Some(o) && itho_from(o) == Some(c.itho)
            &&& section(r@, "metrics"@) matches Some(o) && metrics_from(o) == Some(c.metrics)
            &&& section(r@, "hue"@) matches Some(o) && hue_from(o) == Some(c.hue)
            &&& section(r@, "humidity"@) matches Some(o) && humidity_from(o) == Some(c.humidity)
            &&& match section(r@, "remote"@) {
                Some(o) => c.remote is Some && remote_from(o) == c.remote,
                None => c.remote is None,
            }
        },
{
}

} // verus!
