//! The Itho WiFi module: the status of its RF remotes and the decoding of
//! its JSON answers.
use crate::json::{
    as_number, as_object, get, index, json_number, json_parse, member, parse, index_of, Json,
    JsonNumber,
};
use crate::text::starts_with;
use vstd::prelude::*;
use vstd::string::*;

verus! {

/// The status of an RF remote.
#[derive(Copy, Clone, Eq, PartialEq, Debug, Structural)]
pub enum RemoteStatus {
    Unknown,
    Low,
    High,
    Cook30,
    Cook60,
    Timer1,
    Timer2,
    Timer3,
}

/// The status a command number stands for; unknown numbers stand for `Low`.
pub open spec fn status_of_command(value: u64) -> RemoteStatus {
    if value == 6 {
        RemoteStatus::High
    } else if value == 8 {
        RemoteStatus::Timer1
    } else if value == 9 {
        RemoteStatus::Timer2
    } else if value == 10 {
        RemoteStatus::Timer3
    } else if value == 13 {
        RemoteStatus::Cook30
    } else if value == 14 {
        RemoteStatus::Cook60
    } else {
        RemoteStatus::Low
    }
}

impl From<u64> for RemoteStatus {
    fn from(value: u64) -> (status: Self) {
        match value {
            6 => Self::High,
            8 => Self::Timer1,
            9 => Self::Timer2,
            10 => Self::Timer3,
            13 => Self::Cook30,
            14 => Self::Cook60,
            _ => Self::Low,
        }
    }
}

impl vstd::std_specs::convert::FromSpecImpl<u64> for RemoteStatus {
    open spec fn obeys_from_spec() -> bool {
        true
    }

    open spec fn from_spec(v: u64) -> RemoteStatus {
        status_of_command(v)
    }
}

/// The name of a remote status, which is also the name of the button
/// configured for it.
pub open spec fn remote_status_name(s: RemoteStatus) -> Seq<char> {
    match s {
        RemoteStatus::Unknown => "unknown"@,
        RemoteStatus::Low => "low"@,
        RemoteStatus::High => "high"@,
        RemoteStatus::Cook30 => "cook30"@,
        RemoteStatus::Cook60 => "cook60"@,
        RemoteStatus::Timer1 => "timer1"@,
        RemoteStatus::Timer2 => "timer2"@,
        RemoteStatus::Timer3 => "timer3"@,
    }
}

impl RemoteStatus {
    pub fn name(self) -> (name: &'static str)
        ensures
            name@ == remote_status_name(self),
    {
        match self {
            RemoteStatus::Unknown => "unknown",
            RemoteStatus::Low => "low",
            RemoteStatus::High => "high",
            RemoteStatus::Cook30 => "cook30",
            RemoteStatus::Cook60 => "cook60",
            RemoteStatus::Timer1 => "timer1",
            RemoteStatus::Timer2 => "timer2",
            RemoteStatus::Timer3 => "timer3",
        }
    }
}

/// The last command an RF remote sent.
#[derive(Copy, Clone, Eq, PartialEq, Debug, Structural)]
pub struct Remote {
    /// The current status of the remote.
    pub status: RemoteStatus,
    /// The time at which the command was received.
    pub timestamp: i64,
}

/// An error produced when talking to the Itho WiFi module.
#[derive(Eq, PartialEq, Debug)]
pub enum Error {
    RequestFailed(String),
    InvalidRootValue,
    InvalidJson(String),
}

pub open spec fn error_message(e: Error) -> Seq<char> {
    match e {
        Error::RequestFailed(m) => "the request failed: "@ + m@,
        Error::InvalidRootValue => "the root JSON value must be an object"@,
        Error::InvalidJson(m) => "the JSON is invalid: "@ + m@,
    }
}

impl Error {
    /// The message shown for the error.
    pub fn to_string(&self) -> (message: String)
        ensures
            message@ == error_message(*self),
    {
        match self {
            Error::RequestFailed(e) => {
                let mut m = "the request failed: ".to_owned();
                m.append(e.as_str());
                m
            },
            Error::InvalidRootValue => "the root JSON value must be an object".to_owned(),
            Error::InvalidJson(e) => {
                let mut m = "the JSON is invalid: ".to_owned();
                m.append(e.as_str());
                m
            },
        }
    }
}

/// What the module reports of one remote: its name, and the numbers given
/// for its timestamp and its last command, where they are numbers.
pub struct RemoteReading {
    pub name: String,
    pub timestamp: Option<JsonNumber>,
    pub command: Option<JsonNumber>,
}

/// The remotes that the entries of the answer describe: each entry whose
/// value is an object, in order.
pub open spec fn remote_readings_from(entries: Seq<(String, Json)>) -> Seq<RemoteReading>
    decreases entries.len(),
{
    if entries.len() == 0 {
        Seq::empty()
    } else {
        let before = remote_readings_from(entries.drop_last());
        match entries.last().1 {
            Json::Object(o) => before.push(
                RemoteReading {
                    name: entries.last().0,
                    timestamp: json_number(member(o@, "timestamp"@)),
                    command: json_number(member(o@, "lastcmd"@)),
                },
            ),
            _ => before,
        }
    }
}

/// Decodes the module's answer on the state of the remotes.
pub fn remote_readings(body: &str) -> (r: Result<Vec<RemoteReading>, Error>)
    ensures
        match json_parse(body@) {
            Err(m) => r matches Err(Error::InvalidJson(s)) && s@ == m,
            Ok(Json::Object(entries)) => r matches Ok(v) && v@ == remote_readings_from(entries@),
            Ok(_) => r == Err::<Vec<RemoteReading>, Error>(Error::InvalidRootValue),
        },
{
    match parse(body) {
        Ok(doc) => remote_readings_from_json(&doc),
        Err(m) => Err(Error::InvalidJson(m)),
    }
}

/// Decodes the module's answer on the state of the remotes, once parsed.
pub fn remote_readings_from_json(doc: &Json) -> (r: Result<Vec<RemoteReading>, Error>)
    ensures
        match *doc {
            Json::Object(entries) => r matches Ok(v) && v@ == remote_readings_from(entries@),
            _ => r == Err::<Vec<RemoteReading>, Error>(Error::InvalidRootValue),
        },
{
    let obj = match as_object(Some(doc)) {
        Some(o) => o,
        None => return Err(Error::InvalidRootValue),
    };
    let mut readings: Vec<RemoteReading> = Vec::new();
    let mut i: usize = 0;
    while i < obj.len()
        invariant
            i <= obj@.len(),
            readings@ == remote_readings_from(obj@.take(i as int)),
        decreases obj@.len() - i,
    {
        proof {
            assert(obj@.take(i + 1).drop_last() =~= obj@.take(i as int));
            assert(obj@.take(i + 1).last() == obj@[i as int]);
        }
        match as_object(Some(&obj[i].1)) {
            Some(val) => {
                let timestamp = as_number(get(val, "timestamp"));
                let command = as_number(get(val, "lastcmd"));
                readings.push(RemoteReading { name: obj[i].0.clone(), timestamp, command });
            },
            None => {},
        }
        i = i + 1;
    }
    assert(obj@.take(i as int) =~= obj@);
    Ok(readings)
}

/// What the module reports of itself: the number given for the speed of
/// the exhaust fan, and the humidity sensors (keys starting with `RH `)
/// whose value is a number.
pub struct StatusReading {
    pub exhaust_speed: Option<JsonNumber>,
    pub humidity: Vec<(String, JsonNumber)>,
}

/// Whether a key names a humidity sensor.
pub open spec fn is_humidity_key(key: Seq<char>) -> bool {
    "RH "@.len() <= key.len() && key.subrange(0, "RH "@.len() as int) == "RH "@
}

pub open spec fn humidity_readings_from(entries: Seq<(String, Json)>) -> Seq<(String, JsonNumber)>
    decreases entries.len(),
{
    if entries.len() == 0 {
        Seq::empty()
    } else {
        let before = humidity_readings_from(entries.drop_last());
        match entries.last().1 {
            Json::Number(n) => if is_humidity_key(entries.last().0@) {
                before.push((entries.last().0, n))
            } else {
                before
            },
            _ => before,
        }
    }
}

/// Decodes the module's answer on its status.
pub fn status_reading(body: &str) -> (r: Result<StatusReading, Error>)
    ensures
        match json_parse(body@) {
            Err(m) => r matches Err(Error::InvalidJson(s)) && s@ == m,
            Ok(Json::Object(entries)) => r matches Ok(s) && s.exhaust_speed == json_number(
                member(entries@, "exhaust fan (%)"@),
            ) && s.humidity@ == humidity_readings_from(entries@),
            Ok(_) => r is Err && r->Err_0 == Error::InvalidRootValue,
        },
{
    match parse(body) {
        Ok(doc) => status_reading_from_json(&doc),
        Err(m) => Err(Error::InvalidJson(m)),
    }
}

/// Decodes the module's answer on its status, once parsed.
pub fn status_reading_from_json(doc: &Json) -> (r: Result<StatusReading, Error>)
    ensures
        match *doc {
            Json::Object(entries) => r matches Ok(s) && s.exhaust_speed == json_number(
                member(entries@, "exhaust fan (%)"@),
            ) && s.humidity@ == humidity_readings_from(entries@),
            _ => r is Err && r->Err_0 == Error::InvalidRootValue,
        },
{
    let obj = match as_object(Some(doc)) {
        Some(o) => o,
        None => return Err(Error::InvalidRootValue),
    };
    let speed = as_number(get(obj, "exhaust fan (%)"));
    let mut humidity: Vec<(String, JsonNumber)> = Vec::new();
    let mut i: usize = 0;
    while i < obj.len()
        invariant
            i <= obj@.len(),
            humidity@ == humidity_readings_from(obj@.take(i as int)),
        decreases obj@.len() - i,
    {
        proof {
            assert(obj@.take(i + 1).drop_last() =~= obj@.take(i as int));
            assert(obj@.take(i + 1).last() == obj@[i as int]);
        }
        if starts_with(obj[i].0.as_str(), "RH ") {
            match as_number(Some(&obj[i].1)) {
                Some(n) => humidity.push((obj[i].0.clone(), n)),
                None => {},
            }
        }
        i = i + 1;
    }
    assert(obj@.take(i as int) =~= obj@);
    Ok(StatusReading { exhaust_speed: speed, humidity })
}

/// Decodes the module's answer on a setting: the number given as its
/// current value.
pub fn setting_reading(body: &str) -> (r: Result<Option<JsonNumber>, Error>)
    ensures
        match json_parse(body@) {
            Err(m) => r matches Err(Error::InvalidJson(s)) && s@ == m,
            Ok(doc) => r == Ok::<Option<JsonNumber>, Error>(
                json_number(index_of(Some(doc), "current"@)),
            ),
        },
{
    match parse(body) {
        Ok(doc) => Ok(setting_from_json(&doc)),
        Err(m) => Err(Error::InvalidJson(m)),
    }
}

/// Decodes the module's answer on a setting, once parsed: the number given
/// as its current value.
pub fn setting_from_json(doc: &Json) -> (r: Option<JsonNumber>)
    ensures
        r == json_number(index_of(Some(*doc), "current"@)),
{
    as_number(index(Some(doc), "current"))
}


/// Law: a key names a humidity sensor exactly when it starts with the three
/// characters `R`, `H` and a space.
pub proof fn lemma_humidity_key(key: Seq<char>)
    ensures
        is_humidity_key(key) <==> (key.len() >= 3 && key[0] == 'R' && key[1] == 'H' && key[2]
            == ' '),
{
    reveal_strlit("RH ");
    if key.len() >= 3 {
        assert(key.subrange(0, 3)[0] == key[0]);
        assert(key.subrange(0, 3)[1] == key[1]);
        assert(key.subrange(0, 3)[2] == key[2]);
        if key[0] == 'R' && key[1] == 'H' && key[2] == ' ' {
            assert(key.subrange(0, 3) =~= "RH "@);
        }
    }
}

} // verus!
