//! Philips Hue motion sensors: decoding the bridge's JSON answer.
use crate::json::{as_bool, as_object, as_string, deref_opt, index, index_of, json_bool, json_parse, json_str, parse, Json};
use crate::text::{parse_u64, str_eq, u64_from_text};
use std::collections::HashMap;
use vstd::prelude::*;
use vstd::string::*;

verus! {

/// The sensor states.
pub struct Sensors {
    /// A mapping of sensor IDs to a boolean indicating if motion is detected.
    pub motion: HashMap<u64, bool>,
}

/// An error produced when talking to the Hue bridge.
#[derive(Eq, PartialEq, Debug)]
pub enum Error {
    /// The HTTP request failed somehow.
    RequestFailed(String),
    /// The root JSON value is invalid.
    InvalidRootValue,
    /// The JSON response is invalid.
    InvalidJson(String),
}

pub open spec fn error_message(e: Error) -> Seq<char> {
    match e {
        Error::RequestFailed(m) => "the request failed: "@ + m@,
        Error::InvalidRootValue => "the root JSON value must be an object"@,
        Error::InvalidJson(m) => "the JSON is invalid: "@ + m@,
    }
}

/// The message given when a key of the answer is no integer.
pub open spec fn key_message() -> Seq<char> {
    "all keys must be integers"@
}

impl Error {
    /// The message shown for the error.
    pub fn to_string(&self) -> (message: String)
        ensures
            message@ == error_message(*self),
    {
        match self {
            Error::RequestFailed(e) => {
                let mut m = "the request failed: ".to_owned();
                m.append(e.as_str());
                m
            },
            Error::InvalidRootValue => "the root JSON value must be an object".to_owned(),
            Error::InvalidJson(e) => {
                let mut m = "the JSON is invalid: ".to_owned();
                m.append(e.as_str());
                m
            },
        }
    }
}

/// Whether a sensor entry describes a motion sensor: its `type` is the
/// string `ZLLPresence`.
pub open spec fn is_presence_sensor(v: Json) -> bool {
    json_str(index_of(Some(v), "type"@)) matches Some(t) && t@ == "ZLLPresence"@
}

/// Whether a motion sensor reports presence; `false` where the entry does
/// not say.
pub open spec fn presence(v: Json) -> bool {
    match json_bool(index_of(index_of(Some(v), "state"@), "presence"@)) {
        Some(b) => b,
        None => false,
    }
}

/// The motion sensors the entries of the answer describe, keyed by the
/// integer each key spells; `None` when a key spells no integer. A later
/// entry for the same integer overrides an earlier one.
pub open spec fn motion_from(entries: Seq<(String, Json)>) -> Option<Map<u64, bool>>
    decreases entries.len(),
{
    if entries.len() == 0 {
        Some(Map::empty())
    } else {
        match (motion_from(entries.drop_last()), u64_from_text(entries.last().0@)) {
            (Some(m), Some(id)) => if is_presence_sensor(entries.last().1) {
                Some(m.insert(id, presence(entries.last().1)))
            } else {
                Some(m)
            },
            _ => None,
        }
    }
}

proof fn lemma_motion_from_prefix(entries: Seq<(String, Json)>, k: int)
    requires
        0 <= k <= entries.len(),
        motion_from(entries.take(k)) is None,
    ensures
        motion_from(entries) is None,
    decreases entries.len() - k,
{
    if k < entries.len() {
        assert(entries.take(k + 1).drop_last() =~= entries.take(k));
        lemma_motion_from_prefix(entries, k + 1);
    } else {
        assert(entries.take(k) =~= entries);
    }
}

/// Decodes the bridge's answer on its sensors.
pub fn sensors_from_body(body: &str) -> (r: Result<Sensors, Error>)
    ensures
        match json_parse(body@) {
            Err(m) => r matches Err(Error::InvalidJson(s)) && s@ == m,
            Ok(Json::Object(entries)) => match motion_from(entries@) {
                Some(m) => r matches Ok(s) && s.motion@ == m,
                None => r matches Err(Error::InvalidJson(s)) && s@ == key_message(),
            },
            Ok(_) => r is Err && r->Err_0 == Error::InvalidRootValue,
        },
{
    match parse(body) {
        Ok(doc) => sensors_from_json(&doc),
        Err(m) => Err(Error::InvalidJson(m)),
    }
}

/// Decodes the bridge's answer on its sensors, once parsed.
pub fn sensors_from_json(doc: &Json) -> (r: Result<Sensors, Error>)
    ensures
        match *doc {
            Json::Object(entries) => match motion_from(entries@) {
                Some(m) => r matches Ok(s) && s.motion@ == m,
                None => r matches Err(Error::InvalidJson(s)) && s@ == key_message(),
            },
            _ => r is Err && r->Err_0 == Error::InvalidRootValue,
        },
{
    let obj = match as_object(Some(doc)) {
        Some(o) => o,
        None => return Err(Error::InvalidRootValue),
    };
    let mut motion: HashMap<u64, bool> = HashMap::new();
    let mut i: usize = 0;
    while i < obj.len()
        invariant
            i <= obj@.len(),
            *doc matches Json::Object(e) && e@ == obj@,
            motion_from(obj@.take(i as int)) == Some(motion@),
        decreases obj@.len() - i,
    {
        proof {
            assert(obj@.take(i + 1).drop_last() =~= obj@.take(i as int));
            assert(obj@.take(i + 1).last() == obj@[i as int]);
        }
        let id = match parse_u64(obj[i].0.as_str()) {
            Some(id) => id,
            None => {
                proof {
                    lemma_motion_from_prefix(obj@, i + 1);
                }
                return Err(Error::InvalidJson("all keys must be integers".to_owned()));
            },
        };
        let val = Some(&obj[i].1);
        let is_presence = match as_string(index(val, "type")) {
            Some(t) => str_eq(t.as_str(), "ZLLPresence"),
            None => false,
        };
        if is_presence {
            let present = match as_bool(index(index(val, "state"), "presence")) {
                Some(b) => b,
                None => false,
            };
            motion.insert(id, present);
        }
        i = i + 1;
    }
    assert(obj@.take(i as int) =~= obj@);
    Ok(Sensors { motion })
}

} // verus!
