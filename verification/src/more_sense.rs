//! MoreSense CO2 sensors: decoding their JSON answer.
use crate::json::{as_u64, index, index_of, json_parse, json_u64, parse, Json};
use vstd::prelude::*;
use vstd::string::*;

verus! {

#[derive(Eq, PartialEq, Debug)]
pub enum Error {
    RequestFailed(String),
    InvalidJson(String),
}

pub open spec fn error_message(e: Error) -> Seq<char> {
    match e {
        Error::RequestFailed(m) => "the request failed: "@ + m@,
        Error::InvalidJson(m) => "the JSON is invalid: "@ + m@,
    }
}

/// The message given when the answer holds no integer `CO2` value.
pub open spec fn missing_co2_message() -> Seq<char> {
    "the value of the \"CO2\" key must be an integer"@
}

impl Error {
    /// The message shown for the error.
    pub fn to_string(&self) -> (message: String)
        ensures
            message@ == error_message(*self),
    {
        match self {
            Error::RequestFailed(e) => {
                let mut m = "the request failed: ".to_owned();
                m.append(e.as_str());
                m
            },
            Error::InvalidJson(e) => {
                let mut m = "the JSON is invalid: ".to_owned();
                m.append(e.as_str());
                m
            },
        }
    }
}

/// Decodes a sensor's answer: the unsigned integer under the key `CO2`.
pub fn co2_reading(body: &str) -> (r: Result<u64, Error>)
    ensures
        match json_parse(body@) {
            Err(m) => r matches Err(Error::InvalidJson(s)) && s@ == m,
            Ok(doc) => match json_u64(index_of(Some(doc), "CO2"@)) {
                Some(v) => r == Ok::<u64, Error>(v),
                None => r matches Err(Error::InvalidJson(s)) && s@ == missing_co2_message(),
            },
        },
{
    match parse(body) {
        Ok(doc) => co2_from_json(&doc),
        Err(m) => Err(Error::InvalidJson(m)),
    }
}

/// Decodes a sensor's answer, once parsed: the unsigned integer under the
/// key `CO2`.
pub fn co2_from_json(doc: &Json) -> (r: Result<u64, Error>)
    ensures
        match json_u64(index_of(Some(*doc), "CO2"@)) {
            Some(v) => r == Ok::<u64, Error>(v),
            None => r matches Err(Error::InvalidJson(s)) && s@ == missing_co2_message(),
        },
{
    match as_u64(index(Some(doc), "CO2")) {
        Some(v) => Ok(v),
        _ => Err(Error::InvalidJson("the value of the \"CO2\" key must be an integer".to_owned())),
    }
}

} // verus!
