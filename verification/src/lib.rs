//! OpenFlow: the decision logic of a ventilation controller built around an
//! Itho Daalderop DemandFlow/QualityFlow unit, verified with Verus.
//!
//! The library holds what the controller decides: CO2 estimation from
//! sampled values, the ventilation status of rooms, the air flow and exhaust
//! settings derived from them, the parsing of the configuration file and of
//! the JSON answers of the devices it talks to. Talking to those devices,
//! waiting and threading live in the program around the library.

pub mod histogram;
pub mod co2;
pub mod status;
pub mod text;
pub mod json;
pub mod config;
pub mod state;
pub mod itho;
pub mod hue;
pub mod more_sense;
pub mod inputs;
pub mod metrics;
pub mod logger;
pub mod http;
