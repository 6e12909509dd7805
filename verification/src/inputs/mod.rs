//! The inputs that decide the ventilation of rooms: CO2 sensors and the RF
//! remote.
pub mod co2;
pub mod remote;
