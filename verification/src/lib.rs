//! Telemetry link of a small flight computer: the shared record of the
//! vehicle state, its wire format, and the decisions of the sensor producers
//! and of the radio link.

pub mod alt;
pub mod codec;
pub mod gps;
pub mod log;
pub mod lora;
pub mod state;
pub mod store;
