//! Event-driven core of a battery-powered e-paper household dashboard.
//!
//! The device fetches weather and time data over the network, reads a local
//! CO2/temperature/humidity sensor, keeps a real-time clock, and renders the
//! combined state to a monochrome panel.  This crate holds the coordination
//! logic of that system: the typed domain events, the single-writer state
//! reducer, the real-time-clock task's state machine, the dispatcher's
//! request/response handling, the display update decisions, and the text
//! formatting and parsing that feed them.  Hardware drivers, the network
//! transport, and pixel-level rendering stay outside; they exchange plain
//! values with the functions here.

pub mod codec;
pub mod datetime;
pub mod display;
pub mod events;
pub mod io;
pub mod parse;
pub mod response_models;
pub mod rtc;
pub mod scheduler;
pub mod text;
pub mod weather_icons;
pub mod web_requests;
