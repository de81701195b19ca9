//! Telemetry of sensor test benches: frames from serial ports, CAN and TCP are decoded,
//! watched, stored and shown.
pub mod app;
pub mod buffer;
pub mod bus;
pub mod bytes_value;
pub mod calendar;
pub mod collector;
pub mod command_line;
pub mod db;
pub mod domain;
pub mod fault;
pub mod ingress;
pub mod json;
pub mod number;
pub mod protocol;
pub mod sender;
pub mod session;
pub mod signal;
pub mod table;
pub mod telemetry;
pub mod text;
pub mod time;
pub mod toml_doc;
pub mod transport;
pub mod ui;
