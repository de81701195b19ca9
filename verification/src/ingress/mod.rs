//! Ways in: the telemetry payload, the serial port, accepted TCP connections and CAN.
pub mod payload;
pub mod serial;
pub mod tcp;
pub mod can;
