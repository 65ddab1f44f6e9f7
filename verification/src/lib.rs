//! Control core of a small networked relay-actuator device.
//!
//! The library holds the decision logic of the device's control loops: relay
//! command processing with read-back telemetry, button debouncing, sensor
//! sample handling, remote-command decoding, and the telemetry wire encoding.
//! Hardware access, networking and thread wiring live outside the library and
//! exchange plain values with it.

pub mod button;
pub mod relay;
pub mod router;
pub mod sensor;
pub mod telemetry;
