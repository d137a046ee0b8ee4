//! The event model: what a device emits and what is delivered.
use vstd::prelude::*;

verus! {

/// How serious a log line is.
#[derive(Clone, Copy, Debug, PartialEq, Eq, Structural)]
pub enum Severity {
    Debug,
    Info,
    Warning,
    Error,
}

/// One named sensor value, held in hundredths of the sensor's unit.
#[derive(Debug)]
pub struct Reading {
    pub name: String,
    pub centi_value: i32,
}

/// The payload of an event: exactly one of a log line or a set of readings.
#[derive(Debug)]
pub enum EventKind {
    Log { severity: Severity, text: String },
    Sensor { readings: Vec<Reading> },
}

/// One timestamped observation emitted by a device.
#[derive(Debug)]
pub struct Event {
    pub timestamp: String,
    pub device_id: String,
    pub firmware_version: String,
    pub kind: EventKind,
}

/// True when `e` is a log line of severity `Error`.
pub open spec fn is_error_log(e: Event) -> bool {
    match e.kind {
        EventKind::Log { severity, .. } => severity == Severity::Error,
        EventKind::Sensor { .. } => false,
    }
}

/// True when `e` carries sensor readings.
pub open spec fn is_sensor(e: Event) -> bool {
    e.kind is Sensor
}

} // verus!
