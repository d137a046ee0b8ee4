//! A simulated device: its identity, and the events its two producers emit.
use vstd::prelude::*;
use vstd::string::*;
use rand::Rng;
use rand::rngs::StdRng;
use chrono::{SecondsFormat, Utc};
use uuid::Uuid;

use crate::batch::{Batch, assemble_batch, batch_of, kept_len, tiers_ascend};
use crate::event::{Event, EventKind, Reading, Severity};
use crate::queue::BoundedQueue;

verus! {

#[verifier::external_type_specification]
#[verifier::external_body]
pub struct ExStdRng(StdRng);

/// Relies on rand's `Rng::gen_range`: a value of the half-open range
/// `low..high`, which it panics on only when that range is empty.
#[verifier::external_body]
fn draw_in(rng: &mut StdRng, low: u32, high: u32) -> (r: u32)
    requires
        low < high,
    ensures
        low <= r < high,
{
    rng.gen_range(low..high)
}

#[verifier::external_type_specification]
#[verifier::external_body]
pub struct ExUuid(Uuid);

/// Relies on uuid's `Uuid::new_v4`: a fresh random identifier.
#[verifier::external_body]
fn random_uuid() -> (r: Uuid) {
    Uuid::new_v4()
}

/// Relies on uuid's `Display` for `Uuid`, which writes the hyphenated form:
/// 32 hexadecimal digits in five groups, 36 characters in all.
#[verifier::external_body]
fn uuid_text(u: &Uuid) -> (r: String)
    ensures
        r@.len() == 36,
{
    u.to_string()
}

/// Relies on chrono's `Utc::now`, formatted by `DateTime::to_rfc3339_opts`:
/// the time now in UTC, in RFC 3339 form to the millisecond with a `Z`
/// suffix. (chrono's `DateTime` cannot be declared to the verifier, its
/// parameter being bound by chrono's `TimeZone`, so the value is formatted
/// here.)
#[verifier::external_body]
fn timestamp_now() -> (r: String) {
    Utc::now().to_rfc3339_opts(SecondsFormat::Millis, true)
}

/// The firmware version every simulated device reports.
pub open spec fn firmware_version() -> Seq<char> {
    "1.0-sim"@
}

/// The text of every simulated log line.
pub open spec fn log_text() -> Seq<char> {
    "This is a simulated message."@
}

/// The name of the one sensor a simulated device reads.
pub open spec fn sensor_name() -> Seq<char> {
    "Temp1"@
}

/// The lowest sensor value drawn, in hundredths.
pub const SENSOR_MIN_CENTI: u32 = 100;

/// One past the highest sensor value drawn, in hundredths.
pub const SENSOR_END_CENTI: u32 = 10000;

/// The severity a log producer emits for a draw of 1 or 2: an error for 1,
/// an informational line otherwise.
pub fn severity_for_draw(draw: u32) -> (s: Severity)
    ensures
        s == (if draw == 1 {
            Severity::Error
        } else {
            Severity::Info
        }),
{
    if draw == 1 {
        Severity::Error
    } else {
        Severity::Info
    }
}

/// One simulated device. Its identifier is fixed when it starts and stands
/// on every event it emits.
pub struct Device {
    pub id: String,
}

impl Device {
    /// Starts a device under a freshly generated random identifier, in
    /// hyphenated form.
    pub fn start() -> (d: Device)
        ensures
            d.id@.len() == 36,
    {
        let id = random_uuid();
        Device { id: uuid_text(&id) }
    }

    /// A device under the identifier `id`.
    pub fn with_id(id: String) -> (d: Device)
        ensures
            d.id == id,
    {
        Device { id }
    }

    /// The log line this device emits at `timestamp` with `severity`.
    pub fn log_event(&self, timestamp: String, severity: Severity) -> (e: Event)
        ensures
            e.timestamp == timestamp,
            e.device_id@ == self.id@,
            e.firmware_version@ == firmware_version(),
            e.kind matches EventKind::Log { severity: s, text } && s == severity && text@ == log_text(),
    {
        Event {
            timestamp,
            device_id: self.id.clone(),
            firmware_version: String::from_str("1.0-sim"),
            kind: EventKind::Log { severity, text: String::from_str("This is a simulated message.") },
        }
    }

    /// The sensor event this device emits at `timestamp` for a reading of
    /// `centi_value` hundredths.
    pub fn sensor_event(&self, timestamp: String, centi_value: i32) -> (e: Event)
        ensures
            e.timestamp == timestamp,
            e.device_id@ == self.id@,
            e.firmware_version@ == firmware_version(),
            e.kind matches EventKind::Sensor { readings } && readings@.len() == 1
                && readings@[0].name@ == sensor_name() && readings@[0].centi_value == centi_value,
    {
        let reading = Reading { name: String::from_str("Temp1"), centi_value };
        Event {
            timestamp,
            device_id: self.id.clone(),
            firmware_version: String::from_str("1.0-sim"),
            kind: EventKind::Sensor { readings: vec![reading] },
        }
    }

    /// One tick of the log producer: a log line stamped now, an error or an
    /// informational line with even odds.
    pub fn emit_log_event(&self, rng: &mut StdRng) -> (e: Event)
        ensures
            e.device_id@ == self.id@,
            e.firmware_version@ == firmware_version(),
            e.kind matches EventKind::Log { severity: s, text } && (s == Severity::Error || s
                == Severity::Info) && text@ == log_text(),
    {
        let timestamp = timestamp_now();
        let draw = draw_in(rng, 1, 3);
        self.log_event(timestamp, severity_for_draw(draw))
    }

    /// One tick of the sensor producer: a reading stamped now, drawn from
    /// the sensor's range.
    pub fn emit_sensor_event(&self, rng: &mut StdRng) -> (e: Event)
        ensures
            e.device_id@ == self.id@,
            e.firmware_version@ == firmware_version(),
            e.kind matches EventKind::Sensor { readings } && readings@.len() == 1
                && readings@[0].name@ == sensor_name() && SENSOR_MIN_CENTI <= readings@[0].centi_value
                < SENSOR_END_CENTI,
    {
        let timestamp = timestamp_now();
        let draw = draw_in(rng, SENSOR_MIN_CENTI, SENSOR_END_CENTI);
        self.sensor_event(timestamp, draw as i32)
    }
}

/// One dispatch tick: drains every queued event and assembles the batch to
/// deliver. An empty queue gives an empty batch with nothing dropped.
pub fn next_batch(queue: &mut BoundedQueue, max: usize) -> (b: Batch)
    ensures
        final(queue).contents() == Seq::<Event>::empty(),
        final(queue).bound() == old(queue).bound(),
        b.events@ == batch_of(old(queue).contents(), max as nat),
        b.dropped == old(queue).contents().len() - kept_len(old(queue).contents().len(), max as nat),
        tiers_ascend(b.events@),
{
    let drained = queue.drain();
    assemble_batch(drained, max)
}

} // verus!
