use device_sim::device::{severity_for_draw, Device, SENSOR_END_CENTI, SENSOR_MIN_CENTI};
use device_sim::event::{EventKind, Severity};
use rand::rngs::StdRng;
use rand::SeedableRng;

#[test]
fn draw_of_one_is_an_error() {
    assert_eq!(severity_for_draw(1), Severity::Error);
    assert_eq!(severity_for_draw(2), Severity::Info);
}

#[test]
fn started_device_has_hyphenated_identifier() {
    let device = Device::start();
    assert_eq!(device.id.len(), 36);
    assert_eq!(device.id.matches('-').count(), 4);
    let other = Device::start();
    assert_ne!(device.id, other.id);
}

#[test]
fn emitted_log_events_are_stamped_and_error_or_info() {
    let device = Device::with_id("dev-1".to_string());
    let mut rng = StdRng::seed_from_u64(7);
    let mut seen_error = false;
    let mut seen_info = false;
    for _ in 0..64 {
        let e = device.emit_log_event(&mut rng);
        assert_eq!(e.device_id, "dev-1");
        assert_eq!(e.firmware_version, "1.0-sim");
        assert_eq!(e.timestamp.len(), 24);
        assert!(e.timestamp.ends_with('Z'));
        match e.kind {
            EventKind::Log { severity, text } => {
                assert_eq!(text, "This is a simulated message.");
                match severity {
                    Severity::Error => seen_error = true,
                    Severity::Info => seen_info = true,
                    other => panic!("unexpected severity {:?}", other),
                }
            }
            _ => panic!("expected a log event"),
        }
    }
    assert!(seen_error && seen_info);
}

#[test]
fn emitted_sensor_readings_stay_in_range() {
    let device = Device::with_id("dev-2".to_string());
    let mut rng = StdRng::seed_from_u64(11);
    let mut values = Vec::new();
    for _ in 0..64 {
        let e = device.emit_sensor_event(&mut rng);
        assert_eq!(e.device_id, "dev-2");
        match e.kind {
            EventKind::Sensor { readings } => {
                assert_eq!(readings.len(), 1);
                assert_eq!(readings[0].name, "Temp1");
                let v = readings[0].centi_value;
                assert!(v >= SENSOR_MIN_CENTI as i32 && v < SENSOR_END_CENTI as i32);
                values.push(v);
            }
            _ => panic!("expected a sensor event"),
        }
    }
    values.sort();
    values.dedup();
    assert!(values.len() > 1);
}
