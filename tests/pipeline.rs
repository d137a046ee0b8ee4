use device_sim::batch::{assemble_batch, event_tier, prioritize};
use device_sim::device::{next_batch, Device};
use device_sim::event::{Event, EventKind, Reading, Severity};
use device_sim::queue::{BoundedQueue, Offer, PushPolicy};

fn log(stamp: &str, severity: Severity) -> Event {
    Event {
        timestamp: stamp.to_string(),
        device_id: "dev".to_string(),
        firmware_version: "1.0-sim".to_string(),
        kind: EventKind::Log { severity, text: "msg".to_string() },
    }
}

fn sensor(stamp: &str) -> Event {
    Event {
        timestamp: stamp.to_string(),
        device_id: "dev".to_string(),
        firmware_version: "1.0-sim".to_string(),
        kind: EventKind::Sensor {
            readings: vec![Reading { name: "Temp1".to_string(), centi_value: 2150 }],
        },
    }
}

fn stamps(events: &[Event]) -> Vec<String> {
    events.iter().map(|e| e.timestamp.clone()).collect()
}

#[test]
fn tier_of_each_kind() {
    assert_eq!(event_tier(&log("a", Severity::Error)), 0);
    assert_eq!(event_tier(&sensor("b")), 1);
    assert_eq!(event_tier(&log("c", Severity::Info)), 2);
    assert_eq!(event_tier(&log("d", Severity::Debug)), 2);
    assert_eq!(event_tier(&log("e", Severity::Warning)), 2);
}

#[test]
fn prioritize_is_stable_within_tiers() {
    let input = vec![
        log("i1", Severity::Info),
        sensor("s1"),
        log("e1", Severity::Error),
        log("w1", Severity::Warning),
        sensor("s2"),
        log("e2", Severity::Error),
        log("d1", Severity::Debug),
        sensor("s3"),
    ];
    let out = prioritize(input);
    assert_eq!(stamps(&out), vec!["e1", "e2", "s1", "s2", "s3", "i1", "w1", "d1"]);
}

#[test]
fn prioritize_puts_errors_then_sensors_then_other_logs() {
    let input = vec![
        sensor("s1"),
        log("i1", Severity::Info),
        log("e1", Severity::Error),
    ];
    let out = prioritize(input);
    let tiers: Vec<u8> = out.iter().map(event_tier).collect();
    assert_eq!(tiers, vec![0, 1, 2]);
    assert_eq!(stamps(&out), vec!["e1", "s1", "i1"]);
}

#[test]
fn prioritize_empty() {
    assert!(prioritize(Vec::new()).is_empty());
}

#[test]
fn assemble_truncates_lowest_priority_tail() {
    let input = vec![
        log("i1", Severity::Info),
        sensor("s1"),
        log("e1", Severity::Error),
        sensor("s2"),
        log("i2", Severity::Info),
    ];
    let batch = assemble_batch(input, 3);
    assert_eq!(batch.events.len(), 3);
    assert_eq!(batch.dropped, 2);
    assert_eq!(stamps(&batch.events), vec!["e1", "s1", "s2"]);
}

#[test]
fn assemble_within_limit_drops_nothing() {
    let input = vec![log("i1", Severity::Info), sensor("s1")];
    let batch = assemble_batch(input, 2);
    assert_eq!(batch.dropped, 0);
    assert_eq!(stamps(&batch.events), vec!["s1", "i1"]);
}

#[test]
fn assemble_with_zero_limit_drops_all() {
    let input = vec![log("e1", Severity::Error), sensor("s1")];
    let batch = assemble_batch(input, 0);
    assert!(batch.events.is_empty());
    assert_eq!(batch.dropped, 2);
}

#[test]
fn scenario_capacity_six_batch_of_four() {
    let mut queue = BoundedQueue::new(6);
    let arrivals = vec![
        sensor("s1"),
        log("e1", Severity::Error),
        log("i1", Severity::Info),
        sensor("s2"),
        log("e2", Severity::Error),
        sensor("s3"),
    ];
    for e in arrivals {
        assert!(matches!(queue.offer(e, PushPolicy::DropWhenFull), Offer::Accepted));
    }
    assert_eq!(queue.len(), 6);
    let batch = next_batch(&mut queue, 4);
    assert_eq!(stamps(&batch.events), vec!["e1", "e2", "s1", "s2"]);
    assert_eq!(batch.dropped, 2);
    assert!(queue.is_empty());
}

#[test]
fn scenario_empty_drain_sends_nothing() {
    let mut queue = BoundedQueue::for_batch_size(3);
    let batch = next_batch(&mut queue, 3);
    assert!(batch.events.is_empty());
    assert_eq!(batch.dropped, 0);
}

#[test]
fn queue_discards_droppable_events_beyond_capacity() {
    let mut queue = BoundedQueue::new(2);
    let mut accepted = 0;
    let mut discarded = Vec::new();
    for i in 0..5 {
        match queue.offer(log(&format!("l{}", i), Severity::Info), PushPolicy::DropWhenFull) {
            Offer::Accepted => accepted += 1,
            Offer::Discarded(e) => discarded.push(e.timestamp),
            Offer::MustWait(_) => panic!("a droppable push never waits"),
        }
    }
    assert_eq!(accepted, 2);
    assert_eq!(discarded, vec!["l2", "l3", "l4"]);
    assert!(queue.is_full());
    assert_eq!(stamps(&queue.drain()), vec!["l0", "l1"]);
}

#[test]
fn queue_hands_back_waiting_events_when_full() {
    let mut queue = BoundedQueue::new(1);
    assert!(matches!(queue.offer(sensor("s1"), PushPolicy::WaitWhenFull), Offer::Accepted));
    match queue.offer(sensor("s2"), PushPolicy::WaitWhenFull) {
        Offer::MustWait(e) => {
            assert_eq!(e.timestamp, "s2");
            let drained = queue.drain();
            assert_eq!(stamps(&drained), vec!["s1"]);
            assert!(matches!(queue.offer(e, PushPolicy::WaitWhenFull), Offer::Accepted));
        }
        other => panic!("expected the event back, got {:?}", other),
    }
    assert_eq!(queue.len(), 1);
}

#[test]
fn queue_sized_for_batch() {
    let queue = BoundedQueue::for_batch_size(3);
    assert_eq!(queue.capacity(), 6);
    assert!(queue.is_empty());
    assert!(!queue.is_full());
}

#[test]
fn drain_keeps_arrival_order_and_empties() {
    let mut queue = BoundedQueue::new(4);
    queue.offer(log("a", Severity::Info), PushPolicy::DropWhenFull);
    queue.offer(sensor("b"), PushPolicy::WaitWhenFull);
    queue.offer(log("c", Severity::Error), PushPolicy::DropWhenFull);
    assert_eq!(stamps(&queue.drain()), vec!["a", "b", "c"]);
    assert_eq!(queue.len(), 0);
    assert!(queue.drain().is_empty());
}

#[test]
fn device_log_event_fields() {
    let device = Device::with_id("abc".to_string());
    let e = device.log_event("2024-01-01T00:00:00.000Z".to_string(), Severity::Error);
    assert_eq!(e.timestamp, "2024-01-01T00:00:00.000Z");
    assert_eq!(e.device_id, "abc");
    assert_eq!(e.firmware_version, "1.0-sim");
    match e.kind {
        EventKind::Log { severity, text } => {
            assert_eq!(severity, Severity::Error);
            assert_eq!(text, "This is a simulated message.");
        }
        _ => panic!("expected a log event"),
    }
}

#[test]
fn device_sensor_event_fields() {
    let device = Device::with_id("abc".to_string());
    let e = device.sensor_event("t".to_string(), 4250);
    assert_eq!(e.device_id, "abc");
    assert_eq!(e.firmware_version, "1.0-sim");
    match e.kind {
        EventKind::Sensor { readings } => {
            assert_eq!(readings.len(), 1);
            assert_eq!(readings[0].name, "Temp1");
            assert_eq!(readings[0].centi_value, 4250);
        }
        _ => panic!("expected a sensor event"),
    }
}
