use osc_relay::buffer::{CorrelationId, DelayedBuffer, KeyValue};
use osc_relay::clock::{due, release_of, UNIX_OFFSET};
use osc_relay::destructure::Destructurer;
use osc_relay::packet::{OscArg, OscBundle, OscMessage, OscTime, Packet};
use osc_relay::results::Results;
use std::time::{Duration, SystemTime};

fn message(addr: &str, arg: OscArg) -> Packet {
    Packet::Message(OscMessage { addr: addr.to_string(), args: vec![arg] })
}

fn tag_at(at: SystemTime) -> OscTime {
    let tag = rosc::OscTime::try_from(at).unwrap();
    OscTime { seconds: tag.seconds, fractional: tag.fractional }
}

fn nanos_at(at: SystemTime) -> i128 {
    at.duration_since(SystemTime::UNIX_EPOCH).unwrap().as_nanos() as i128
}

fn addresses(messages: &[OscMessage]) -> Vec<String> {
    messages.iter().map(|m| m.addr.clone()).collect()
}

#[test]
fn immediate_bundle_is_applied_in_order() {
    let bundle = Packet::Bundle(OscBundle {
        timetag: OscTime { seconds: 0, fractional: 1 },
        content: vec![message("/a", OscArg::Int(1)), message("/b", OscArg::Int(2))],
    });
    let mut d = Destructurer::new();
    let plan = d.plan_packet(&bundle, nanos_at(SystemTime::now()));
    assert!(matches!(plan, Results::OscBundle(_)));
    let messages = plan.to_messages_vec();
    assert_eq!(addresses(&messages), vec!["/a".to_string(), "/b".to_string()]);
    assert!(matches!(messages[0].args[0], OscArg::Int(1)));
    assert!(matches!(messages[1].args[0], OscArg::Int(2)));
    assert_eq!(d.waiting(), 0);
}

#[test]
fn deferred_bundle_is_applied_by_a_later_tick() {
    let now = SystemTime::UNIX_EPOCH + Duration::from_secs(1_700_000_000);
    let bundle = Packet::Bundle(OscBundle {
        timetag: tag_at(now + Duration::from_millis(500)),
        content: vec![message("/x", OscArg::Float(1.0f32.to_bits()))],
    });
    let mut d = Destructurer::new();
    let plan = d.plan_packet(&bundle, nanos_at(now));
    let id = match plan {
        Results::NotYetApplied(id) => id,
        _ => panic!("the bundle was not put off"),
    };
    assert_eq!(d.waiting(), 1);
    assert!(d.tick(nanos_at(now + Duration::from_millis(100))).is_empty());
    assert_eq!(d.waiting(), 1);
    let mut released = d.tick(nanos_at(now + Duration::from_millis(600)));
    assert_eq!(released.len(), 1);
    assert_eq!(d.waiting(), 0);
    let first = released.remove(0);
    assert_eq!(first.id, id);
    let messages = first.plan.to_messages_vec();
    assert_eq!(addresses(&messages), vec!["/x".to_string()]);
    assert!(matches!(messages[0].args[0], OscArg::Float(bits) if bits == 1.0f32.to_bits()));
    assert!(d.tick(nanos_at(now + Duration::from_secs(5))).is_empty());
}

#[test]
fn bundle_whose_time_has_come_is_applied_at_once() {
    let now = SystemTime::UNIX_EPOCH + Duration::from_secs(1_700_000_000);
    let bundle = Packet::Bundle(OscBundle {
        timetag: tag_at(now - Duration::from_secs(1)),
        content: vec![message("/past", OscArg::Nil)],
    });
    let mut d = Destructurer::new();
    let plan = d.plan_packet(&bundle, nanos_at(now));
    assert_eq!(addresses(&plan.to_messages_vec()), vec!["/past".to_string()]);
    assert_eq!(d.waiting(), 0);
}

#[test]
fn nested_bundles_are_walked_depth_first_and_future_ones_left_out() {
    let now = SystemTime::UNIX_EPOCH + Duration::from_secs(1_700_000_000);
    let immediate = OscTime { seconds: 0, fractional: 1 };
    let inner = Packet::Bundle(OscBundle {
        timetag: immediate,
        content: vec![message("/b", OscArg::Nil), message("/c", OscArg::Nil)],
    });
    let later = Packet::Bundle(OscBundle {
        timetag: tag_at(now + Duration::from_secs(10)),
        content: vec![message("/later", OscArg::Nil)],
    });
    let outer = Packet::Bundle(OscBundle {
        timetag: immediate,
        content: vec![message("/a", OscArg::Nil), inner, later, message("/d", OscArg::Nil)],
    });
    let mut d = Destructurer::new();
    let plan = d.plan_packet(&outer, nanos_at(now));
    match &plan {
        Results::OscBundle(children) => {
            assert_eq!(children.len(), 4);
            assert!(matches!(children[0], Results::OscMessage(_)));
            assert!(matches!(children[1], Results::OscBundle(_)));
            assert!(matches!(children[2], Results::NotYetApplied(_)));
            assert!(matches!(children[3], Results::OscMessage(_)));
        }
        _ => panic!("the outer bundle was not applied"),
    }
    let names = addresses(&plan.to_messages_vec());
    assert_eq!(names, vec!["/a".to_string(), "/b".to_string(), "/c".to_string(), "/d".to_string()]);
    assert_eq!(d.waiting(), 1);
    let released = d.tick(nanos_at(now + Duration::from_secs(11)));
    assert_eq!(released.len(), 1);
    let plans: Vec<_> = released.into_iter().map(|r| r.plan).collect();
    let mut names = Vec::new();
    for p in plans {
        names.extend(addresses(&p.to_messages_vec()));
    }
    assert_eq!(names, vec!["/later".to_string()]);
}

#[test]
fn due_bundles_leave_earliest_first() {
    let mut buffer = DelayedBuffer::new();
    for (release, id) in [(30i128, 3u128), (10, 1), (20, 2), (40, 4)] {
        let bundle = OscBundle { timetag: OscTime { seconds: 0, fractional: 0 }, content: vec![] };
        buffer.insert(KeyValue::new(release, bundle, CorrelationId(id)));
    }
    assert_eq!(buffer.len(), 4);
    let ready = buffer.drain_ready(30);
    let ids: Vec<u128> = ready.iter().map(|e| e.uuid.0).collect();
    assert_eq!(ids, vec![1, 2, 3]);
    assert_eq!(buffer.len(), 1);
    assert!(buffer.drain_ready(39).is_empty());
    let ready = buffer.drain_ready(40);
    assert_eq!(ready.len(), 1);
    assert_eq!(ready[0].uuid, CorrelationId(4));
    assert_eq!(buffer.len(), 0);
}

#[test]
fn insert_reports_a_place_that_keeps_the_order() {
    let empty = || OscBundle { timetag: OscTime { seconds: 0, fractional: 0 }, content: vec![] };
    let mut buffer = DelayedBuffer::new();
    assert_eq!(buffer.insert(KeyValue::new(20, empty(), CorrelationId(0))), 0);
    assert_eq!(buffer.insert(KeyValue::new(30, empty(), CorrelationId(1))), 0);
    assert_eq!(buffer.insert(KeyValue::new(10, empty(), CorrelationId(2))), 2);
    assert_eq!(buffer.insert(KeyValue::new(25, empty(), CorrelationId(3))), 1);
}

#[test]
fn release_time_agrees_with_the_clock() {
    let at = SystemTime::UNIX_EPOCH + Duration::new(1_700_000_000, 250_000_000);
    let got = release_of(tag_at(at));
    assert!((got - nanos_at(at)).abs() <= 5, "{got}");
    assert_eq!(release_of(OscTime { seconds: UNIX_OFFSET, fractional: 0 }), 0);
    assert_eq!(release_of(OscTime { seconds: UNIX_OFFSET + 1, fractional: 0x8000_0000 }), 1_500_000_000);
}

#[test]
fn release_time_before_1970_counts_back() {
    assert_eq!(release_of(OscTime { seconds: UNIX_OFFSET - 1, fractional: 0 }), -1_000_000_000);
    assert_eq!(release_of(OscTime { seconds: UNIX_OFFSET - 1, fractional: 0x8000_0000 }), -500_000_000);
    assert_eq!(release_of(OscTime { seconds: 0, fractional: 0 }), -2_208_988_800_000_000_000);
}

#[test]
fn the_immediate_tag_is_always_due() {
    let immediate = OscTime { seconds: 0, fractional: 1 };
    assert!(due(immediate, i128::MIN));
    assert!(due(immediate, 0));
    assert!(!due(OscTime { seconds: 0, fractional: 2 }, i128::MIN));
    assert!(due(OscTime { seconds: UNIX_OFFSET + 10, fractional: 0 }, 10_000_000_000));
    assert!(!due(OscTime { seconds: UNIX_OFFSET + 10, fractional: 0 }, 9_999_999_999));
}
