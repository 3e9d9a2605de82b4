use osc_relay::address::{classify, parameter_address, AddressKind};
use osc_relay::avatar::{avatar_id, key_file_name, react, ChangeError, Reaction};
use osc_relay::echo::{deviation, float_bits_eq, Deviation, EchoOutcome, EchoTracker};
use osc_relay::key::{parse_key, Decimal, KeyEntry};
use osc_relay::keyfile::{key_from_plaintext, UnlockError};
use osc_relay::key::{KeyError, ValueError};
use osc_relay::packet::{OscArg, OscMessage, Packet};
use osc_relay::unlock::{unlock_packets, ParameterWrite};

fn amount(value: Decimal) -> f32 {
    value.whole as f32 + value.part as f32 / 10.0f32.powf(value.part_digits as f32)
}

fn writes_of(entries: &[KeyEntry]) -> Vec<ParameterWrite> {
    entries.iter().map(|e| e.write(amount(e.value).to_bits())).collect()
}

fn float_message(packet: &Packet) -> (String, f32) {
    match packet {
        Packet::Message(m) => match m.args.as_slice() {
            [OscArg::Float(bits)] => (m.addr.clone(), f32::from_bits(*bits)),
            other => panic!("not one float: {other:?}"),
        },
        Packet::Bundle(_) => panic!("a bundle where a message was expected"),
    }
}

fn echo(addr: &str, value: f32) -> OscMessage {
    OscMessage { addr: addr.to_string(), args: vec![OscArg::Float(value.to_bits())] }
}

#[test]
fn key_without_mark_is_sent_in_order() {
    let key = key_from_plaintext(b"1.5|ParamA|0|ParamB".to_vec()).unwrap();
    let packets = unlock_packets(&writes_of(&key.entries), false);
    assert_eq!(packets.len(), 2);
    assert_eq!(float_message(&packets[0]), ("/avatar/parameters/ParamA".to_string(), 1.5));
    assert_eq!(float_message(&packets[1]), ("/avatar/parameters/ParamB".to_string(), 0.0));
}

#[test]
fn key_with_comma_is_sent_as_decimal() {
    let key = key_from_plaintext(b"2,25|P".to_vec()).unwrap();
    let packets = unlock_packets(&writes_of(&key.entries), false);
    assert_eq!(packets.len(), 1);
    assert_eq!(float_message(&packets[0]), ("/avatar/parameters/P".to_string(), 2.25));
}

#[test]
fn odd_count_key_sends_one_write() {
    let key = key_from_plaintext(b"1.0|A|2.0".to_vec()).unwrap();
    assert!(key.orphan);
    let packets = unlock_packets(&writes_of(&key.entries), false);
    assert_eq!(packets.len(), 1);
    assert_eq!(float_message(&packets[0]), ("/avatar/parameters/A".to_string(), 1.0));
}

#[test]
fn bundled_key_is_one_immediate_bundle() {
    let key = parse_key("1.5|ParamA|0|ParamB|3|C").unwrap();
    let packets = unlock_packets(&writes_of(&key.entries), true);
    assert_eq!(packets.len(), 1);
    match &packets[0] {
        Packet::Bundle(b) => {
            assert_eq!((b.timetag.seconds, b.timetag.fractional), (0, 1));
            assert_eq!(b.content.len(), 3);
            assert_eq!(float_message(&b.content[0]), ("/avatar/parameters/ParamA".to_string(), 1.5));
            assert_eq!(float_message(&b.content[1]), ("/avatar/parameters/ParamB".to_string(), 0.0));
            assert_eq!(float_message(&b.content[2]), ("/avatar/parameters/C".to_string(), 3.0));
        }
        Packet::Message(_) => panic!("a message where a bundle was expected"),
    }
}

#[test]
fn empty_key_sends_nothing_singly_and_an_empty_bundle_bundled() {
    assert!(unlock_packets(&[].to_vec(), false).is_empty());
    let packets = unlock_packets(&[].to_vec(), true);
    assert_eq!(packets.len(), 1);
    assert!(matches!(&packets[0], Packet::Bundle(b) if b.content.is_empty()));
}

#[test]
fn key_file_errors_are_told_apart() {
    assert_eq!(key_from_plaintext(vec![b'1', 0xff]).unwrap_err(), UnlockError::Undecodable);
    assert_eq!(key_from_plaintext(vec![0x2b, 0x2f, 0x76, 0x38]).unwrap_err(), UnlockError::Undecodable);
    assert_eq!(
        key_from_plaintext(b"1|A|b|C".to_vec()).unwrap_err(),
        UnlockError::Key(KeyError { entry: 1, cause: ValueError::Whole })
    );
    assert_eq!(
        key_from_plaintext(b"1.x|A".to_vec()).unwrap_err(),
        UnlockError::Key(KeyError { entry: 0, cause: ValueError::Fraction })
    );
}

#[test]
fn echoes_of_every_write_complete_the_wait() {
    let key = parse_key("1.5|ParamA|0|ParamB").unwrap();
    let mut tracker = EchoTracker::begin(&writes_of(&key.entries));
    assert_eq!(tracker.unanswered(), 2);
    assert!(!tracker.is_idle());
    assert_eq!(tracker.observe(&echo("/avatar/parameters/ParamA", 1.5)), EchoOutcome::Matched);
    assert_eq!(tracker.unanswered(), 1);
    assert_eq!(tracker.observe(&echo("/avatar/parameters/ParamB", 0.0)), EchoOutcome::Completed);
    assert!(tracker.is_idle());
    assert_eq!(tracker.unanswered(), 0);
    assert_eq!(tracker.observe(&echo("/avatar/parameters/ParamB", 0.0)), EchoOutcome::NotAwaited);
}

#[test]
fn echoes_complete_the_wait_in_any_order() {
    let key = parse_key("1|A|2|B|3|C").unwrap();
    let mut tracker = EchoTracker::begin(&writes_of(&key.entries));
    assert_eq!(tracker.observe(&echo("/avatar/parameters/C", 3.0)), EchoOutcome::Matched);
    assert_eq!(tracker.observe(&echo("/avatar/parameters/A", 1.0)), EchoOutcome::Matched);
    assert_eq!(tracker.observe(&echo("/avatar/parameters/B", 2.0)), EchoOutcome::Completed);
    assert!(tracker.is_idle());
}

#[test]
fn other_parameters_do_not_disturb_the_wait() {
    let key = parse_key("1|A").unwrap();
    let mut tracker = EchoTracker::begin(&writes_of(&key.entries));
    assert_eq!(tracker.observe(&echo("/avatar/parameters/Other", 9.0)), EchoOutcome::NotAwaited);
    assert_eq!(tracker.unanswered(), 1);
    let mut idle = EchoTracker::new();
    assert!(idle.is_idle());
    assert_eq!(idle.observe(&echo("/avatar/parameters/A", 1.0)), EchoOutcome::NotAwaited);
}

#[test]
fn a_differing_echo_ends_the_wait() {
    let key = parse_key("1|A|2|B|3|C").unwrap();
    let writes = writes_of(&key.entries);
    let mut tracker = EchoTracker::begin(&writes);
    assert_eq!(
        tracker.observe(&echo("/avatar/parameters/A", 1.25)),
        EchoOutcome::Abandoned { deviation: Deviation::OtherValue, unanswered: 2 }
    );
    assert!(tracker.is_idle());
    let mut tracker = EchoTracker::begin(&writes);
    let int = OscMessage { addr: "/avatar/parameters/B".to_string(), args: vec![OscArg::Int(2)] };
    assert_eq!(tracker.observe(&int), EchoOutcome::Abandoned { deviation: Deviation::NotFloat, unanswered: 2 });
    let mut tracker = EchoTracker::begin(&writes);
    let none = OscMessage { addr: "/avatar/parameters/B".to_string(), args: vec![] };
    assert_eq!(tracker.observe(&none), EchoOutcome::Abandoned { deviation: Deviation::NoValue, unanswered: 2 });
}

#[test]
fn only_the_first_value_of_an_echo_counts() {
    let key = parse_key("1.5|a|0|b").unwrap();
    let mut tracker = EchoTracker::begin(&writes_of(&key.entries));
    let two = OscMessage {
        addr: "/avatar/parameters/a".to_string(),
        args: vec![OscArg::Float(1.5f32.to_bits()), OscArg::Int(7)],
    };
    assert_eq!(tracker.observe(&two), EchoOutcome::Matched);
    assert_eq!(tracker.unanswered(), 1);
    assert!(!tracker.is_idle());
    let wrong_first = OscMessage {
        addr: "/avatar/parameters/b".to_string(),
        args: vec![OscArg::Int(0), OscArg::Float(0.0f32.to_bits())],
    };
    assert_eq!(
        tracker.observe(&wrong_first),
        EchoOutcome::Abandoned { deviation: Deviation::NotFloat, unanswered: 0 }
    );
}

#[test]
fn a_later_write_to_the_same_parameter_is_the_one_awaited() {
    let key = parse_key("1|A|2|A").unwrap();
    let mut tracker = EchoTracker::begin(&writes_of(&key.entries));
    assert_eq!(tracker.unanswered(), 1);
    assert_eq!(tracker.observe(&echo("/avatar/parameters/A", 2.0)), EchoOutcome::Completed);
}

#[test]
fn bit_patterns_compare_as_the_numbers_do() {
    let samples = [
        0.0f32,
        -0.0,
        1.0,
        -1.0,
        1.5,
        2.25,
        f32::MIN_POSITIVE,
        f32::MAX,
        f32::INFINITY,
        f32::NEG_INFINITY,
        f32::NAN,
        f32::from_bits(0x7fc0_0001),
        f32::from_bits(0xffc0_0000),
        f32::from_bits(1),
    ];
    for a in samples {
        for b in samples {
            assert_eq!(float_bits_eq(a.to_bits(), b.to_bits()), a == b, "{a} {b}");
        }
    }
}

#[test]
fn deviations_are_told_apart() {
    let one = 1.0f32.to_bits();
    assert_eq!(deviation(one, &vec![OscArg::Float(one)]), None);
    assert_eq!(deviation(0.0f32.to_bits(), &vec![OscArg::Float((-0.0f32).to_bits())]), None);
    assert_eq!(deviation(one, &vec![OscArg::Float(2.0f32.to_bits())]), Some(Deviation::OtherValue));
    assert_eq!(deviation(one, &vec![OscArg::Double(1.0f64.to_bits())]), Some(Deviation::NotFloat));
    assert_eq!(deviation(one, &vec![]), Some(Deviation::NoValue));
    assert_eq!(deviation(one, &vec![OscArg::Int(1), OscArg::Float(one)]), Some(Deviation::NotFloat));
    assert_eq!(deviation(one, &vec![OscArg::Float(one), OscArg::Int(1)]), None);
    assert_eq!(deviation(one, &vec![OscArg::Float(one), OscArg::Float(2.0f32.to_bits())]), None);
}

#[test]
fn addresses_are_classified() {
    assert_eq!(classify("/avatar/change"), AddressKind::AvatarChange);
    assert_eq!(classify("/Avatar/CHANGE"), AddressKind::AvatarChange);
    assert_eq!(classify("/avatar/change/"), AddressKind::Other);
    assert_eq!(classify("/avatar/chang"), AddressKind::Other);
    assert_eq!(classify("/avatar/parameters/ParamA"), AddressKind::Parameter);
    assert_eq!(classify("/avatar/parameters/"), AddressKind::Parameter);
    assert_eq!(classify("/avatar/parameters"), AddressKind::Other);
    assert_eq!(classify("/Avatar/parameters/X"), AddressKind::Other);
    assert_eq!(classify(""), AddressKind::Other);
    assert_eq!(classify("/avatar/\u{212a}hange"), AddressKind::Other);
}

#[test]
fn parameter_addresses_and_key_files_are_named() {
    assert_eq!(parameter_address("ParamA"), "/avatar/parameters/ParamA");
    assert_eq!(parameter_address(""), "/avatar/parameters/");
    assert_eq!(key_file_name("avtr_1234"), "avtr_1234.key");
}

#[test]
fn avatar_change_names_the_avatar_by_one_string() {
    assert_eq!(avatar_id(&vec![OscArg::String("avtr_1".to_string())]), Ok("avtr_1".to_string()));
    assert_eq!(avatar_id(&vec![]), Err(ChangeError::NoId));
    assert_eq!(avatar_id(&vec![OscArg::Int(1)]), Err(ChangeError::Unrecognized));
    assert_eq!(
        avatar_id(&vec![OscArg::String("a".to_string()), OscArg::String("b".to_string())]),
        Err(ChangeError::Unrecognized)
    );
    assert_eq!(avatar_id(&vec![OscArg::String("a".to_string()), OscArg::Int(1)]), Err(ChangeError::Unrecognized));
}

#[test]
fn messages_are_routed_by_their_address() {
    let key = parse_key("1.5|ParamA").unwrap();
    let mut tracker = EchoTracker::begin(&writes_of(&key.entries));
    let change = OscMessage { addr: "/AVATAR/change".to_string(), args: vec![OscArg::String("avtr_9".to_string())] };
    assert!(matches!(react(&mut tracker, &change), Reaction::Unlock(id) if id == "avtr_9"));
    let bad = OscMessage { addr: "/avatar/change".to_string(), args: vec![OscArg::Bool(true)] };
    assert!(matches!(react(&mut tracker, &bad), Reaction::Refused(ChangeError::Unrecognized)));
    let other = OscMessage { addr: "/tracking/head".to_string(), args: vec![] };
    assert!(matches!(react(&mut tracker, &other), Reaction::Ignored));
    assert_eq!(tracker.unanswered(), 1);
    let reaction = react(&mut tracker, &echo("/avatar/parameters/ParamA", 1.5));
    assert!(matches!(reaction, Reaction::Echo(EchoOutcome::Completed)));
    assert!(tracker.is_idle());
}
