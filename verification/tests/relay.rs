use osc_relay::buffer::CorrelationId;
use osc_relay::codec::DecodeError;
use osc_relay::config::{
    plan_session, IpAddress, OscCreateData, Settings, OSC_RECV_BUFFER_SIZE, OSC_RECV_PORT, OSC_SEND_PORT,
};
use osc_relay::dispatch::MessageDestructuring;
use osc_relay::fanout::{forward_ports, forwards, send_report, FanOutMode, SendReport};
use osc_relay::handler::{MessageHandler, OscHandler, PacketHandler, RawPacketHandler, StubHandler};
use osc_relay::ids::IdSource;
use osc_relay::packet::{OscMessage, Packet};
use osc_relay::receiver::{decide, BufferAction, ReceiveLoop};
use osc_relay::results::Results;
use std::time::{Duration, SystemTime};

/// Hands back what it was given, with a mark of its own.
struct Recorder(u8);

impl MessageHandler for Recorder {
    type Output = (u8, String);

    fn handle(&mut self, message: &OscMessage) -> (u8, String) {
        (self.0, message.addr.clone())
    }
}

impl PacketHandler for Recorder {
    type Output = (u8, String);

    fn handle(&mut self, packet: &Packet) -> (u8, String) {
        (self.0, format!("{packet:?}"))
    }
}

impl RawPacketHandler for Recorder {
    type Output = (u8, Vec<u8>);

    fn handle(&mut self, bytes: &[u8]) -> (u8, Vec<u8>) {
        (self.0, bytes.to_vec())
    }
}

fn wire_message(addr: &str, value: i32) -> rosc::OscPacket {
    rosc::OscPacket::Message(rosc::OscMessage { addr: addr.to_string(), args: vec![rosc::OscType::Int(value)] })
}

fn bundle_bytes(tag: rosc::OscTime, content: Vec<rosc::OscPacket>) -> Vec<u8> {
    rosc::encoder::encode(&rosc::OscPacket::Bundle(rosc::OscBundle { timetag: tag, content })).unwrap()
}

fn nanos_at(at: SystemTime) -> i128 {
    at.duration_since(SystemTime::UNIX_EPOCH).unwrap().as_nanos() as i128
}

fn some_instant() -> SystemTime {
    SystemTime::UNIX_EPOCH + Duration::from_secs(1_700_000_000)
}

#[test]
fn every_handler_gets_what_was_received() {
    let mut d = MessageDestructuring::new(Recorder(1), Recorder(2), Recorder(3));
    let bytes = bundle_bytes(rosc::OscTime { seconds: 0, fractional: 1 }, vec![wire_message("/a", 1), wire_message("/b", 2)]);
    let handled = d.handle_raw_packet_at(&bytes, nanos_at(some_instant())).unwrap();
    assert_eq!(handled.rest_len, 0);
    assert_eq!(handled.raw, (3, bytes.clone()));
    assert_eq!(handled.packet.0, 2);
    assert!(handled.packet.1.contains("\"/a\"") && handled.packet.1.contains("\"/b\""));
    assert_eq!(handled.results.to_messages_vec(), vec![(1, "/a".to_string()), (1, "/b".to_string())]);
    assert_eq!(d.waiting(), 0);
}

#[test]
fn undecodable_bytes_reach_no_handler() {
    let mut d = MessageDestructuring::new(Recorder(1), Recorder(2), Recorder(3));
    assert!(d.handle_raw_packet_at(b"nonsense", 0).is_err());
    assert!(d.handle_raw_packet(b"").is_err());
    assert_eq!(d.handle_undecoded(b"nonsense"), (3, b"nonsense".to_vec()));
}

#[test]
fn a_deferred_bundle_reaches_the_message_handler_at_its_time() {
    let now = some_instant();
    let tag = rosc::OscTime::try_from(now + Duration::from_millis(500)).unwrap();
    let mut d = MessageDestructuring::new(Recorder(1), StubHandler, StubHandler);
    let handled = d.handle_raw_packet_at(&bundle_bytes(tag, vec![wire_message("/x", 1)]), nanos_at(now)).unwrap();
    let id: CorrelationId = match handled.results {
        Results::NotYetApplied(id) => id,
        _ => panic!("the bundle was not put off"),
    };
    assert_eq!(d.waiting(), 1);
    assert!(d.check_osc_bundles_at(nanos_at(now)).is_empty());
    let mut released = d.check_osc_bundles_at(nanos_at(now + Duration::from_millis(600)));
    assert_eq!(released.len(), 1);
    let first = released.remove(0);
    assert_eq!(first.id, id);
    assert_eq!(first.plan.to_messages_vec(), vec![(1, "/x".to_string())]);
    assert_eq!(d.waiting(), 0);
    assert!(d.check_osc_bundles().is_empty());
}

#[test]
fn the_clock_decides_where_no_instant_is_given() {
    let mut d = MessageDestructuring::new(Recorder(1), StubHandler, StubHandler);
    let past = rosc::OscTime::try_from(SystemTime::now() - Duration::from_secs(5)).unwrap();
    let future = rosc::OscTime::try_from(SystemTime::now() + Duration::from_secs(3600)).unwrap();
    let handled = d.handle_raw_packet(&bundle_bytes(past, vec![wire_message("/past", 1)])).unwrap();
    assert_eq!(handled.results.to_messages_vec(), vec![(1, "/past".to_string())]);
    let handled = d.handle_raw_packet(&bundle_bytes(future, vec![wire_message("/future", 1)])).unwrap();
    assert!(matches!(handled.results, Results::NotYetApplied(_)));
    assert_eq!(d.waiting(), 1);
    assert!(d.check_osc_bundles().is_empty());
    assert_eq!(d.waiting(), 1);
}

#[test]
fn put_off_bundles_get_different_names() {
    let now = some_instant();
    let tag = rosc::OscTime::try_from(now + Duration::from_secs(1)).unwrap();
    let mut d = MessageDestructuring::new(StubHandler, StubHandler, StubHandler);
    let mut ids = Vec::new();
    for _ in 0..8 {
        match d.handle_raw_packet_at(&bundle_bytes(tag, vec![]), nanos_at(now)).unwrap().results {
            Results::NotYetApplied(id) => ids.push(id.0),
            _ => panic!("the bundle was not put off"),
        }
    }
    ids.sort();
    ids.dedup();
    assert_eq!(ids.len(), 8);
}

#[test]
fn several_handlers_act_as_one() {
    let mut handler = OscHandler::new(vec![Recorder(1), Recorder(2), Recorder(3)].into_boxed_slice());
    assert_eq!(handler.len(), 3);
    let message = OscMessage { addr: "/m".to_string(), args: vec![] };
    let outputs = MessageHandler::handle(&mut handler, &message);
    assert_eq!(outputs, vec![(1, "/m".to_string()), (2, "/m".to_string()), (3, "/m".to_string())]);
    let outputs = RawPacketHandler::handle(&mut handler, &[7, 8]);
    assert_eq!(outputs, vec![(1, vec![7, 8]), (2, vec![7, 8]), (3, vec![7, 8])]);
    let mut none: OscHandler<StubHandler> = OscHandler::new(Vec::new().into_boxed_slice());
    assert!(PacketHandler::handle(&mut none, &Packet::Message(message)).is_empty());
}

#[test]
fn the_buffer_is_treated_by_how_decoding_went() {
    assert_eq!(decide(Ok(0), 100, 8192), BufferAction::CarryTail(0));
    assert_eq!(decide(Ok(12), 100, 8192), BufferAction::CarryTail(12));
    assert_eq!(decide(Err(DecodeError::BadPacket), 100, 8192), BufferAction::Accumulate);
    assert_eq!(decide(Err(DecodeError::ReadEof), 8192, 8192), BufferAction::Accumulate);
    assert_eq!(decide(Err(DecodeError::ReadEof), 8193, 8192), BufferAction::Surrender);
    assert_eq!(decide(Err(DecodeError::BadPacket), 8193, 8192), BufferAction::Surrender);
    assert_eq!(decide(Err(DecodeError::BadMessage), 10, 8192), BufferAction::Reset);
    assert_eq!(decide(Err(DecodeError::ReadError), 10, 8192), BufferAction::Reset);
    assert_eq!(decide(Err(DecodeError::StringError), 9000, 8192), BufferAction::Reset);
}

fn new_loop(max: usize) -> ReceiveLoop<Recorder, Recorder, Recorder> {
    ReceiveLoop::new(
        vec![Recorder(1)].into_boxed_slice(),
        vec![Recorder(2)].into_boxed_slice(),
        vec![Recorder(3)].into_boxed_slice(),
        max,
    )
}

#[test]
fn a_packet_in_pieces_is_decoded_as_a_whole() {
    let bytes = rosc::encoder::encode(&wire_message("/avatar/parameters/Long", 42)).unwrap();
    let now = nanos_at(some_instant());
    let mut whole = new_loop(8192);
    let at_once = whole.on_datagram(&bytes, now);
    let at_once = at_once.outcome.unwrap();
    let mut pieces = new_loop(8192);
    let (first, second) = bytes.split_at(3);
    let received = pieces.on_datagram(first, now);
    assert!(received.outcome.is_err());
    assert_eq!(received.action, BufferAction::Accumulate);
    assert!(received.surrendered.is_none());
    assert_eq!(pieces.buffered_len(), 3);
    let received = pieces.on_datagram(second, now);
    assert_eq!(received.action, BufferAction::CarryTail(0));
    let in_pieces = received.outcome.unwrap();
    assert_eq!(pieces.buffered_len(), 0);
    assert_eq!(in_pieces.raw, at_once.raw);
    assert_eq!(in_pieces.raw, vec![(3, bytes.clone())]);
    assert_eq!(in_pieces.packet, at_once.packet);
    assert_eq!(in_pieces.results.to_messages_vec(), at_once.results.to_messages_vec());
}

#[test]
fn bytes_after_a_packet_stay_in_the_buffer() {
    let mut bytes = rosc::encoder::encode(&wire_message("/a", 1)).unwrap();
    let second = rosc::encoder::encode(&wire_message("/b", 2)).unwrap();
    bytes.extend_from_slice(&second);
    let mut state = new_loop(8192);
    let received = state.on_datagram(&bytes, 0);
    assert_eq!(received.action, BufferAction::CarryTail(second.len()));
    assert_eq!(received.outcome.unwrap().results.to_messages_vec(), vec![vec![(1, "/a".to_string())]]);
    assert_eq!(state.buffered_len(), second.len());
    let received = state.on_datagram(&[], 0);
    assert_eq!(received.outcome.unwrap().results.to_messages_vec(), vec![vec![(1, "/b".to_string())]]);
    assert_eq!(state.buffered_len(), 0);
}

#[test]
fn too_many_undecodable_bytes_are_surrendered() {
    let mut state = new_loop(4);
    let received = state.on_datagram(b"/ab", 0);
    assert_eq!(received.action, BufferAction::Accumulate);
    let received = state.on_datagram(b"c", 0);
    assert_eq!(received.action, BufferAction::Accumulate);
    assert_eq!(state.buffered_len(), 4);
    let received = state.on_datagram(b"d", 0);
    assert_eq!(received.action, BufferAction::Surrender);
    assert_eq!(received.surrendered, Some(vec![(3, b"/abcd".to_vec())]));
    assert_eq!(state.buffered_len(), 0);
}

#[test]
fn a_receive_error_empties_the_buffer() {
    let mut state = new_loop(8192);
    state.on_datagram(b"/ab", 0);
    assert_eq!(state.buffered_len(), 3);
    state.on_receive_error();
    assert_eq!(state.buffered_len(), 0);
}

#[test]
fn a_tick_releases_what_is_due() {
    let now = some_instant();
    let tag = rosc::OscTime::try_from(now + Duration::from_millis(500)).unwrap();
    let mut state = new_loop(8192);
    let received = state.on_datagram(&bundle_bytes(tag, vec![wire_message("/x", 1)]), nanos_at(now));
    assert!(matches!(received.outcome.unwrap().results, Results::NotYetApplied(_)));
    assert_eq!(state.waiting_len(), 1);
    assert!(state.on_tick(nanos_at(now + Duration::from_millis(499))).is_empty());
    let released = state.on_tick(nanos_at(now + Duration::from_millis(600)));
    assert_eq!(released.len(), 1);
    assert_eq!(state.waiting_len(), 0);
    let plans: Vec<_> = released.into_iter().map(|r| r.plan.to_messages_vec()).collect();
    assert_eq!(plans, vec![vec![vec![(1, "/x".to_string())]]]);
}

#[test]
fn forward_ports_are_used_once_each() {
    assert_eq!(forward_ports(&vec![9100, 9101, 9101]), vec![9100, 9101]);
    assert_eq!(forward_ports(&vec![9100, 9101, 9100, 9102, 9101]), vec![9100, 9101, 9102]);
    assert_eq!(forward_ports(&vec![]), Vec::<u16>::new());
}

#[test]
fn each_listener_gets_the_datagram_as_it_came() {
    let payload = [0u8, 1, 2, 255, 47, 0];
    let sends = forwards(&forward_ports(&vec![9100, 9101, 9101]), &payload);
    assert_eq!(sends.len(), 2);
    assert_eq!((sends[0].port, sends[0].bytes.as_slice()), (9100, &payload[..]));
    assert_eq!((sends[1].port, sends[1].bytes.as_slice()), (9101, &payload[..]));
    assert!(forwards(&vec![], &payload).is_empty());
}

#[test]
fn a_short_send_is_a_warning_and_no_failure() {
    assert_eq!(send_report(10, Some(10)), SendReport::Sent);
    assert_eq!(send_report(10, Some(4)), SendReport::Mismatch { requested: 10, sent: 4 });
    assert_eq!(send_report(10, None), SendReport::Failed);
    assert_eq!(send_report(0, Some(0)), SendReport::Sent);
}

#[test]
fn the_default_session_listens_locally_and_forwards_nothing() {
    let data = OscCreateData::default();
    assert_eq!(data.ip, IpAddress::V4(127, 0, 0, 1));
    assert_eq!((data.recv_port, data.send_port), (9001, 9000));
    assert_eq!((OSC_RECV_PORT, OSC_SEND_PORT, OSC_RECV_BUFFER_SIZE), (9001, 9000, 8192));
    assert_eq!(data.max_message_size, 8192);
    assert!(data.dex_protect_enabled && !data.dex_use_bundles && !data.osc_multiplexer_parse_packets);
    assert!(data.path.is_empty() && data.osc_multiplexer_rev_port.is_empty());
    let plan = plan_session(&data);
    assert!(plan.unlock);
    assert_eq!(plan.fan_out, None);
    assert!(plan.forward_ports.is_empty());
}

#[test]
fn settings_switch_the_parts_of_a_session() {
    let mut settings = Settings {
        osc_recv_port: 1,
        osc_send_port: 2,
        max_message_size: 3,
        dex_protect_enabled: false,
        dex_use_bundles: true,
        path: "keys".to_string(),
        osc_multiplexer_enabled: true,
        osc_multiplexer_rev_port: vec![9100, 9101, 9101],
        osc_multiplexer_parse_packets: false,
    };
    let data = settings.create_data(IpAddress::V6(1));
    assert_eq!(data.ip, IpAddress::V6(1));
    assert_eq!((data.recv_port, data.send_port, data.max_message_size), (1, 2, 3));
    assert!(!data.dex_protect_enabled && data.dex_use_bundles);
    assert_eq!(data.path, "keys");
    assert_eq!(data.osc_multiplexer_rev_port, vec![9100, 9101, 9101]);
    let plan = plan_session(&data);
    assert!(!plan.unlock);
    assert_eq!(plan.fan_out, Some(FanOutMode::Raw));
    assert_eq!(plan.forward_ports, vec![9100, 9101]);
    settings.osc_multiplexer_parse_packets = true;
    assert_eq!(plan_session(&settings.create_data(IpAddress::V6(1))).fan_out, Some(FanOutMode::Parsed));
    settings.osc_multiplexer_enabled = false;
    let data = settings.create_data(IpAddress::V4(10, 0, 0, 1));
    assert!(data.osc_multiplexer_rev_port.is_empty());
    assert_eq!(plan_session(&data).fan_out, None);
}

#[test]
fn ids_count_up_from_zero() {
    let mut ids = IdSource::new();
    assert_eq!(ids.get_id(), 0);
    assert_eq!(ids.get_id(), 1);
    assert_eq!(ids.get_id(), 2);
}

/// Counts the messages that it has taken in and hands the count back.
struct Counter(usize);

impl MessageHandler for Counter {
    type Output = (usize, String);

    fn handle(&mut self, message: &OscMessage) -> (usize, String) {
        self.0 += 1;
        (self.0, message.addr.clone())
    }
}

#[test]
fn messages_reach_the_handler_in_depth_first_order() {
    let immediate = rosc::OscTime { seconds: 0, fractional: 1 };
    let inner = rosc::OscPacket::Bundle(rosc::OscBundle {
        timetag: immediate,
        content: vec![wire_message("/b", 2), wire_message("/c", 3)],
    });
    let bytes = bundle_bytes(immediate, vec![wire_message("/a", 1), inner, wire_message("/d", 4)]);
    let mut d = MessageDestructuring::new(Counter(0), StubHandler, StubHandler);
    let handled = d.handle_raw_packet_at(&bytes, 0).unwrap();
    assert_eq!(
        handled.results.to_messages_vec(),
        vec![(1, "/a".to_string()), (2, "/b".to_string()), (3, "/c".to_string()), (4, "/d".to_string())]
    );
    let handled = d.handle_raw_packet_at(&bytes, 0).unwrap();
    assert_eq!(handled.results.to_messages_vec()[0], (5, "/a".to_string()));
}

#[test]
fn due_bundles_reach_the_handler_earliest_first() {
    let now = some_instant();
    let mut d = MessageDestructuring::new(Counter(0), StubHandler, StubHandler);
    let mut ids = Vec::new();
    for (name, millis) in [("/third", 300u64), ("/first", 100), ("/late", 900), ("/second", 200)] {
        let tag = rosc::OscTime::try_from(now + Duration::from_millis(millis)).unwrap();
        match d.handle_raw_packet_at(&bundle_bytes(tag, vec![wire_message(name, 0)]), nanos_at(now)).unwrap().results {
            Results::NotYetApplied(id) => ids.push((name, id)),
            _ => panic!("the bundle was not put off"),
        }
    }
    assert_eq!(d.waiting(), 4);
    let released = d.check_osc_bundles_at(nanos_at(now + Duration::from_millis(500)));
    assert_eq!(d.waiting(), 1);
    let id_of = |name: &str| ids.iter().find(|(n, _)| *n == name).unwrap().1;
    let got: Vec<(CorrelationId, Vec<(usize, String)>)> =
        released.into_iter().map(|r| (r.id, r.plan.to_messages_vec())).collect();
    assert_eq!(
        got,
        vec![
            (id_of("/first"), vec![(1, "/first".to_string())]),
            (id_of("/second"), vec![(2, "/second".to_string())]),
            (id_of("/third"), vec![(3, "/third".to_string())]),
        ]
    );
}

#[test]
fn each_output_comes_from_the_handler_at_its_place() {
    let mut handler = OscHandler::new(vec![Counter(10), Counter(20), Counter(30)].into_boxed_slice());
    let message = OscMessage { addr: "/m".to_string(), args: vec![] };
    let first = MessageHandler::handle(&mut handler, &message);
    assert_eq!(first, vec![(11, "/m".to_string()), (21, "/m".to_string()), (31, "/m".to_string())]);
    let second = MessageHandler::handle(&mut handler, &message);
    assert_eq!(second, vec![(12, "/m".to_string()), (22, "/m".to_string()), (32, "/m".to_string())]);
}
