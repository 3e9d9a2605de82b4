//! The settings of a session, and which parts of the relay they switch on.

use vstd::prelude::*;
use crate::fanout::{forward_ports, unique, FanOutMode};

verus! {

/// The port on which datagrams are received, unless set otherwise.
pub const OSC_RECV_PORT: u16 = 9001;

/// The port to which the avatar's parameters are sent, unless set otherwise.
pub const OSC_SEND_PORT: u16 = 9000;

/// The number of bytes up to which the receiver waits for the rest of a
/// packet, unless set otherwise.
pub const OSC_RECV_BUFFER_SIZE: usize = 8192;

/// An address of the Internet protocol, version 4 by its four bytes or
/// version 6 by its 128 bits.
#[derive(Clone, Copy, Debug, PartialEq, Eq, Structural)]
pub enum IpAddress {
    V4(u8, u8, u8, u8),
    V6(u128),
}

/// What a session is made from. It does not change while the session runs.
#[derive(Clone, Debug)]
pub struct OscCreateData {
    pub ip: IpAddress,
    pub recv_port: u16,
    pub send_port: u16,
    pub max_message_size: usize,
    pub dex_protect_enabled: bool,
    pub dex_use_bundles: bool,
    pub path: String,
    pub osc_multiplexer_rev_port: Vec<u16>,
    pub osc_multiplexer_parse_packets: bool,
}

impl Default for OscCreateData {
    /// The local host, the usual ports and buffer size, keys switched on and
    /// sent singly, and nothing forwarded.
    fn default() -> (data: Self)
        ensures
            data.ip == IpAddress::V4(127, 0, 0, 1),
            data.recv_port == OSC_RECV_PORT,
            data.send_port == OSC_SEND_PORT,
            data.max_message_size == OSC_RECV_BUFFER_SIZE,
            data.dex_protect_enabled,
            !data.dex_use_bundles,
            data.path@ == Seq::<char>::empty(),
            data.osc_multiplexer_rev_port@ == Seq::<u16>::empty(),
            !data.osc_multiplexer_parse_packets,
    {
        OscCreateData {
            ip: IpAddress::V4(127, 0, 0, 1),
            recv_port: OSC_RECV_PORT,
            send_port: OSC_SEND_PORT,
            max_message_size: OSC_RECV_BUFFER_SIZE,
            dex_protect_enabled: true,
            dex_use_bundles: false,
            path: String::new(),
            osc_multiplexer_rev_port: Vec::new(),
            osc_multiplexer_parse_packets: false,
        }
    }
}

/// What the operator has set. The forward ports are kept while forwarding is
/// switched off, so that switching it on again brings them back.
#[derive(Clone, Debug)]
pub struct Settings {
    pub osc_recv_port: u16,
    pub osc_send_port: u16,
    pub max_message_size: usize,
    pub dex_protect_enabled: bool,
    pub dex_use_bundles: bool,
    pub path: String,
    pub osc_multiplexer_enabled: bool,
    pub osc_multiplexer_rev_port: Vec<u16>,
    pub osc_multiplexer_parse_packets: bool,
}

impl Settings {
    /// What to make a session from, with the address `ip`: the settings as
    /// they are, but with no forward port where forwarding is switched off.
    pub fn create_data(&self, ip: IpAddress) -> (data: OscCreateData)
        ensures
            data.ip == ip,
            data.recv_port == self.osc_recv_port,
            data.send_port == self.osc_send_port,
            data.max_message_size == self.max_message_size,
            data.dex_protect_enabled == self.dex_protect_enabled,
            data.dex_use_bundles == self.dex_use_bundles,
            data.path@ == self.path@,
            data.osc_multiplexer_rev_port@ == (if self.osc_multiplexer_enabled {
                self.osc_multiplexer_rev_port@
            } else {
                Seq::<u16>::empty()
            }),
            data.osc_multiplexer_parse_packets == self.osc_multiplexer_parse_packets,
    {
        let ports: Vec<u16> = if self.osc_multiplexer_enabled {
            self.osc_multiplexer_rev_port.clone()
        } else {
            Vec::new()
        };
        OscCreateData {
            ip,
            recv_port: self.osc_recv_port,
            send_port: self.osc_send_port,
            max_message_size: self.max_message_size,
            dex_protect_enabled: self.dex_protect_enabled,
            dex_use_bundles: self.dex_use_bundles,
            path: self.path.clone(),
            osc_multiplexer_rev_port: ports,
            osc_multiplexer_parse_packets: self.osc_multiplexer_parse_packets,
        }
    }
}

/// The parts of a session: whether keys are applied, and whether and how
/// datagrams are forwarded, and to which ports.
#[derive(Clone, Debug)]
pub struct SessionPlan {
    /// Whether the avatar key handler takes the messages. Without it nothing
    /// does, and no sender is needed.
    pub unlock: bool,
    /// How the listeners are served, where there are any.
    pub fan_out: Option<FanOutMode>,
    /// The listeners' ports, each once.
    pub forward_ports: Vec<u16>,
}

/// Whether and how a session made from `data` forwards datagrams: not at all
/// without a forward port, else decoded packets or raw datagrams as set.
pub open spec fn fan_out_of(ports: Seq<u16>, parse_packets: bool) -> Option<FanOutMode> {
    if ports.len() == 0 {
        None
    } else if parse_packets {
        Some(FanOutMode::Parsed)
    } else {
        Some(FanOutMode::Raw)
    }
}

/// The parts of a session made from `data`.
pub fn plan_session(data: &OscCreateData) -> (plan: SessionPlan)
    ensures
        plan.unlock == data.dex_protect_enabled,
        plan.fan_out == fan_out_of(data.osc_multiplexer_rev_port@, data.osc_multiplexer_parse_packets),
        plan.forward_ports@ == unique(data.osc_multiplexer_rev_port@),
{
    let fan_out = if data.osc_multiplexer_rev_port.len() == 0 {
        None
    } else if data.osc_multiplexer_parse_packets {
        Some(FanOutMode::Parsed)
    } else {
        Some(FanOutMode::Raw)
    };
    SessionPlan { unlock: data.dex_protect_enabled, fan_out, forward_ports: forward_ports(&data.osc_multiplexer_rev_port) }
}

} // verus!
