//! Passing each datagram on to the listeners, one socket per forward port.

use vstd::prelude::*;
use crate::codec::{encode, wire_encoded, EncodeError};
use crate::handler::{PacketHandler, RawPacketHandler};
use crate::packet::{Packet, PacketModel};

verus! {

/// `ports` without repetitions: each port stands where it first occurs.
pub open spec fn unique(ports: Seq<u16>) -> Seq<u16>
    decreases ports.len(),
{
    if ports.len() == 0 {
        Seq::empty()
    } else {
        let before = unique(ports.drop_last());
        if before.contains(ports.last()) {
            before
        } else {
            before.push(ports.last())
        }
    }
}

/// `unique` holds every port of the list, and each once.
pub proof fn lemma_unique(ports: Seq<u16>)
    ensures
        unique(ports).no_duplicates(),
        unique(ports).len() <= ports.len(),
        forall|p: u16| unique(ports).contains(p) <==> ports.contains(p),
    decreases ports.len(),
{
    if ports.len() > 0 {
        let front = ports.drop_last();
        let last = ports.last();
        lemma_unique(front);
        let before = unique(front);
        assert forall|p: u16| unique(ports).contains(p) <==> ports.contains(p) by {
            assert(unique(front).contains(p) <==> front.contains(p));
            if unique(ports).contains(p) {
                if before.contains(p) {
                    assert(front.contains(p));
                    let i = choose|i: int| 0 <= i < front.len() && front[i] == p;
                    assert(ports[i] == front[i]);
                } else {
                    let i = choose|i: int| 0 <= i < unique(ports).len() && unique(ports)[i] == p;
                    assert(p == last);
                    assert(ports[ports.len() - 1] == p);
                }
            }
            if ports.contains(p) {
                let i = choose|i: int| 0 <= i < ports.len() && ports[i] == p;
                if i < front.len() {
                    assert(front[i] == p);
                    assert(front.contains(p));
                    assert(before.contains(p));
                    let j = choose|j: int| 0 <= j < before.len() && before[j] == p;
                    assert(unique(ports)[j] == p);
                } else {
                    assert(p == last);
                    if !before.contains(last) {
                        assert(unique(ports)[before.len() as int] == last);
                    }
                }
            }
        }
    }
}

/// Whether `ports` holds `port`.
pub fn holds(ports: &Vec<u16>, port: u16) -> (yes: bool)
    ensures
        yes == ports@.contains(port),
{
    let mut i: usize = 0;
    while i < ports.len()
        invariant
            i <= ports.len(),
            forall|k: int| 0 <= k < i ==> ports@[k] != port,
        decreases ports.len() - i,
    {
        if ports[i] == port {
            return true;
        }
        i += 1;
    }
    false
}

/// The ports to forward to: those configured, each once, in the order in
/// which they first occur.
pub fn forward_ports(configured: &Vec<u16>) -> (ports: Vec<u16>)
    ensures
        ports@ == unique(configured@),
        ports@.no_duplicates(),
        forall|p: u16| ports@.contains(p) <==> configured@.contains(p),
{
    let mut ports: Vec<u16> = Vec::new();
    let mut i: usize = 0;
    proof {
        assert(configured@.take(0) =~= Seq::<u16>::empty());
    }
    while i < configured.len()
        invariant
            i <= configured.len(),
            ports@ == unique(configured@.take(i as int)),
        decreases configured.len() - i,
    {
        let port = configured[i];
        proof {
            assert(configured@.take(i + 1).drop_last() =~= configured@.take(i as int));
            assert(configured@.take(i + 1).last() == port);
        }
        if !holds(&ports, port) {
            ports.push(port);
        }
        i += 1;
    }
    proof {
        assert(configured@.take(configured@.len() as int) =~= configured@);
        lemma_unique(configured@);
    }
    ports
}

/// One datagram to send: the port of the listener and the bytes.
#[derive(Clone, Debug)]
pub struct Forward {
    pub port: u16,
    pub bytes: Vec<u8>,
}

/// The datagrams to send for one payload: to each of `ports`, in order, the
/// bytes of the payload as they are.
pub fn forwards(ports: &Vec<u16>, bytes: &[u8]) -> (sends: Vec<Forward>)
    ensures
        sends@.len() == ports@.len(),
        forall|i: int| 0 <= i < sends@.len() ==> (#[trigger] sends@[i]).port == ports@[i] && sends@[i].bytes@ == bytes@,
{
    let mut sends: Vec<Forward> = Vec::new();
    let mut i: usize = 0;
    while i < ports.len()
        invariant
            i <= ports.len(),
            sends@.len() == i,
            forall|k: int| 0 <= k < i ==> (#[trigger] sends@[k]).port == ports@[k] && sends@[k].bytes@ == bytes@,
        decreases ports.len() - i,
    {
        sends.push(Forward { port: ports[i], bytes: vstd::slice::slice_to_vec(bytes) });
        i += 1;
    }
    sends
}

/// How the listeners are served.
#[derive(Clone, Copy, Debug, PartialEq, Eq, Structural)]
pub enum FanOutMode {
    /// Each datagram is passed on as it came, decodable or not.
    Raw,
    /// Each decoded packet is encoded anew and passed on; what does not
    /// decode is not passed on.
    Parsed,
}

/// What became of one send.
#[derive(Clone, Copy, Debug, PartialEq, Eq, Structural)]
pub enum SendReport {
    /// All bytes were sent.
    Sent,
    /// Fewer or more bytes were reported sent than were handed over: worth a
    /// warning, and no failure.
    Mismatch { requested: usize, sent: usize },
    /// The send failed.
    Failed,
}

/// What became of a send of `requested` bytes that reported `sent` bytes, or
/// nothing where it failed.
pub open spec fn report_of(requested: usize, sent: Option<usize>) -> SendReport {
    match sent {
        None => SendReport::Failed,
        Some(n) => if n == requested {
            SendReport::Sent
        } else {
            SendReport::Mismatch { requested, sent: n }
        },
    }
}

/// What became of a send of `requested` bytes that reported `sent` bytes, or
/// nothing where it failed.
pub fn send_report(requested: usize, sent: Option<usize>) -> (report: SendReport)
    ensures
        report == report_of(requested, sent),
{
    match sent {
        None => SendReport::Failed,
        Some(n) => if n == requested {
            SendReport::Sent
        } else {
            SendReport::Mismatch { requested, sent: n }
        },
    }
}

/// Whether each of `sends` carries the bytes `bytes`, and they go to `ports`
/// in order.
pub open spec fn carries(sends: Seq<Forward>, ports: Seq<u16>, bytes: Seq<u8>) -> bool {
    sends.len() == ports.len() && forall|i: int|
        0 <= i < sends.len() ==> (#[trigger] sends[i]).port == ports[i] && sends[i].bytes@ == bytes
}

/// The handler that passes what is received on to the listeners.
#[derive(Clone, Debug)]
pub struct MultiplexerOsc {
    forward_ports: Vec<u16>,
}

impl MultiplexerOsc {
    /// The ports of the listeners, each once.
    pub closed spec fn ports(&self) -> Seq<u16> {
        self.forward_ports@
    }

    /// A handler that passes on to the ports `forward_ports`, each once.
    pub fn new(forward_ports: Vec<u16>) -> (handler: Self)
        ensures
            handler.ports() == unique(forward_ports@),
    {
        MultiplexerOsc { forward_ports: self::forward_ports(&forward_ports) }
    }

    /// The ports of the listeners: one socket is to be bound for each.
    pub fn sockets(&self) -> (ports: Vec<u16>)
        ensures
            ports@ == self.ports(),
    {
        self.forward_ports.clone()
    }
}

impl RawPacketHandler for MultiplexerOsc {
    type Output = Vec<Forward>;

    /// There is one datagram to send for each listener's port, in order, and
    /// each carries the bytes of the datagram received.
    open spec fn answers(&self, after: &Self, bytes: Seq<u8>, sends: Vec<Forward>) -> bool {
        carries(sends@, self.ports(), bytes) && after.ports() == self.ports()
    }

    fn handle(&mut self, bytes: &[u8]) -> (sends: Vec<Forward>) {
        forwards(&self.forward_ports, bytes)
    }
}

/// The handler that passes each decoded packet on to the listeners, encoded
/// anew, in place of the datagram as it came.
#[derive(Clone, Debug)]
pub struct ParsedMultiplexer {
    inner: MultiplexerOsc,
}

impl ParsedMultiplexer {
    /// The ports of the listeners, each once.
    pub closed spec fn ports(&self) -> Seq<u16> {
        self.inner.ports()
    }

    /// A handler that passes decoded packets on as `multiplexer` would pass
    /// datagrams on.
    pub fn new(multiplexer: MultiplexerOsc) -> (handler: Self)
        ensures
            handler.ports() == multiplexer.ports(),
    {
        ParsedMultiplexer { inner: multiplexer }
    }
}

impl PacketHandler for ParsedMultiplexer {
    type Output = Result<Vec<Forward>, EncodeError>;

    /// The packet is encoded once, and there is one datagram to send for each
    /// listener's port, in order, each with the encoded bytes. A packet that
    /// does not encode is not passed on.
    open spec fn answers(
        &self,
        after: &Self,
        packet: PacketModel,
        output: Result<Vec<Forward>, EncodeError>,
    ) -> bool {
        &&& after.ports() == self.ports()
        &&& match wire_encoded(packet) {
            Ok(bytes) => output is Ok && carries(output->Ok_0@, self.ports(), bytes),
            Err(e) => output is Err && output->Err_0 == e,
        }
    }

    fn handle(&mut self, packet: &Packet) -> (output: Result<Vec<Forward>, EncodeError>) {
        match encode(packet) {
            Ok(bytes) => Ok(forwards(&self.inner.forward_ports, bytes.as_slice())),
            Err(e) => Err(e),
        }
    }
}

} // verus!
