//! The receive loop's decisions: what to do with each datagram, with the bytes
//! that are left over, and with bytes that do not decode yet.

use vstd::prelude::*;
use crate::buffer::DelayedModel;
use crate::codec::{wire_decoded, DecodeError, DecodeFailure};
use crate::destructure::Released;
use crate::buffer::latest_first;
use crate::dispatch::{Handled, MessageDestructuring};
use crate::handler::{MessageHandler, OscHandler, PacketHandler, RawPacketHandler};

verus! {

/// Whether bytes that failed to decode with `e` may be the beginning of a
/// packet whose end has not arrived yet.
pub open spec fn may_be_incomplete(e: DecodeError) -> bool {
    e == DecodeError::BadPacket || e == DecodeError::ReadEof
}

/// What becomes of the receive buffer after an attempt to decode it.
#[derive(Clone, Copy, Debug, PartialEq, Eq, Structural)]
pub enum BufferAction {
    /// A packet was decoded: keep the bytes that follow it, this many.
    CarryTail(usize),
    /// The bytes may be the beginning of a packet: keep them all and wait for more.
    Accumulate,
    /// The bytes are too many to wait any longer: hand them to the raw
    /// handlers as they are, and start afresh.
    Surrender,
    /// The bytes are no packet: drop them.
    Reset,
}

/// What becomes of a receive buffer of `len` bytes after an attempt to decode
/// it that ended in `outcome` (the number of bytes after the packet, or the
/// failure), when at most `max` bytes are waited for.
pub open spec fn action_after(outcome: Result<int, DecodeError>, len: int, max: int) -> BufferAction {
    match outcome {
        Ok(rest_len) => BufferAction::CarryTail(rest_len as usize),
        Err(e) => if may_be_incomplete(e) {
            if len <= max {
                BufferAction::Accumulate
            } else {
                BufferAction::Surrender
            }
        } else {
            BufferAction::Reset
        },
    }
}

/// What becomes of a receive buffer of `len` bytes after an attempt to decode
/// it that ended in `outcome`, when at most `max` bytes are waited for.
pub fn decide(outcome: Result<usize, DecodeError>, len: usize, max: usize) -> (action: BufferAction)
    ensures
        action == action_after(
            match outcome {
                Ok(n) => Ok(n as int),
                Err(e) => Err(e),
            },
            len as int,
            max as int,
        ),
{
    match outcome {
        Ok(rest_len) => BufferAction::CarryTail(rest_len),
        Err(DecodeError::BadPacket) | Err(DecodeError::ReadEof) => {
            if len <= max {
                BufferAction::Accumulate
            } else {
                BufferAction::Surrender
            }
        },
        Err(_) => BufferAction::Reset,
    }
}

/// How decoding `bytes` ends, as far as the receive buffer is concerned.
pub open spec fn decode_outcome(bytes: Seq<u8>) -> Result<int, DecodeError> {
    match wire_decoded(bytes) {
        Ok(d) => Ok(d.rest_len),
        Err(e) => Err(e),
    }
}

/// The receive buffer after `action` on the bytes `bytes`.
pub open spec fn buffer_after(bytes: Seq<u8>, action: BufferAction) -> Seq<u8> {
    match action {
        BufferAction::CarryTail(rest_len) => if rest_len <= bytes.len() {
            bytes.skip(bytes.len() - rest_len)
        } else {
            bytes
        },
        BufferAction::Accumulate => bytes,
        BufferAction::Surrender => Seq::empty(),
        BufferAction::Reset => Seq::empty(),
    }
}

/// The receive buffer after the datagram `datagram` has come in on the buffer
/// `buffer`, when at most `max` bytes are waited for.
pub open spec fn next_buffer(buffer: Seq<u8>, datagram: Seq<u8>, max: int) -> Seq<u8> {
    let bytes = buffer + datagram;
    buffer_after(bytes, action_after(decode_outcome(bytes), bytes.len() as int, max))
}

/// The bytes of `datagrams`, one after another.
pub open spec fn concatenated(datagrams: Seq<Seq<u8>>) -> Seq<u8>
    decreases datagrams.len(),
{
    if datagrams.len() == 0 {
        Seq::empty()
    } else {
        concatenated(datagrams.drop_last()) + datagrams.last()
    }
}

/// The receive buffer after each of `datagrams` has come in, in order, on an
/// empty buffer.
pub open spec fn buffer_after_all(datagrams: Seq<Seq<u8>>, max: int) -> Seq<u8>
    decreases datagrams.len(),
{
    if datagrams.len() == 0 {
        Seq::empty()
    } else {
        next_buffer(buffer_after_all(datagrams.drop_last(), max), datagrams.last(), max)
    }
}

/// Whether each of `datagrams` leaves, with those before it, bytes that may be
/// the beginning of a packet and are not too many to wait for.
pub open spec fn all_fragments(datagrams: Seq<Seq<u8>>, max: int) -> bool
    decreases datagrams.len(),
{
    datagrams.len() > 0 ==> {
        &&& all_fragments(datagrams.drop_last(), max)
        &&& concatenated(datagrams).len() <= max
        &&& wire_decoded(concatenated(datagrams)) is Err
        &&& may_be_incomplete(wire_decoded(concatenated(datagrams))->Err_0)
    }
}

/// A packet that arrives in pieces is decoded from the same bytes as if it
/// had arrived in one: while the pieces so far are the beginning of a packet
/// and not too many, the buffer holds them all, so that the next datagram is
/// decoded together with them.
pub proof fn lemma_fragments_accumulate(datagrams: Seq<Seq<u8>>, max: int)
    requires
        all_fragments(datagrams, max),
    ensures
        buffer_after_all(datagrams, max) == concatenated(datagrams),
    decreases datagrams.len(),
{
    if datagrams.len() > 0 {
        lemma_fragments_accumulate(datagrams.drop_last(), max);
    }
}

/// What came of one datagram: how decoding went and what the handlers made of
/// the packet, what was done with the buffer, and, where the buffer was
/// surrendered, what the raw handlers made of its bytes.
pub struct Received<R, P, T> {
    pub outcome: Result<Handled<R, P, T>, DecodeFailure>,
    pub action: BufferAction,
    pub surrendered: Option<R>,
}

/// The state of a receive loop: the handlers with the bundles that wait, the
/// bytes received and not yet decoded, and the number of bytes up to which it
/// waits for the rest of a packet.
pub struct ReceiveLoop<H: MessageHandler, P: PacketHandler, R: RawPacketHandler> {
    handlers: MessageDestructuring<OscHandler<H>, OscHandler<P>, OscHandler<R>>,
    buffer: Vec<u8>,
    max_message_size: usize,
}

impl<H: MessageHandler, P: PacketHandler, R: RawPacketHandler> ReceiveLoop<H, P, R> {
    /// The bytes received and not yet decoded.
    pub closed spec fn buffered(&self) -> Seq<u8> {
        self.buffer@
    }

    /// The handlers, with the bundles that wait for their time.
    pub closed spec fn handlers(&self) -> MessageDestructuring<OscHandler<H>, OscHandler<P>, OscHandler<R>> {
        self.handlers
    }

    /// The bundles that wait for their time.
    pub open spec fn waiting(&self) -> Seq<DelayedModel> {
        self.handlers()@
    }

    /// The number of bytes up to which the loop waits for the rest of a packet.
    pub closed spec fn max_size(&self) -> int {
        self.max_message_size as int
    }

    /// A receive loop with these handlers, an empty buffer and no bundle waiting.
    pub fn new(
        message_handlers: Box<[H]>,
        packet_handlers: Box<[P]>,
        raw_packet_handlers: Box<[R]>,
        max_message_size: usize,
    ) -> (state: Self)
        ensures
            state.buffered() == Seq::<u8>::empty(),
            state.waiting() == Seq::<DelayedModel>::empty(),
            state.max_size() == max_message_size,
            state.handlers().messages().handlers() == message_handlers@,
            state.handlers().packets().handlers() == packet_handlers@,
            state.handlers().raws().handlers() == raw_packet_handlers@,
    {
        ReceiveLoop {
            handlers: MessageDestructuring::new(
                OscHandler::new(message_handlers),
                OscHandler::new(packet_handlers),
                OscHandler::new(raw_packet_handlers),
            ),
            buffer: Vec::new(),
            max_message_size,
        }
    }

    /// The number of bytes received and not yet decoded.
    pub fn buffered_len(&self) -> (n: usize)
        ensures
            n == self.buffered().len(),
    {
        self.buffer.len()
    }

    /// The number of bundles that wait. They are ordered by their release
    /// time, latest first.
    pub fn waiting_len(&self) -> (n: usize)
        ensures
            n == self.waiting().len(),
            latest_first(self.waiting()),
    {
        self.handlers.waiting()
    }

    /// Takes in a datagram at the instant `now`: the datagram joins the bytes
    /// in the buffer, and the first packet in them is decoded and handed out.
    /// The bytes after the packet stay in the buffer. Bytes that may be the
    /// beginning of a packet stay too, until they are more than the loop
    /// waits for: then the raw handlers get them as they are.
    pub fn on_datagram(&mut self, datagram: &[u8], now: i128) -> (received: Received<
        Vec<R::Output>,
        Vec<P::Output>,
        Vec<H::Output>,
    >)
        requires
            old(self).buffered().len() + datagram@.len() <= usize::MAX,
        ensures
            final(self).max_size() == old(self).max_size(),
            received.action == action_after(
                decode_outcome(old(self).buffered() + datagram@),
                (old(self).buffered() + datagram@).len() as int,
                old(self).max_size(),
            ),
            final(self).buffered() == next_buffer(old(self).buffered(), datagram@, old(self).max_size()),
            received.surrendered is Some <==> received.action == BufferAction::Surrender,
            received.action != BufferAction::Surrender ==> old(self).handlers().raw_handled(
                &final(self).handlers(),
                old(self).buffered() + datagram@,
                now as int,
                received.outcome,
            ),
            received.action == BufferAction::Surrender ==> received.outcome is Err && received.outcome->Err_0.kind
                == wire_decoded(old(self).buffered() + datagram@)->Err_0 && old(self).handlers().undecoded_handled(
                &final(self).handlers(),
                old(self).buffered() + datagram@,
                received.surrendered->Some_0,
            ),
    {
        self.buffer.extend_from_slice(datagram);
        let ghost bytes = self.buffer@;
        proof {
            assert(bytes =~= old(self).buffered() + datagram@);
        }
        let len = self.buffer.len();
        let outcome = self.handlers.handle_raw_packet_at(self.buffer.as_slice(), now);
        let action = match &outcome {
            Ok(h) => decide(Ok(h.rest_len), len, self.max_message_size),
            Err(e) => decide(Err(e.kind), len, self.max_message_size),
        };
        let mut surrendered: Option<Vec<R::Output>> = None;
        match action {
            BufferAction::CarryTail(rest_len) => {
                let tail = crate::text::skip_items(&self.buffer, len - rest_len);
                self.buffer = tail;
            },
            BufferAction::Accumulate => {},
            BufferAction::Surrender => {
                surrendered = Some(self.handlers.handle_undecoded(self.buffer.as_slice()));
                self.buffer = Vec::new();
            },
            BufferAction::Reset => {
                self.buffer = Vec::new();
            },
        }
        Received { outcome, action, surrendered }
    }

    /// Takes in a failure to receive: the bytes in the buffer are dropped.
    pub fn on_receive_error(&mut self)
        ensures
            final(self).buffered() == Seq::<u8>::empty(),
            final(self).handlers() == old(self).handlers(),
            final(self).max_size() == old(self).max_size(),
    {
        self.buffer = Vec::new();
    }

    /// Takes in a tick of the clock at the instant `now`: the bundles that are
    /// due are applied, earliest first. The buffer stays as it is.
    pub fn on_tick(&mut self, now: i128) -> (released: Vec<Released<Vec<H::Output>>>)
        ensures
            latest_first(old(self).waiting()),
            old(self).handlers().bundles_released(&final(self).handlers(), now as int, released@),
            final(self).buffered() == old(self).buffered(),
            final(self).max_size() == old(self).max_size(),
    {
        self.handlers.check_osc_bundles_at(now)
    }
}

} // verus!
