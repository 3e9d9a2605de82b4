//! Handlers for the three things a receiver hands out: messages, packets and
//! raw datagrams. A handler may be one of many behind an `OscHandler`.

use vstd::prelude::*;
use crate::packet::{MessageModel, OscMessage, Packet, PacketModel};

verus! {

/// Takes each message that is applied.
pub trait MessageHandler {
    type Output;

    /// What the handler promises of one call: `self` is the handler as it was
    /// when a message came in, `after` the handler as the call left it, and
    /// `output` what the call gave. A handler that says nothing promises
    /// nothing.
    open spec fn answers(&self, after: &Self, message: MessageModel, output: Self::Output) -> bool {
        true
    }

    fn handle(&mut self, message: &OscMessage) -> (output: Self::Output)
        ensures
            old(self).answers(final(self), message@, output),
    ;
}

/// Takes each packet that was decoded, whole.
pub trait PacketHandler {
    type Output;

    /// What the handler promises of one call: `self` is the handler as it was
    /// when a packet came in, `after` the handler as the call left it, and
    /// `output` what the call gave. A handler that says nothing promises
    /// nothing.
    open spec fn answers(&self, after: &Self, packet: PacketModel, output: Self::Output) -> bool {
        true
    }

    fn handle(&mut self, packet: &Packet) -> (output: Self::Output)
        ensures
            old(self).answers(final(self), packet@, output),
    ;
}

/// Takes the bytes of each datagram.
pub trait RawPacketHandler {
    type Output;

    /// What the handler promises of one call: `self` is the handler as it was
    /// when a datagram came in, `after` the handler as the call left it, and
    /// `output` what the call gave. A handler that says nothing promises
    /// nothing.
    open spec fn answers(&self, after: &Self, bytes: Seq<u8>, output: Self::Output) -> bool {
        true
    }

    fn handle(&mut self, bytes: &[u8]) -> (output: Self::Output)
        ensures
            old(self).answers(final(self), bytes@, output),
    ;
}

/// Several handlers of one kind that act as one: each call goes to every one
/// of them, in order.
pub struct OscHandler<T> {
    handlers: Box<[T]>,
}

impl<T> OscHandler<T> {
    /// The handlers held, in order.
    pub closed spec fn handlers(&self) -> Seq<T> {
        self.handlers@
    }

    /// A handler that passes each call on to `handlers`, in order.
    pub fn new(handlers: Box<[T]>) -> (handler: Self)
        ensures
            handler.handlers() == handlers@,
    {
        Self { handlers }
    }

    /// The number of handlers held.
    pub fn len(&self) -> (n: usize)
        ensures
            n == self.handlers().len(),
    {
        self.handlers.len()
    }
}

impl<T: MessageHandler> MessageHandler for OscHandler<T> {
    type Output = Vec<T::Output>;

    /// There is one output for each handler, in order, and each handler
    /// keeps its own promise for the output at its place.
    open spec fn answers(&self, after: &Self, message: MessageModel, outputs: Vec<T::Output>) -> bool {
        &&& after.handlers().len() == self.handlers().len()
        &&& outputs@.len() == self.handlers().len()
        &&& forall|i: int|
            0 <= i < outputs@.len() ==> self.handlers()[i].answers(
                &after.handlers()[i],
                message,
                #[trigger] outputs@[i],
            )
    }

    fn handle(&mut self, message: &OscMessage) -> (outputs: Vec<T::Output>) {
        let mut outputs: Vec<T::Output> = Vec::new();
        let n = self.handlers.len();
        let mut i: usize = 0;
        while i < n
            invariant
                i <= n,
                n == self.handlers@.len(),
                n == old(self).handlers@.len(),
                outputs@.len() == i,
                forall|k: int|
                    0 <= k < i ==> old(self).handlers@[k].answers(
                        &self.handlers@[k],
                        message@,
                        #[trigger] outputs@[k],
                    ),
                forall|k: int| i <= k < n ==> self.handlers@[k] == old(self).handlers@[k],
            decreases n - i,
        {
            let out = self.handlers[i].handle(message);
            outputs.push(out);
            i += 1;
        }
        outputs
    }
}

impl<T: PacketHandler> PacketHandler for OscHandler<T> {
    type Output = Vec<T::Output>;

    /// There is one output for each handler, in order, and each handler
    /// keeps its own promise for the output at its place.
    open spec fn answers(&self, after: &Self, packet: PacketModel, outputs: Vec<T::Output>) -> bool {
        &&& after.handlers().len() == self.handlers().len()
        &&& outputs@.len() == self.handlers().len()
        &&& forall|i: int|
            0 <= i < outputs@.len() ==> self.handlers()[i].answers(
                &after.handlers()[i],
                packet,
                #[trigger] outputs@[i],
            )
    }

    fn handle(&mut self, packet: &Packet) -> (outputs: Vec<T::Output>) {
        let mut outputs: Vec<T::Output> = Vec::new();
        let n = self.handlers.len();
        let mut i: usize = 0;
        while i < n
            invariant
                i <= n,
                n == self.handlers@.len(),
                n == old(self).handlers@.len(),
                outputs@.len() == i,
                forall|k: int|
                    0 <= k < i ==> old(self).handlers@[k].answers(
                        &self.handlers@[k],
                        packet@,
                        #[trigger] outputs@[k],
                    ),
                forall|k: int| i <= k < n ==> self.handlers@[k] == old(self).handlers@[k],
            decreases n - i,
        {
            let out = self.handlers[i].handle(packet);
            outputs.push(out);
            i += 1;
        }
        outputs
    }
}

impl<T: RawPacketHandler> RawPacketHandler for OscHandler<T> {
    type Output = Vec<T::Output>;

    /// There is one output for each handler, in order, and each handler
    /// keeps its own promise for the output at its place.
    open spec fn answers(&self, after: &Self, bytes: Seq<u8>, outputs: Vec<T::Output>) -> bool {
        &&& after.handlers().len() == self.handlers().len()
        &&& outputs@.len() == self.handlers().len()
        &&& forall|i: int|
            0 <= i < outputs@.len() ==> self.handlers()[i].answers(
                &after.handlers()[i],
                bytes,
                #[trigger] outputs@[i],
            )
    }

    fn handle(&mut self, bytes: &[u8]) -> (outputs: Vec<T::Output>) {
        let mut outputs: Vec<T::Output> = Vec::new();
        let n = self.handlers.len();
        let mut i: usize = 0;
        while i < n
            invariant
                i <= n,
                n == self.handlers@.len(),
                n == old(self).handlers@.len(),
                outputs@.len() == i,
                forall|k: int|
                    0 <= k < i ==> old(self).handlers@[k].answers(
                        &self.handlers@[k],
                        bytes@,
                        #[trigger] outputs@[k],
                    ),
                forall|k: int| i <= k < n ==> self.handlers@[k] == old(self).handlers@[k],
            decreases n - i,
        {
            let out = self.handlers[i].handle(bytes);
            outputs.push(out);
            i += 1;
        }
        outputs
    }
}

/// A handler that does nothing.
#[derive(Clone, Copy, Debug, Default)]
pub struct StubHandler;

impl MessageHandler for StubHandler {
    type Output = ();

    fn handle(&mut self, message: &OscMessage) -> (output: ()) {
        ()
    }
}

impl PacketHandler for StubHandler {
    type Output = ();

    fn handle(&mut self, packet: &Packet) -> (output: ()) {
        ()
    }
}

impl RawPacketHandler for StubHandler {
    type Output = ();

    fn handle(&mut self, bytes: &[u8]) -> (output: ()) {
        ()
    }
}

/// The message handler of a session: the avatar key handler, or none.
pub enum MessageHandlers<T> {
    Dex(T),
    Stub(StubHandler),
}

impl<T: MessageHandler> MessageHandler for MessageHandlers<T> {
    type Output = Option<T::Output>;

    /// The handler that is there gives an output and keeps its promise;
    /// where there is none, there is no output.
    open spec fn answers(&self, after: &Self, message: MessageModel, output: Option<T::Output>) -> bool {
        match *self {
            MessageHandlers::Dex(handler) => *after is Dex && output is Some && handler.answers(
                &after->Dex_0,
                message,
                output->Some_0,
            ),
            MessageHandlers::Stub(_) => *after is Stub && output is None,
        }
    }

    fn handle(&mut self, message: &OscMessage) -> (output: Option<T::Output>) {
        match self {
            MessageHandlers::Dex(handler) => Some(handler.handle(message)),
            MessageHandlers::Stub(_) => None,
        }
    }
}

/// The packet handler of a session: the one that forwards decoded packets, or none.
pub enum PacketHandlers<T> {
    Multiplexer(T),
    Stub(StubHandler),
}

impl<T: PacketHandler> PacketHandler for PacketHandlers<T> {
    type Output = Option<T::Output>;

    /// The handler that is there gives an output and keeps its promise;
    /// where there is none, there is no output.
    open spec fn answers(&self, after: &Self, packet: PacketModel, output: Option<T::Output>) -> bool {
        match *self {
            PacketHandlers::Multiplexer(handler) => *after is Multiplexer && output is Some && handler.answers(
                &after->Multiplexer_0,
                packet,
                output->Some_0,
            ),
            PacketHandlers::Stub(_) => *after is Stub && output is None,
        }
    }

    fn handle(&mut self, packet: &Packet) -> (output: Option<T::Output>) {
        match self {
            PacketHandlers::Multiplexer(handler) => Some(handler.handle(packet)),
            PacketHandlers::Stub(_) => None,
        }
    }
}

/// The raw handler of a session: the one that forwards datagrams, or none.
pub enum RawPacketHandlers<T> {
    Multiplexer(T),
    Stub(StubHandler),
}

impl<T: RawPacketHandler> RawPacketHandler for RawPacketHandlers<T> {
    type Output = Option<T::Output>;

    /// The handler that is there gives an output and keeps its promise;
    /// where there is none, there is no output.
    open spec fn answers(&self, after: &Self, bytes: Seq<u8>, output: Option<T::Output>) -> bool {
        match *self {
            RawPacketHandlers::Multiplexer(handler) => *after is Multiplexer && output is Some && handler.answers(
                &after->Multiplexer_0,
                bytes,
                output->Some_0,
            ),
            RawPacketHandlers::Stub(_) => *after is Stub && output is None,
        }
    }

    fn handle(&mut self, bytes: &[u8]) -> (output: Option<T::Output>) {
        match self {
            RawPacketHandlers::Multiplexer(handler) => Some(handler.handle(bytes)),
            RawPacketHandlers::Stub(_) => None,
        }
    }
}

} // verus!
