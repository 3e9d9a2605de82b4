//! The parameter writes that unlock an avatar, and the packets that carry them.

use vstd::prelude::*;
use crate::address::{parameter_address, parameter_prefix};
use crate::packet::{
    lemma_bundle_model, packet_models, ArgModel, BundleModel, MessageModel, OscArg, OscBundle,
    OscMessage, Packet, OscTime, PacketModel,
};

verus! {

/// One write of a key, ready to send: the name of the parameter and the
/// single-precision number that it is to take, as its bit pattern.
#[derive(Clone, Debug)]
pub struct ParameterWrite {
    pub name: String,
    pub bits: u32,
}

/// What a parameter write holds.
pub struct WriteModel {
    pub name: Seq<char>,
    pub bits: u32,
}

impl View for ParameterWrite {
    type V = WriteModel;

    open spec fn view(&self) -> WriteModel {
        WriteModel { name: self.name@, bits: self.bits }
    }
}

/// What each of `writes` holds, in order.
pub open spec fn write_models(writes: Seq<ParameterWrite>) -> Seq<WriteModel> {
    Seq::new(writes.len(), |i: int| writes[i]@)
}

/// The message that carries a write: the parameter's address and the number
/// as its one argument.
pub open spec fn write_message(write: WriteModel) -> MessageModel {
    MessageModel { addr: parameter_prefix() + write.name, args: seq![ArgModel::Float(write.bits)] }
}

/// The messages that carry `writes`, one each, in order.
pub open spec fn write_packets(writes: Seq<WriteModel>) -> Seq<PacketModel> {
    Seq::new(writes.len(), |i: int| PacketModel::Message(write_message(writes[i])))
}

/// The packets to send for `writes`. Singly, each write is a message of its
/// own, in order. Bundled, there is one bundle to be applied at once, which
/// holds those messages in order.
pub open spec fn unlock_plan(writes: Seq<WriteModel>, use_bundles: bool) -> Seq<PacketModel> {
    if use_bundles {
        seq![
            PacketModel::Bundle(
                BundleModel { timetag: OscTime { seconds: 0, fractional: 1 }, content: write_packets(writes) },
            ),
        ]
    } else {
        write_packets(writes)
    }
}

impl ParameterWrite {
    /// The message that carries the write.
    pub fn message(&self) -> (m: OscMessage)
        ensures
            m@ == write_message(self@),
    {
        let mut args: Vec<OscArg> = Vec::new();
        args.push(OscArg::Float(self.bits));
        let m = OscMessage { addr: parameter_address(self.name.as_str()), args };
        proof {
            assert(m@.args =~= seq![ArgModel::Float(self.bits)]);
        }
        m
    }
}

/// The packets to send for `writes`, singly or in one bundle.
pub fn unlock_packets(writes: &Vec<ParameterWrite>, use_bundles: bool) -> (packets: Vec<Packet>)
    ensures
        packet_models(packets@) == unlock_plan(write_models(writes@), use_bundles),
        !use_bundles ==> packets@.len() == writes@.len(),
        use_bundles ==> packets@.len() == 1,
{
    let mut messages: Vec<Packet> = Vec::new();
    let mut i: usize = 0;
    while i < writes.len()
        invariant
            i <= writes.len(),
            messages@.len() == i,
            forall|k: int| 0 <= k < i ==> (#[trigger] messages@[k])@ == PacketModel::Message(write_message(writes@[k]@)),
        decreases writes.len() - i,
    {
        messages.push(Packet::Message(writes[i].message()));
        i += 1;
    }
    proof {
        assert(packet_models(messages@) =~= write_packets(write_models(writes@)));
    }
    if use_bundles {
        let bundle = OscBundle { timetag: OscTime::immediate(), content: messages };
        proof {
            lemma_bundle_model(bundle);
        }
        let mut packets: Vec<Packet> = Vec::new();
        packets.push(Packet::Bundle(bundle));
        proof {
            assert(packet_models(packets@) =~= unlock_plan(write_models(writes@), use_bundles));
        }
        packets
    } else {
        messages
    }
}

/// A key of N writes is sent as N messages in the order of the key, one for
/// each write, when sent singly, and as one bundle to be applied at once,
/// which holds those N messages in that order, when bundled.
pub proof fn lemma_unlock_plan(writes: Seq<WriteModel>)
    ensures
        unlock_plan(writes, false).len() == writes.len(),
        forall|i: int|
            0 <= i < writes.len() ==> #[trigger] unlock_plan(writes, false)[i] == PacketModel::Message(
                write_message(writes[i]),
            ),
        unlock_plan(writes, true).len() == 1,
        unlock_plan(writes, true)[0] is Bundle,
        unlock_plan(writes, true)[0]->Bundle_0.timetag.is_immediate(),
        unlock_plan(writes, true)[0]->Bundle_0.content.len() == writes.len(),
        forall|i: int|
            0 <= i < writes.len() ==> #[trigger] unlock_plan(writes, true)[0]->Bundle_0.content[i]
                == PacketModel::Message(write_message(writes[i])),
{
}

} // verus!
