//! The packet tree: messages, bundles and their time tags.

use vstd::prelude::*;

verus! {

/// A time tag: seconds since 1900-01-01 and a binary fraction of a second.
#[derive(Clone, Copy, Debug, PartialEq, Eq, Structural)]
pub struct OscTime {
    pub seconds: u32,
    pub fractional: u32,
}

impl OscTime {
    /// The tag that asks for a bundle to be applied at once.
    pub open spec fn is_immediate(self) -> bool {
        self.seconds == 0 && self.fractional == 1
    }

    /// The tag that asks for a bundle to be applied at once.
    pub fn immediate() -> (tag: OscTime)
        ensures
            tag.is_immediate(),
            tag == (OscTime { seconds: 0, fractional: 1 }),
    {
        OscTime { seconds: 0, fractional: 1 }
    }
}

/// One argument of a message. A floating-point argument is held as its
/// IEEE 754 bit pattern.
#[derive(Debug)]
pub enum OscArg {
    Int(i32),
    Float(u32),
    String(String),
    Blob(Vec<u8>),
    Time(OscTime),
    Long(i64),
    Double(u64),
    Char(char),
    Color(u8, u8, u8, u8),
    Midi(u8, u8, u8, u8),
    Bool(bool),
    Array(Vec<OscArg>),
    Nil,
    Inf,
}

/// What an argument holds.
pub enum ArgModel {
    Int(i32),
    Float(u32),
    String(Seq<char>),
    Blob(Seq<u8>),
    Time(OscTime),
    Long(i64),
    Double(u64),
    Char(char),
    Color(u8, u8, u8, u8),
    Midi(u8, u8, u8, u8),
    Bool(bool),
    Array(Seq<ArgModel>),
    Nil,
    Inf,
}

/// What `arg` holds.
pub open spec fn arg_model(arg: OscArg) -> ArgModel
    decreases arg,
{
    match arg {
        OscArg::Int(v) => ArgModel::Int(v),
        OscArg::Float(v) => ArgModel::Float(v),
        OscArg::String(v) => ArgModel::String(v@),
        OscArg::Blob(v) => ArgModel::Blob(v@),
        OscArg::Time(v) => ArgModel::Time(v),
        OscArg::Long(v) => ArgModel::Long(v),
        OscArg::Double(v) => ArgModel::Double(v),
        OscArg::Char(v) => ArgModel::Char(v),
        OscArg::Color(r, g, b, a) => ArgModel::Color(r, g, b, a),
        OscArg::Midi(p, s, d1, d2) => ArgModel::Midi(p, s, d1, d2),
        OscArg::Bool(v) => ArgModel::Bool(v),
        OscArg::Array(v) => ArgModel::Array(
            Seq::new(
                v@.len(),
                |i: int|
                    if 0 <= i < v@.len() {
                        arg_model(v@[i])
                    } else {
                        ArgModel::Nil
                    },
            ),
        ),
        OscArg::Nil => ArgModel::Nil,
        OscArg::Inf => ArgModel::Inf,
    }
}

impl View for OscArg {
    type V = ArgModel;

    open spec fn view(&self) -> ArgModel {
        arg_model(*self)
    }
}

/// What each of `args` holds, in order.
pub open spec fn arg_models(args: Seq<OscArg>) -> Seq<ArgModel> {
    Seq::new(args.len(), |i: int| args[i]@)
}

/// The view of an array argument is the list of its items' views.
pub proof fn lemma_array_model(items: Vec<OscArg>)
    ensures
        OscArg::Array(items)@ == ArgModel::Array(arg_models(items@)),
{
    assert(OscArg::Array(items)@->Array_0 =~= arg_models(items@));
}

/// A copy of each of `args`, in order.
pub fn duplicate_args(args: &Vec<OscArg>) -> (copy: Vec<OscArg>)
    ensures
        arg_models(copy@) == arg_models(args@),
    decreases args,
{
    let mut out: Vec<OscArg> = Vec::new();
    let mut i: usize = 0;
    while i < args.len()
        invariant
            i <= args.len(),
            out@.len() == i,
            forall|k: int| 0 <= k < i ==> (#[trigger] out@[k])@ == args@[k]@,
        decreases args.len() - i,
    {
        proof {
            vstd::std_specs::vec::axiom_vec_index_decreases(*args, i as int);
        }
        out.push(args[i].duplicate());
        i += 1;
    }
    proof {
        assert(arg_models(out@) =~= arg_models(args@));
    }
    out
}

impl OscArg {
    /// A copy of the argument.
    pub fn duplicate(&self) -> (copy: OscArg)
        ensures
            copy@ == self@,
        decreases self,
    {
        match self {
            OscArg::Int(v) => OscArg::Int(*v),
            OscArg::Float(v) => OscArg::Float(*v),
            OscArg::String(v) => OscArg::String(v.clone()),
            OscArg::Blob(v) => OscArg::Blob(v.clone()),
            OscArg::Time(v) => OscArg::Time(*v),
            OscArg::Long(v) => OscArg::Long(*v),
            OscArg::Double(v) => OscArg::Double(*v),
            OscArg::Char(v) => OscArg::Char(*v),
            OscArg::Color(r, g, b, a) => OscArg::Color(*r, *g, *b, *a),
            OscArg::Midi(p, s, d1, d2) => OscArg::Midi(*p, *s, *d1, *d2),
            OscArg::Bool(v) => OscArg::Bool(*v),
            OscArg::Array(v) => {
                let items = duplicate_args(v);
                proof {
                    lemma_array_model(items);
                    lemma_array_model(*v);
                }
                OscArg::Array(items)
            },
            OscArg::Nil => OscArg::Nil,
            OscArg::Inf => OscArg::Inf,
        }
    }
}

impl Clone for OscArg {
    fn clone(&self) -> (copy: Self)
        ensures
            copy@ == self@,
    {
        self.duplicate()
    }
}

/// An address and its arguments.
#[derive(Debug)]
pub struct OscMessage {
    pub addr: String,
    pub args: Vec<OscArg>,
}

/// What a message holds.
pub struct MessageModel {
    pub addr: Seq<char>,
    pub args: Seq<ArgModel>,
}

impl View for OscMessage {
    type V = MessageModel;

    open spec fn view(&self) -> MessageModel {
        MessageModel { addr: self.addr@, args: arg_models(self.args@) }
    }
}

impl OscMessage {
    /// A copy of the message.
    pub fn duplicate(&self) -> (copy: OscMessage)
        ensures
            copy@ == self@,
    {
        OscMessage { addr: self.addr.clone(), args: duplicate_args(&self.args) }
    }
}

impl Clone for OscMessage {
    fn clone(&self) -> (copy: Self)
        ensures
            copy@ == self@,
    {
        self.duplicate()
    }
}

/// A time tag and the packets that are to be applied at that time.
#[derive(Debug)]
pub struct OscBundle {
    pub timetag: OscTime,
    pub content: Vec<Packet>,
}

/// A message or a bundle.
#[derive(Debug)]
pub enum Packet {
    Message(OscMessage),
    Bundle(OscBundle),
}

/// What a bundle holds.
pub struct BundleModel {
    pub timetag: OscTime,
    pub content: Seq<PacketModel>,
}

/// What a packet holds.
pub enum PacketModel {
    Message(MessageModel),
    Bundle(BundleModel),
}

/// What `packet` holds.
pub open spec fn packet_model(packet: Packet) -> PacketModel
    decreases packet,
{
    match packet {
        Packet::Message(m) => PacketModel::Message(m@),
        Packet::Bundle(b) => PacketModel::Bundle(
            BundleModel {
                timetag: b.timetag,
                content: Seq::new(
                    b.content@.len(),
                    |i: int|
                        if 0 <= i < b.content@.len() {
                            packet_model(b.content@[i])
                        } else {
                            PacketModel::Bundle(BundleModel { timetag: b.timetag, content: Seq::empty() })
                        },
                ),
            },
        ),
    }
}

impl View for Packet {
    type V = PacketModel;

    open spec fn view(&self) -> PacketModel {
        packet_model(*self)
    }
}

/// What each of `packets` holds, in order.
pub open spec fn packet_models(packets: Seq<Packet>) -> Seq<PacketModel> {
    Seq::new(packets.len(), |i: int| packets[i]@)
}

impl View for OscBundle {
    type V = BundleModel;

    open spec fn view(&self) -> BundleModel {
        BundleModel { timetag: self.timetag, content: packet_models(self.content@) }
    }
}

/// The view of a bundle packet is the view of its bundle.
pub proof fn lemma_bundle_model(bundle: OscBundle)
    ensures
        Packet::Bundle(bundle)@ == PacketModel::Bundle(bundle@),
{
    assert(Packet::Bundle(bundle)@->Bundle_0.content =~= packet_models(bundle.content@));
}

/// A copy of each of `packets`, in order.
pub fn duplicate_packets(packets: &Vec<Packet>) -> (copy: Vec<Packet>)
    ensures
        packet_models(copy@) == packet_models(packets@),
    decreases packets,
{
    let mut out: Vec<Packet> = Vec::new();
    let mut i: usize = 0;
    while i < packets.len()
        invariant
            i <= packets.len(),
            out@.len() == i,
            forall|k: int| 0 <= k < i ==> (#[trigger] out@[k])@ == packets@[k]@,
        decreases packets.len() - i,
    {
        proof {
            vstd::std_specs::vec::axiom_vec_index_decreases(*packets, i as int);
        }
        out.push(packets[i].duplicate());
        i += 1;
    }
    proof {
        assert(packet_models(out@) =~= packet_models(packets@));
    }
    out
}

impl OscBundle {
    /// A copy of the bundle.
    pub fn duplicate(&self) -> (copy: OscBundle)
        ensures
            copy@ == self@,
        decreases self,
    {
        OscBundle { timetag: self.timetag, content: duplicate_packets(&self.content) }
    }
}

impl Clone for OscBundle {
    fn clone(&self) -> (copy: Self)
        ensures
            copy@ == self@,
    {
        self.duplicate()
    }
}

impl Packet {
    /// A copy of the packet.
    pub fn duplicate(&self) -> (copy: Packet)
        ensures
            copy@ == self@,
        decreases self,
    {
        match self {
            Packet::Message(m) => Packet::Message(m.duplicate()),
            Packet::Bundle(b) => {
                let copy = b.duplicate();
                proof {
                    lemma_bundle_model(copy);
                    lemma_bundle_model(*b);
                }
                Packet::Bundle(copy)
            },
        }
    }
}

impl Clone for Packet {
    fn clone(&self) -> (copy: Self)
        ensures
            copy@ == self@,
    {
        self.duplicate()
    }
}

/// The messages of `packet` in depth-first order, whatever the time tags say.
pub open spec fn all_messages(packet: PacketModel) -> Seq<MessageModel>
    decreases packet, 0nat,
{
    match packet {
        PacketModel::Message(m) => seq![m],
        PacketModel::Bundle(b) => all_messages_of(b.content),
    }
}

/// The messages of each of `packets` in depth-first order, one packet after another.
pub open spec fn all_messages_of(packets: Seq<PacketModel>) -> Seq<MessageModel>
    decreases packets, 1nat,
{
    if packets.len() == 0 {
        Seq::empty()
    } else {
        all_messages_of(packets.drop_last()) + all_messages(packets.last())
    }
}

} // verus!
