//! The wire codec: from the bytes of a datagram to a packet tree, and back.

use vstd::prelude::*;
use nom::error::ErrorKind;
use rosc::{OscError, OscType};
use crate::packet::{OscArg, OscBundle, OscMessage, Packet, OscTime, PacketModel};

verus! {

/// The packet of `rosc`, as the decoder hands it out.
#[verifier::external_type_specification]
#[verifier::external_body]
pub struct ExWirePacket(rosc::OscPacket);

/// The argument of `rosc`.
#[verifier::external_type_specification]
#[verifier::external_body]
pub struct ExWireArg(OscType);

/// The error of `rosc`.
#[verifier::external_type_specification]
#[verifier::external_body]
pub struct ExWireError(OscError);

/// Why bytes could not be decoded.
#[derive(Clone, Copy, Debug, PartialEq, Eq, Structural)]
pub enum DecodeError {
    /// A string is no valid UTF-8.
    StringError,
    /// The bytes end before the packet does.
    ReadEof,
    /// The bytes could not be read, for another reason than their end.
    ReadError,
    BadChar,
    BadPacket,
    BadMessage,
    BadString,
    BadArg,
    BadBundle,
    BadAddressPattern,
    BadAddress,
    RegexError,
    Unimplemented,
}

/// Why bytes could not be decoded: the kind of the failure, and the reason in
/// the decoder's own words, for the log.
#[derive(Clone, Debug)]
pub struct DecodeFailure {
    pub kind: DecodeError,
    pub reason: String,
}

/// Tells the variants of `rosc::OscError` apart, and among the read errors
/// the one for the end of the input.
#[verifier::external_body]
fn error_from_wire(e: OscError) -> (kind: DecodeError)
{
    match e {
        OscError::StringError(_) => DecodeError::StringError,
        OscError::ReadError(ErrorKind::Eof) => DecodeError::ReadEof,
        OscError::ReadError(_) => DecodeError::ReadError,
        OscError::BadChar(_) => DecodeError::BadChar,
        OscError::BadPacket(_) => DecodeError::BadPacket,
        OscError::BadMessage(_) => DecodeError::BadMessage,
        OscError::BadString(_) => DecodeError::BadString,
        OscError::BadArg(_) => DecodeError::BadArg,
        OscError::BadBundle(_) => DecodeError::BadBundle,
        OscError::BadAddressPattern(_) => DecodeError::BadAddressPattern,
        OscError::BadAddress(_) => DecodeError::BadAddress,
        OscError::RegexError(_) => DecodeError::RegexError,
        OscError::Unimplemented => DecodeError::Unimplemented,
    }
}

/// Moves an argument of `rosc` into this library's type, variant for variant;
/// a floating-point number becomes its bit pattern. The variants that hold
/// more than one value are left to `compound_from_wire`.
#[verifier::external_body]
fn arg_from_wire(arg: OscType) -> (r: OscArg)
{
    match arg {
        OscType::Int(v) => OscArg::Int(v),
        OscType::Float(v) => OscArg::Float(v.to_bits()),
        OscType::String(v) => OscArg::String(v),
        OscType::Blob(v) => OscArg::Blob(v),
        OscType::Long(v) => OscArg::Long(v),
        OscType::Double(v) => OscArg::Double(v.to_bits()),
        OscType::Char(v) => OscArg::Char(v),
        OscType::Bool(v) => OscArg::Bool(v),
        OscType::Inf => OscArg::Inf,
        other => compound_from_wire(other),
    }
}

/// Moves a time tag, a colour, a MIDI message or an array of `rosc` into this
/// library's type, field for field. Of the variants that `arg_from_wire`
/// leaves to it, the one that is none of these is `Nil`.
#[verifier::external_body]
fn compound_from_wire(arg: OscType) -> (r: OscArg)
{
    match arg {
        OscType::Time(v) => OscArg::Time(OscTime { seconds: v.seconds, fractional: v.fractional }),
        OscType::Color(v) => OscArg::Color(v.red, v.green, v.blue, v.alpha),
        OscType::Midi(v) => OscArg::Midi(v.port, v.status, v.data1, v.data2),
        OscType::Array(v) => OscArg::Array(v.content.into_iter().map(arg_from_wire).collect()),
        _ => OscArg::Nil,
    }
}

/// Moves a packet of `rosc` into this library's type, field for field.
#[verifier::external_body]
fn packet_from_wire(packet: rosc::OscPacket) -> (r: Packet)
{
    match packet {
        rosc::OscPacket::Message(m) => Packet::Message(
            OscMessage { addr: m.addr, args: m.args.into_iter().map(arg_from_wire).collect() },
        ),
        rosc::OscPacket::Bundle(b) => Packet::Bundle(
            OscBundle {
                timetag: OscTime { seconds: b.timetag.seconds, fractional: b.timetag.fractional },
                content: b.content.into_iter().map(packet_from_wire).collect(),
            },
        ),
    }
}

/// A packet and the number of bytes that follow it in the input.
pub struct Decoded {
    pub packet: Packet,
    pub rest_len: usize,
}

/// What a decoded packet holds.
pub struct DecodedModel {
    pub packet: PacketModel,
    pub rest_len: int,
}

/// The outcome of decoding, with the packet as its model.
pub open spec fn decode_view(outcome: Result<Decoded, DecodeFailure>) -> Result<DecodedModel, DecodeError> {
    match outcome {
        Ok(d) => Ok(DecodedModel { packet: d.packet@, rest_len: d.rest_len as int }),
        Err(e) => Err(e.kind),
    }
}

/// What the codec makes of `bytes`: the first packet in them and the number of
/// bytes that follow it, or the reason why there is none.
pub uninterp spec fn wire_decoded(bytes: Seq<u8>) -> Result<DecodedModel, DecodeError>;

/// Calls `rosc::decoder::decode_udp`. The result is a function of the bytes,
/// named `wire_decoded`. The bytes that the decoder leaves over are the end of
/// the input, so there are no more of them than the input has. Of a failure
/// the reason is the error as `rosc` prints it; nothing is said of the text.
#[verifier::external_body]
fn decode_wire(bytes: &[u8]) -> (outcome: Result<Decoded, DecodeFailure>)
    ensures
        decode_view(outcome) == wire_decoded(bytes@),
        outcome is Ok ==> outcome->Ok_0.rest_len <= bytes@.len(),
{
    match rosc::decoder::decode_udp(bytes) {
        Ok((rest, packet)) => Ok(Decoded { packet: packet_from_wire(packet), rest_len: rest.len() }),
        Err(e) => Err(DecodeFailure { reason: format!("{e}"), kind: error_from_wire(e) }),
    }
}

/// Decodes the first packet in `bytes`.
pub fn decode(bytes: &[u8]) -> (outcome: Result<Decoded, DecodeFailure>)
    ensures
        decode_view(outcome) == wire_decoded(bytes@),
        outcome is Ok ==> outcome->Ok_0.rest_len <= bytes@.len(),
{
    decode_wire(bytes)
}

/// The error of the codec, which has one kind of error for both directions.
pub type EncodeError = DecodeError;

/// Calls `nom::number::complete::be_f32` on the four bytes of `bits`, most
/// significant first: the single-precision number with that bit pattern, as
/// an argument of `rosc`.
#[verifier::external_body]
fn single_to_wire(bits: u32) -> (r: OscType)
{
    let bytes = bits.to_be_bytes();
    let read = nom::number::complete::be_f32::<_, ()>(&bytes[..]);
    OscType::Float(read.map(|r| r.1).unwrap_or_default())
}

/// Calls `nom::number::complete::be_f64` on the eight bytes of `bits`, most
/// significant first: the double-precision number with that bit pattern, as
/// an argument of `rosc`.
#[verifier::external_body]
fn double_to_wire(bits: u64) -> (r: OscType)
{
    let bytes = bits.to_be_bytes();
    let read = nom::number::complete::be_f64::<_, ()>(&bytes[..]);
    OscType::Double(read.map(|r| r.1).unwrap_or_default())
}

/// Moves an argument of this library into `rosc`'s type, variant for variant.
/// The variants that hold more than one value are left to `compound_to_wire`.
#[verifier::external_body]
fn arg_to_wire(arg: &OscArg) -> (r: OscType)
{
    match arg {
        OscArg::Int(v) => OscType::Int(*v),
        OscArg::Float(v) => single_to_wire(*v),
        OscArg::String(v) => OscType::String(v.clone()),
        OscArg::Blob(v) => OscType::Blob(v.clone()),
        OscArg::Long(v) => OscType::Long(*v),
        OscArg::Double(v) => double_to_wire(*v),
        OscArg::Char(v) => OscType::Char(*v),
        OscArg::Bool(v) => OscType::Bool(*v),
        OscArg::Inf => OscType::Inf,
        other => compound_to_wire(other),
    }
}

/// Moves a time tag, a colour, a MIDI message or an array of this library
/// into `rosc`'s type, field for field. Of the variants that `arg_to_wire`
/// leaves to it, the one that is none of these is `Nil`.
#[verifier::external_body]
fn compound_to_wire(arg: &OscArg) -> (r: OscType)
{
    match arg {
        OscArg::Time(v) => OscType::Time(rosc::OscTime { seconds: v.seconds, fractional: v.fractional }),
        OscArg::Color(r, g, b, a) => OscType::Color(rosc::OscColor { red: *r, green: *g, blue: *b, alpha: *a }),
        OscArg::Midi(p, s, d, e) => OscType::Midi(rosc::OscMidiMessage { port: *p, status: *s, data1: *d, data2: *e }),
        OscArg::Array(v) => OscType::Array(rosc::OscArray { content: v.iter().map(arg_to_wire).collect() }),
        _ => OscType::Nil,
    }
}

/// Moves a packet of this library into `rosc`'s type, field for field.
#[verifier::external_body]
fn packet_to_wire(packet: &Packet) -> (r: rosc::OscPacket)
{
    match packet {
        Packet::Message(m) => rosc::OscPacket::Message(
            rosc::OscMessage { addr: m.addr.clone(), args: m.args.iter().map(arg_to_wire).collect() },
        ),
        Packet::Bundle(b) => rosc::OscPacket::Bundle(
            rosc::OscBundle {
                timetag: rosc::OscTime { seconds: b.timetag.seconds, fractional: b.timetag.fractional },
                content: b.content.iter().map(packet_to_wire).collect(),
            },
        ),
    }
}

/// The outcome of encoding, with the bytes as a sequence.
pub open spec fn encode_view(outcome: Result<Vec<u8>, EncodeError>) -> Result<Seq<u8>, EncodeError> {
    match outcome {
        Ok(bytes) => Ok(bytes@),
        Err(e) => Err(e),
    }
}

/// What the codec makes of a packet: its bytes on the wire.
pub uninterp spec fn wire_encoded(packet: PacketModel) -> Result<Seq<u8>, EncodeError>;

/// Calls `rosc::encoder::encode`. The result is a function of the packet,
/// named `wire_encoded`. The encoder writes into a vector, which takes
/// whatever is written, and so it always gives the bytes.
#[verifier::external_body]
fn encode_wire(packet: &Packet) -> (outcome: Result<Vec<u8>, EncodeError>)
    ensures
        encode_view(outcome) == wire_encoded(packet@),
        outcome is Ok,
{
    rosc::encoder::encode(&packet_to_wire(packet)).map_err(error_from_wire)
}

/// Encodes a packet.
pub fn encode(packet: &Packet) -> (outcome: Result<Vec<u8>, EncodeError>)
    ensures
        encode_view(outcome) == wire_encoded(packet@),
        outcome is Ok,
{
    encode_wire(packet)
}

/// Encodes each of `packets`, in order. One that does not encode does not keep
/// the others from being encoded.
pub fn encode_each(packets: &Vec<Packet>) -> (outcomes: Vec<Result<Vec<u8>, EncodeError>>)
    ensures
        outcomes@.len() == packets@.len(),
        forall|i: int| 0 <= i < outcomes@.len() ==> encode_view(#[trigger] outcomes@[i]) == wire_encoded(packets@[i]@),
{
    let mut outcomes: Vec<Result<Vec<u8>, EncodeError>> = Vec::new();
    let mut i: usize = 0;
    while i < packets.len()
        invariant
            i <= packets.len(),
            outcomes@.len() == i,
            forall|k: int| 0 <= k < i ==> encode_view(#[trigger] outcomes@[k]) == wire_encoded(packets@[k]@),
        decreases packets.len() - i,
    {
        outcomes.push(encode(&packets[i]));
        i += 1;
    }
    outcomes
}

} // verus!
