//! Received UDP datagrams: rosc decodes the bytes, the library turns the packet
//! into display events.

use vstd::prelude::*;
use crate::event::{HudEvent, events_view};
use crate::osc::{Message, Packet, Arg, handle_packet, packet_events};

verus! {

/// rosc's OSC packet, carried opaquely from the decoder to its conversion.
#[verifier::external_type_specification]
#[verifier::external_body]
pub struct ExRoscPacket(rosc::OscPacket);

/// rosc's OSC message, carried opaquely to its conversion.
#[verifier::external_type_specification]
#[verifier::external_body]
pub struct ExRoscMessage(rosc::OscMessage);

/// rosc's OSC argument, carried opaquely to its conversion.
#[verifier::external_type_specification]
#[verifier::external_body]
pub struct ExRoscType(rosc::OscType);

/// What `rosc::decoder::decode_udp` decodes from a datagram, in the library's
/// own types: the packet, or `None` where rosc refuses the bytes.
pub uninterp spec fn udp_decoding(bytes: Seq<u8>) -> Option<Packet>;

/// Calls `rosc::decoder::decode_udp` on a datagram and converts the packet it
/// returns. The contract claims that the result is a function of the bytes
/// (named `udp_decoding`) and that rosc refuses an empty datagram (its decoder
/// starts with that check); which other bytes rosc accepts, and what it decodes
/// from them, is not stated.
#[verifier::external_body]
fn decode_udp(bytes: &[u8]) -> (r: Option<Packet>)
    ensures
        r == udp_decoding(bytes@),
        bytes@.len() == 0 ==> r is None,
{
    match rosc::decoder::decode_udp(bytes) {
        Ok((_, packet)) => Some(packet_from_rosc(packet)),
        Err(_) => None,
    }
}

/// Converts a rosc packet one for one: a message to a message, a bundle to a
/// bundle of its converted packets in the same order (its time tag is not
/// read). Trusted; no contract.
#[verifier::external_body]
fn packet_from_rosc(packet: rosc::OscPacket) -> Packet {
    match packet {
        rosc::OscPacket::Message(m) => Packet::Message(message_from_rosc(m)),
        rosc::OscPacket::Bundle(b) => Packet::Bundle(
            b.content.into_iter().map(packet_from_rosc).collect(),
        ),
    }
}

/// Converts a rosc message one for one: its address, and each argument in order.
/// Trusted; no contract.
#[verifier::external_body]
fn message_from_rosc(m: rosc::OscMessage) -> Message {
    Message { addr: m.addr, args: m.args.into_iter().map(arg_from_rosc).collect() }
}

/// Converts a rosc argument: ints and strings as they are, floats and doubles by
/// their bit patterns, every other type to `Other`. Trusted; no contract.
#[verifier::external_body]
fn arg_from_rosc(arg: rosc::OscType) -> Arg {
    match arg {
        rosc::OscType::Int(i) => Arg::Int(i),
        rosc::OscType::Float(f) => Arg::Float(f.to_bits()),
        rosc::OscType::String(s) => Arg::String(s),
        rosc::OscType::Double(d) => Arg::Double(d.to_bits()),
        _ => Arg::Other,
    }
}

/// The events a decoded datagram asks for: those of its packet; none where the
/// bytes did not decode.
pub open spec fn decoded_events(decoded: Option<Packet>) -> Seq<crate::event::HudEventView> {
    match decoded {
        Some(p) => packet_events(p),
        None => Seq::empty(),
    }
}

/// The events that a received datagram asks for, in order: those of the OSC
/// packet rosc decodes from it, and none where rosc refuses the bytes.
pub fn datagram_events(bytes: &[u8]) -> (r: Vec<HudEvent>)
    ensures
        events_view(r@) == decoded_events(udp_decoding(bytes@)),
        bytes@.len() == 0 ==> r@.len() == 0,
{
    match decode_udp(bytes) {
        Some(packet) => handle_packet(&packet),
        None => Vec::new(),
    }
}

} // verus!
