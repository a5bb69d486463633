//! Outbound datagram payloads. The wire encoding is delegated to the `rosc`
//! crate behind trusted wrappers; what the library guarantees is which
//! message goes out, named by address and argument.

use vstd::prelude::*;

verus! {

/// Address of the value parameter, carrying a matched target's code.
pub open spec fn value_address() -> Seq<char> {
    "/avatar/parameters/ToN_DeathID"@
}

/// Address of the reset parameter.
pub open spec fn reset_address() -> Seq<char> {
    "/avatar/parameters/ToN_DeathID_Reset"@
}

/// The OSC encoding of a one-message packet whose single argument is the
/// given integer. A function of the address and the argument alone.
pub uninterp spec fn osc_int_packet(addr: Seq<char>, value: int) -> Seq<u8>;

/// The OSC encoding of a one-message packet whose single argument is the
/// given boolean. A function of the address and the argument alone.
pub uninterp spec fn osc_bool_packet(addr: Seq<char>, value: bool) -> Seq<u8>;

/// Relies on rosc::encoder::encode for a packet of one message with one
/// integer argument: it is deterministic in the address and the argument,
/// and for a message it always returns bytes (its error type on a byte
/// vector output is uninhabited).
#[verifier::external_body]
fn encode_int_message(addr: &str, value: i32) -> (r: Vec<u8>)
    ensures
        r@ == osc_int_packet(addr@, value as int),
{
    let packet = rosc::OscPacket::Message(rosc::OscMessage {
        addr: addr.to_string(),
        args: vec![rosc::OscType::Int(value)],
    });
    rosc::encoder::encode(&packet).unwrap_or_default()
}

/// Relies on rosc::encoder::encode for a packet of one message with one
/// boolean argument: deterministic in the address and the argument, and for
/// a message it always returns bytes.
#[verifier::external_body]
fn encode_bool_message(addr: &str, value: bool) -> (r: Vec<u8>)
    ensures
        r@ == osc_bool_packet(addr@, value),
{
    let packet = rosc::OscPacket::Message(rosc::OscMessage {
        addr: addr.to_string(),
        args: vec![rosc::OscType::Bool(value)],
    });
    rosc::encoder::encode(&packet).unwrap_or_default()
}

/// The datagram announcing a matched target: the value parameter set to the
/// target's code, clipped to the wire's integer width.
pub fn value_packet(number: usize) -> (r: Vec<u8>)
    ensures
        r@ == osc_int_packet(value_address(), number as i32 as int),
{
    #[verifier::truncate]
    let wire: i32 = number as i32;
    encode_int_message("/avatar/parameters/ToN_DeathID", wire)
}

/// The datagram announcing a reset: the reset parameter set to true.
pub fn reset_packet() -> (r: Vec<u8>)
    ensures
        r@ == osc_bool_packet(reset_address(), true),
{
    encode_bool_message("/avatar/parameters/ToN_DeathID_Reset", true)
}

} // verus!
