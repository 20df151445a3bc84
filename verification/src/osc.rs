//! Control messages for the external audio host: OSC-encoded play and
//! stop commands, sent fire-and-forget over UDP by the caller.

use vstd::prelude::*;

verus! {

/// The OSC wire encoding of a message with this address and no
/// arguments.  What the bytes look like is the OSC library's business;
/// the encoding depends on the address alone.
pub uninterp spec fn osc_encoding(addr: Seq<char>) -> Seq<u8>;

/// Relies on rosc::encoder::encode: serializing an argument-free
/// message is a pure function of its address.
#[verifier::external_body]
fn encode_osc(addr: &str) -> (r: Result<Vec<u8>, ()>)
    ensures
        r is Ok ==> r->Ok_0@ == osc_encoding(addr@),
{
    rosc::encoder::encode(&rosc::OscPacket::Message(rosc::OscMessage {
        addr: addr.to_string(),
        args: Vec::new(),
    })).map_err(|_| ())
}

/// The play address for a track: `/Play/0:<track>`.
pub open spec fn spec_play_address(track: Seq<char>) -> Seq<char> {
    "/Play/0:"@ + track
}

/// The stop address for a track: `/Stop/0:<track>`.
pub open spec fn spec_stop_address(track: Seq<char>) -> Seq<char> {
    "/Stop/0:"@ + track
}

/// Render the play address for a track.
pub fn play_address(track: &str) -> (r: String)
    ensures
        r@ == spec_play_address(track@),
{
    let mut s = String::from_str("/Play/0:");
    s.append(track);
    s
}

/// Render the stop address for a track.
pub fn stop_address(track: &str) -> (r: String)
    ensures
        r@ == spec_stop_address(track@),
{
    let mut s = String::from_str("/Stop/0:");
    s.append(track);
    s
}

/// The UDP payload that starts a track on the audio host.
pub fn encode_play_message(track: &str) -> (r: Result<Vec<u8>, ()>)
    ensures
        r is Ok ==> r->Ok_0@ == osc_encoding(spec_play_address(track@)),
{
    let addr = play_address(track);
    encode_osc(addr.as_str())
}

/// The UDP payload that stops a track on the audio host.
pub fn encode_stop_message(track: &str) -> (r: Result<Vec<u8>, ()>)
    ensures
        r is Ok ==> r->Ok_0@ == osc_encoding(spec_stop_address(track@)),
{
    let addr = stop_address(track);
    encode_osc(addr.as_str())
}

/// The UDP payload for an operator-supplied OSC address.
pub fn encode_address(addr: &str) -> (r: Result<Vec<u8>, ()>)
    ensures
        r is Ok ==> r->Ok_0@ == osc_encoding(addr@),
{
    encode_osc(addr)
}

} // verus!
