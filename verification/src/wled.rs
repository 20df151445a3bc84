//! Bodies for the firmware's HTTP endpoints: saving a preset into a
//! slot, and switching a board into the direct-LED live mode on a
//! universe.  The HTTP requests themselves are the caller's business.

use vstd::prelude::*;
use crate::fmt::{fmt_bool, fmt_u16, fmt_u8, spec_bool, spec_dec};
use crate::sse::spec_json_string;
use crate::text::json_escape;
use crate::types::WledPreset;

verus! {

/// The body that saves a preset into its slot on a board.
pub open spec fn spec_preset_save_json(p: WledPreset) -> Seq<char> {
    "{\"on\":"@ + spec_bool(p.state.on)
        + ",\"bri\":"@ + spec_dec(p.state.brightness as nat)
        + ",\"seg\":[{\"col\":[["@ + spec_dec(p.state.color[0] as nat) + ","@
        + spec_dec(p.state.color[1] as nat) + ","@ + spec_dec(p.state.color[2] as nat)
        + "]],\"fx\":"@ + spec_dec(p.state.effect as nat)
        + ",\"sx\":"@ + spec_dec(p.state.speed as nat)
        + ",\"ix\":"@ + spec_dec(p.state.intensity as nat)
        + "}],\"psave\":"@ + spec_dec(p.wled_slot as nat)
        + ",\"n\":"@ + spec_json_string(p.name@) + "}"@
}

/// Render the preset-save body.
pub fn preset_save_json(p: &WledPreset) -> (r: String)
    ensures
        r@ == spec_preset_save_json(*p),
{
    proof {
        reveal_strlit("\"");
    }
    let mut out = String::from_str("{\"on\":");
    out.append(fmt_bool(p.state.on));
    out.append(",\"bri\":");
    out.append(fmt_u8(p.state.brightness).as_str());
    out.append(",\"seg\":[{\"col\":[[");
    out.append(fmt_u8(p.state.color[0]).as_str());
    out.append(",");
    out.append(fmt_u8(p.state.color[1]).as_str());
    out.append(",");
    out.append(fmt_u8(p.state.color[2]).as_str());
    out.append("]],\"fx\":");
    out.append(fmt_u8(p.state.effect).as_str());
    out.append(",\"sx\":");
    out.append(fmt_u8(p.state.speed).as_str());
    out.append(",\"ix\":");
    out.append(fmt_u8(p.state.intensity).as_str());
    out.append("}],\"psave\":");
    out.append(fmt_u8(p.wled_slot).as_str());
    out.append(",\"n\":");
    out.append("\"");
    out.append(json_escape(p.name.as_str()).as_str());
    out.append("\"");
    out.append("}");
    proof {
        assert(out@ =~= spec_preset_save_json(*p));
    }
    out
}

/// The body that switches a board into direct-LED live mode on a
/// universe, with the no-timeout watchdog value.
pub open spec fn spec_live_config_json(universe: u16) -> Seq<char> {
    "{\"if\":{\"live\":{\"en\":true,\"mc\":false,\"dmx\":{\"uni\":"@
        + spec_dec(universe as nat)
        + ",\"mode\":6,\"addr\":1},\"timeout\":65535}}}"@
}

/// Render the live-mode body.
pub fn live_config_json(universe: u16) -> (r: String)
    ensures
        r@ == spec_live_config_json(universe),
{
    let mut out = String::from_str("{\"if\":{\"live\":{\"en\":true,\"mc\":false,\"dmx\":{\"uni\":");
    out.append(fmt_u16(universe).as_str());
    out.append(",\"mode\":6,\"addr\":1},\"timeout\":65535}}}");
    out
}

/// The body that reboots a board after reconfiguration.
pub open spec fn spec_reboot_json() -> Seq<char> {
    "{\"rb\":true}"@
}

/// Render the reboot body.
pub fn reboot_json() -> (r: String)
    ensures
        r@ == spec_reboot_json(),
{
    String::from_str("{\"rb\":true}")
}

} // verus!
