//! Events for the server-sent-events bus, and their exact wire text.

use vstd::prelude::*;
use crate::board::BoardState;
use crate::fmt::{fmt_bool, fmt_u16, fmt_u8, spec_bool, spec_dec};
use crate::text::{json_escape, spec_json_escape};

verus! {

/// What the broadcast bus carries to its subscribers.
#[derive(Debug)]
pub enum SseEvent {
    /// A board's cache changed.
    StateUpdate {
        /// The board whose state this is.
        board_id: String,
        /// The new cache.
        state: BoardState,
    },
    /// A subscriber just attached.
    Connected {
        /// Greeting text.
        message: String,
    },
    /// A board's connection came up or went down.
    ConnectionStatus {
        /// The board whose link changed.
        board_id: String,
        /// Whether the link is up.
        connected: bool,
    },
}

/// A JSON string literal: quotes around the escaped text.
pub open spec fn spec_json_string(s: Seq<char>) -> Seq<char> {
    seq!['"'] + spec_json_escape(s) + seq!['"']
}

/// The JSON body of a board state: the always-present fields, then the
/// optional segment sizes.
pub open spec fn spec_state_json(s: BoardState) -> Seq<char> {
    "{\"id\":"@ + spec_json_string(s.id@)
        + ",\"ip\":"@ + spec_json_string(s.ip@)
        + ",\"on\":"@ + spec_bool(s.on)
        + ",\"brightness\":"@ + spec_dec(s.brightness as nat)
        + ",\"color\":["@ + spec_dec(s.color[0] as nat) + ","@
        + spec_dec(s.color[1] as nat) + ","@ + spec_dec(s.color[2] as nat) + "]"@
        + ",\"effect\":"@ + spec_dec(s.effect as nat)
        + ",\"speed\":"@ + spec_dec(s.speed as nat)
        + ",\"intensity\":"@ + spec_dec(s.intensity as nat)
        + ",\"connected\":"@ + spec_bool(s.connected)
        + (if s.led_count is Some {
            ",\"ledCount\":"@ + spec_dec(s.led_count->0 as nat)
        } else {
            Seq::empty()
        })
        + (if s.max_leds is Some {
            ",\"maxLeds\":"@ + spec_dec(s.max_leds->0 as nat)
        } else {
            Seq::empty()
        })
        + "}"@
}

/// The wire text of each event.
pub open spec fn spec_sse_json(e: SseEvent) -> Seq<char> {
    match e {
        SseEvent::StateUpdate { board_id, state } =>
            "{\"type\":\"state_update\",\"board_id\":"@ + spec_json_string(board_id@)
                + ",\"state\":"@ + spec_state_json(state) + "}"@,
        SseEvent::Connected { message } =>
            "{\"type\":\"connected\",\"message\":"@ + spec_json_string(message@) + "}"@,
        SseEvent::ConnectionStatus { board_id, connected } =>
            "{\"type\":\"connection_status\",\"board_id\":"@ + spec_json_string(board_id@)
                + ",\"connected\":"@ + spec_bool(connected) + "}"@,
    }
}

/// Render a JSON string literal.
fn json_string(s: &String) -> (r: String)
    ensures
        r@ == spec_json_string(s@),
{
    proof {
        reveal_strlit("\"");
    }
    let mut out = String::from_str("\"");
    assert(out@ =~= seq!['"']);
    out.append(json_escape(s.as_str()).as_str());
    out.append("\"");
    proof {
        assert(out@ =~= spec_json_string(s@));
    }
    out
}

/// Render a board state as JSON.
fn state_json(s: &BoardState) -> (r: String)
    ensures
        r@ == spec_state_json(*s),
{
    let mut out = String::from_str("{\"id\":");
    out.append(json_string(&s.id).as_str());
    out.append(",\"ip\":");
    out.append(json_string(&s.ip).as_str());
    out.append(",\"on\":");
    out.append(fmt_bool(s.on));
    out.append(",\"brightness\":");
    out.append(fmt_u8(s.brightness).as_str());
    out.append(",\"color\":[");
    out.append(fmt_u8(s.color[0]).as_str());
    out.append(",");
    out.append(fmt_u8(s.color[1]).as_str());
    out.append(",");
    out.append(fmt_u8(s.color[2]).as_str());
    out.append("]");
    out.append(",\"effect\":");
    out.append(fmt_u8(s.effect).as_str());
    out.append(",\"speed\":");
    out.append(fmt_u8(s.speed).as_str());
    out.append(",\"intensity\":");
    out.append(fmt_u8(s.intensity).as_str());
    out.append(",\"connected\":");
    out.append(fmt_bool(s.connected));
    match s.led_count {
        Some(n) => {
            out.append(",\"ledCount\":");
            out.append(fmt_u16(n).as_str());
        },
        None => {},
    }
    match s.max_leds {
        Some(n) => {
            out.append(",\"maxLeds\":");
            out.append(fmt_u16(n).as_str());
        },
        None => {},
    }
    out.append("}");
    out
}

impl SseEvent {
    /// The exact JSON text sent to subscribers.
    pub fn to_sse_message(&self) -> (r: String)
        ensures
            r@ == spec_sse_json(*self),
    {
        match self {
            SseEvent::StateUpdate { board_id, state } => {
                let mut out = String::from_str("{\"type\":\"state_update\",\"board_id\":");
                out.append(json_string(board_id).as_str());
                out.append(",\"state\":");
                out.append(state_json(state).as_str());
                out.append("}");
                out
            },
            SseEvent::Connected { message } => {
                let mut out = String::from_str("{\"type\":\"connected\",\"message\":");
                out.append(json_string(message).as_str());
                out.append("}");
                out
            },
            SseEvent::ConnectionStatus { board_id, connected } => {
                let mut out = String::from_str(
                    "{\"type\":\"connection_status\",\"board_id\":");
                out.append(json_string(board_id).as_str());
                out.append(",\"connected\":");
                out.append(fmt_bool(*connected));
                out.append("}");
                out
            },
        }
    }
}

} // verus!
