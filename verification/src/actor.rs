//! The board actor's decision core: what each connection event and each
//! mailbox command does to the state cache, which wire message it emits,
//! and what it broadcasts.  The WebSocket itself, the timers and the
//! mailbox live outside the library and feed plain events in.

use vstd::prelude::*;
use crate::board::{BoardCommand, BoardState};
use crate::fmt::{fmt_bool, fmt_u16, fmt_u8, spec_bool, spec_dec};
use crate::sse::SseEvent;

verus! {

/// The fields a firmware state message may carry; absent fields leave
/// the cache alone.
#[derive(Debug, Clone)]
pub struct InboundFields {
    /// Power state.
    pub on: Option<bool>,
    /// Master brightness.
    pub bri: Option<u8>,
    /// First segment colour.
    pub color: Option<[u8; 3]>,
    /// Effect index.
    pub fx: Option<u8>,
    /// Effect speed.
    pub sx: Option<u8>,
    /// Effect intensity.
    pub ix: Option<u8>,
    /// First segment end, the LED count.
    pub stop: Option<u16>,
    /// Total LEDs the board reports.
    pub max_leds: Option<u16>,
}

/// What the actor asks its runner to do after handling an event.
#[derive(Debug)]
pub enum ActorAction {
    /// Send this text frame on the WebSocket.
    SendWs(String),
    /// Publish this event on the broadcast bus.
    Broadcast(SseEvent),
    /// Answer a state query with the current cache.
    Reply(BoardState),
    /// Terminate the actor.
    Terminate,
}

/// The power message: `{"on":<bool>,"tt":0}`.
pub open spec fn spec_wire_power(on: bool) -> Seq<char> {
    "{\"on\":"@ + spec_bool(on) + ",\"tt\":0}"@
}

/// The brightness message: `{"bri":<n>,"tt":0}`.
pub open spec fn spec_wire_brightness(bri: u8) -> Seq<char> {
    "{\"bri\":"@ + spec_dec(bri as nat) + ",\"tt\":0}"@
}

/// The colour message: `{"seg":[{"col":[[r,g,b]]}],"tt":<t>}`.
pub open spec fn spec_wire_color(r: u8, g: u8, b: u8, tt: u8) -> Seq<char> {
    "{\"seg\":[{\"col\":[["@ + spec_dec(r as nat) + ","@ + spec_dec(g as nat) + ","@
        + spec_dec(b as nat) + "]]}],\"tt\":"@ + spec_dec(tt as nat) + "}"@
}

/// The effect message: `{"seg":[{"fx":<n>}],"tt":0}`.
pub open spec fn spec_wire_effect(fx: u8) -> Seq<char> {
    "{\"seg\":[{\"fx\":"@ + spec_dec(fx as nat) + "}],\"tt\":0}"@
}

/// The speed message: `{"seg":[{"sx":<n>}],"tt":0}`.
pub open spec fn spec_wire_speed(sx: u8) -> Seq<char> {
    "{\"seg\":[{\"sx\":"@ + spec_dec(sx as nat) + "}],\"tt\":0}"@
}

/// The intensity message: `{"seg":[{"ix":<n>}],"tt":0}`.
pub open spec fn spec_wire_intensity(ix: u8) -> Seq<char> {
    "{\"seg\":[{\"ix\":"@ + spec_dec(ix as nat) + "}],\"tt\":0}"@
}

/// The preset message: `{"ps":<n>,"tt":0}`.
pub open spec fn spec_wire_preset(ps: u8) -> Seq<char> {
    "{\"ps\":"@ + spec_dec(ps as nat) + ",\"tt\":0}"@
}

/// The segment-length message: `{"seg":[{"len":<n>}]}`.
pub open spec fn spec_wire_led_count(n: u16) -> Seq<char> {
    "{\"seg\":[{\"len\":"@ + spec_dec(n as nat) + "}]}"@
}

/// The segment-reset message.
pub open spec fn spec_wire_reset_segment() -> Seq<char> {
    "{\"seg\":[{\"id\":0,\"grp\":1,\"spc\":0,\"of\":0}]}"@
}

/// The transition-default message: `{"tt":<t>,"transition":<t>}`.
pub open spec fn spec_wire_transition(tt: u8) -> Seq<char> {
    "{\"tt\":"@ + spec_dec(tt as nat) + ",\"transition\":"@ + spec_dec(tt as nat) + "}"@
}

/// Render the power message.
pub fn wire_power(on: bool) -> (s: String)
    ensures
        s@ == spec_wire_power(on),
{
    let mut s = String::from_str("{\"on\":");
    s.append(fmt_bool(on));
    s.append(",\"tt\":0}");
    s
}

/// Render the brightness message.
pub fn wire_brightness(bri: u8) -> (s: String)
    ensures
        s@ == spec_wire_brightness(bri),
{
    let mut s = String::from_str("{\"bri\":");
    s.append(fmt_u8(bri).as_str());
    s.append(",\"tt\":0}");
    s
}

/// Render the colour message.
pub fn wire_color(r: u8, g: u8, b: u8, tt: u8) -> (s: String)
    ensures
        s@ == spec_wire_color(r, g, b, tt),
{
    let mut s = String::from_str("{\"seg\":[{\"col\":[[");
    s.append(fmt_u8(r).as_str());
    s.append(",");
    s.append(fmt_u8(g).as_str());
    s.append(",");
    s.append(fmt_u8(b).as_str());
    s.append("]]}],\"tt\":");
    s.append(fmt_u8(tt).as_str());
    s.append("}");
    s
}

/// Render the effect message.
pub fn wire_effect(fx: u8) -> (s: String)
    ensures
        s@ == spec_wire_effect(fx),
{
    let mut s = String::from_str("{\"seg\":[{\"fx\":");
    s.append(fmt_u8(fx).as_str());
    s.append("}],\"tt\":0}");
    s
}

/// Render the speed message.
pub fn wire_speed(sx: u8) -> (s: String)
    ensures
        s@ == spec_wire_speed(sx),
{
    let mut s = String::from_str("{\"seg\":[{\"sx\":");
    s.append(fmt_u8(sx).as_str());
    s.append("}],\"tt\":0}");
    s
}

/// Render the intensity message.
pub fn wire_intensity(ix: u8) -> (s: String)
    ensures
        s@ == spec_wire_intensity(ix),
{
    let mut s = String::from_str("{\"seg\":[{\"ix\":");
    s.append(fmt_u8(ix).as_str());
    s.append("}],\"tt\":0}");
    s
}

/// Render the preset message.
pub fn wire_preset(ps: u8) -> (s: String)
    ensures
        s@ == spec_wire_preset(ps),
{
    let mut s = String::from_str("{\"ps\":");
    s.append(fmt_u8(ps).as_str());
    s.append(",\"tt\":0}");
    s
}

/// Render the segment-length message.
pub fn wire_led_count(n: u16) -> (s: String)
    ensures
        s@ == spec_wire_led_count(n),
{
    let mut s = String::from_str("{\"seg\":[{\"len\":");
    s.append(fmt_u16(n).as_str());
    s.append("}]}");
    s
}

/// Render the segment-reset message.
pub fn wire_reset_segment() -> (s: String)
    ensures
        s@ == spec_wire_reset_segment(),
{
    String::from_str("{\"seg\":[{\"id\":0,\"grp\":1,\"spc\":0,\"of\":0}]}")
}

/// Render the transition-default message.
pub fn wire_transition(tt: u8) -> (s: String)
    ensures
        s@ == spec_wire_transition(tt),
{
    let mut s = String::from_str("{\"tt\":");
    s.append(fmt_u8(tt).as_str());
    s.append(",\"transition\":");
    s.append(fmt_u8(tt).as_str());
    s.append("}");
    s
}

/// Every broadcast in an action list names this board and no other:
/// the actor is the sole producer of its own state updates.
pub open spec fn broadcasts_own_id(actions: Seq<ActorAction>, id: Seq<char>) -> bool {
    forall|i: int| 0 <= i < actions.len()
        ==> match #[trigger] actions[i] {
            ActorAction::Broadcast(e) => match e {
                SseEvent::StateUpdate { board_id, state } => board_id@ == id,
                SseEvent::ConnectionStatus { board_id, connected } => board_id@ == id,
                SseEvent::Connected { message } => true,
            },
            _ => true,
        }
}


/// The cache after a firmware message: each present field replaces its
/// entry, each absent one leaves it alone; identity, preset, the
/// connected flag and the group markers are untouched here.
pub open spec fn fields_applied(o: BoardState, f: InboundFields, n: BoardState) -> bool {
    &&& n.id == o.id
    &&& n.ip == o.ip
    &&& n.preset == o.preset
    &&& n.is_group == o.is_group
    &&& n.member_ids == o.member_ids
    &&& n.on == (if f.on is Some { f.on->0 } else { o.on })
    &&& n.brightness == (if f.bri is Some { f.bri->0 } else { o.brightness })
    &&& n.color == (if f.color is Some { f.color->0 } else { o.color })
    &&& n.effect == (if f.fx is Some { f.fx->0 } else { o.effect })
    &&& n.speed == (if f.sx is Some { f.sx->0 } else { o.speed })
    &&& n.intensity == (if f.ix is Some { f.ix->0 } else { o.intensity })
    &&& n.led_count == (if f.stop is Some { Some(f.stop->0) } else { o.led_count })
    &&& n.max_leds == (if f.max_leds is Some { Some(f.max_leds->0) } else { o.max_leds })
}

/// A message that carries nothing and so changes nothing.
pub open spec fn spec_no_fields() -> InboundFields {
    InboundFields {
        on: None,
        bri: None,
        color: None,
        fx: None,
        sx: None,
        ix: None,
        stop: None,
        max_leds: None,
    }
}

/// The copy of a cache that goes out in broadcasts and replies: the
/// same values, without the group markers.
pub open spec fn state_snapshot(s: BoardState) -> BoardState {
    BoardState {
        id: s.id,
        ip: s.ip,
        on: s.on,
        brightness: s.brightness,
        color: s.color,
        effect: s.effect,
        speed: s.speed,
        intensity: s.intensity,
        preset: s.preset,
        connected: s.connected,
        led_count: s.led_count,
        max_leds: s.max_leds,
        is_group: None,
        member_ids: None,
    }
}

/// The one action a connection-status change emits.
pub open spec fn is_status_broadcast(a: ActorAction, id: String, connected: bool) -> bool {
    a matches ActorAction::Broadcast(e)
        && (e matches SseEvent::ConnectionStatus { board_id, connected: c }
            && board_id == id && c == connected)
}

/// The one action a cache change emits.
pub open spec fn is_state_update(a: ActorAction, id: String, s: BoardState) -> bool {
    a matches ActorAction::Broadcast(e)
        && (e matches SseEvent::StateUpdate { board_id, state }
            && board_id == id && state == s)
}

/// The actor's decision core: its identity and state cache.
pub struct BoardActor {
    /// Board identifier.
    pub id: String,
    /// IPv4 literal.
    pub ip: String,
    /// Last-known board state.
    pub state: BoardState,
}

/// The cache carries the actor's own identity.
pub open spec fn actor_wf(a: BoardActor) -> bool {
    a.state.id@ == a.id@ && a.state.ip@ == a.ip@
}

impl BoardActor {
    /// A fresh actor: disconnected, defaults cached.
    pub fn new(id: String, ip: String) -> (r: BoardActor)
        ensures
            actor_wf(r),
            r.id@ == id@,
            r.ip@ == ip@,
            r.state.connected == false,
    {
        let state = BoardState::new(id.clone(), ip.clone());
        BoardActor { id, ip, state }
    }

    /// Copy the cache for a broadcast or a reply.
    fn snapshot(&self) -> (r: BoardState)
        ensures
            r == state_snapshot(self.state),
    {
        BoardState {
            id: self.state.id.clone(),
            ip: self.state.ip.clone(),
            on: self.state.on,
            brightness: self.state.brightness,
            color: self.state.color,
            effect: self.state.effect,
            speed: self.state.speed,
            intensity: self.state.intensity,
            preset: self.state.preset,
            connected: self.state.connected,
            led_count: self.state.led_count,
            max_leds: self.state.max_leds,
            is_group: None,
            member_ids: None,
        }
    }

    /// How long to wait before the next connection attempt: three
    /// seconds normally, thirty while a show runs.
    pub fn backoff_ms(&self, performance_mode: bool) -> (r: u64)
        ensures
            performance_mode ==> r == 30_000,
            !performance_mode ==> r == 3_000,
    {
        if performance_mode {
            30_000
        } else {
            3_000
        }
    }

    /// A connection attempt failed: the cache goes disconnected and the
    /// status is broadcast under this actor's identity.
    pub fn on_connect_failed(&mut self) -> (actions: Vec<ActorAction>)
        requires
            actor_wf(*old(self)),
        ensures
            actor_wf(*final(self)),
            final(self).id == old(self).id,
            final(self).state == (BoardState { connected: false, ..old(self).state }),
            broadcasts_own_id(actions@, old(self).id@),
            actions@.len() == 1,
            is_status_broadcast(actions@[0], old(self).id, false),
    {
        self.state.connected = false;
        let mut actions: Vec<ActorAction> = Vec::new();
        actions.push(ActorAction::Broadcast(SseEvent::ConnectionStatus {
            board_id: self.id.clone(),
            connected: false,
        }));
        actions
    }

    /// The WebSocket opened and the first message arrived (or timed
    /// out): apply what the board reported, force the firmware's
    /// transition to zero, mark connected, and broadcast both the
    /// status and the state — all under this actor's identity.
    pub fn on_connected(&mut self, initial: Option<InboundFields>)
        -> (actions: Vec<ActorAction>)
        requires
            actor_wf(*old(self)),
        ensures
            actor_wf(*final(self)),
            final(self).id == old(self).id,
            final(self).state.connected == true,
            fields_applied(
                old(self).state,
                if initial is Some { initial->0 } else { spec_no_fields() },
                final(self).state,
            ),
            broadcasts_own_id(actions@, old(self).id@),
            actions@.len() == 3,
            actions@[0] matches ActorAction::SendWs(m) && m@ == spec_wire_transition(0),
            is_status_broadcast(actions@[1], old(self).id, true),
            is_state_update(actions@[2], old(self).id, state_snapshot(final(self).state)),
    {
        let mut actions: Vec<ActorAction> = Vec::new();
        actions.push(ActorAction::SendWs(wire_transition(0)));
        match initial {
            Some(fields) => {
                self.apply_fields(&fields);
            },
            None => {},
        }
        self.state.connected = true;
        actions.push(ActorAction::Broadcast(SseEvent::ConnectionStatus {
            board_id: self.id.clone(),
            connected: true,
        }));
        actions.push(ActorAction::Broadcast(SseEvent::StateUpdate {
            board_id: self.id.clone(),
            state: self.snapshot(),
        }));
        actions
    }

    /// A state message arrived while connected: apply it and broadcast
    /// the new cache.
    pub fn on_inbound(&mut self, fields: &InboundFields) -> (actions: Vec<ActorAction>)
        requires
            actor_wf(*old(self)),
        ensures
            actor_wf(*final(self)),
            final(self).id == old(self).id,
            fields_applied(old(self).state, *fields, final(self).state),
            final(self).state.connected == old(self).state.connected,
            broadcasts_own_id(actions@, old(self).id@),
            actions@.len() == 1,
            is_state_update(actions@[0], old(self).id, state_snapshot(final(self).state)),
    {
        self.apply_fields(fields);
        let mut actions: Vec<ActorAction> = Vec::new();
        actions.push(ActorAction::Broadcast(SseEvent::StateUpdate {
            board_id: self.id.clone(),
            state: self.snapshot(),
        }));
        actions
    }

    /// The connection died — a read timeout, a close, or an error: the
    /// cache goes disconnected and the status is broadcast.
    pub fn on_connection_lost(&mut self) -> (actions: Vec<ActorAction>)
        requires
            actor_wf(*old(self)),
        ensures
            actor_wf(*final(self)),
            final(self).id == old(self).id,
            final(self).state == (BoardState { connected: false, ..old(self).state }),
            broadcasts_own_id(actions@, old(self).id@),
            actions@.len() == 1,
            is_status_broadcast(actions@[0], old(self).id, false),
    {
        self.state.connected = false;
        let mut actions: Vec<ActorAction> = Vec::new();
        actions.push(ActorAction::Broadcast(SseEvent::ConnectionStatus {
            board_id: self.id.clone(),
            connected: false,
        }));
        actions
    }

    /// Apply the fields a firmware message carried: each present field
    /// replaces its cache entry, each absent one leaves it alone.
    pub fn apply_fields(&mut self, f: &InboundFields)
        ensures
            final(self).id == old(self).id,
            final(self).ip == old(self).ip,
            fields_applied(old(self).state, *f, final(self).state),
            final(self).state.connected == old(self).state.connected,
    {
        if let Some(on) = f.on {
            self.state.on = on;
        }
        if let Some(bri) = f.bri {
            self.state.brightness = bri;
        }
        if let Some(color) = f.color {
            self.state.color = color;
        }
        if let Some(fx) = f.fx {
            self.state.effect = fx;
        }
        if let Some(sx) = f.sx {
            self.state.speed = sx;
        }
        if let Some(ix) = f.ix {
            self.state.intensity = ix;
        }
        if let Some(stop) = f.stop {
            self.state.led_count = Some(stop);
        }
        if let Some(max_leds) = f.max_leds {
            self.state.max_leds = Some(max_leds);
        }
    }

    /// Handle a mailbox command while connected: update the cache, emit
    /// the exact firmware message, and broadcast the new state.  `Sync`
    /// commands update the cache without any wire traffic; `GetState`
    /// replies; `Shutdown` terminates.
    pub fn handle_command_connected(&mut self, cmd: &BoardCommand)
        -> (actions: Vec<ActorAction>)
        requires
            actor_wf(*old(self)),
        ensures
            actor_wf(*final(self)),
            final(self).id == old(self).id,
            broadcasts_own_id(actions@, old(self).id@),
            *cmd matches BoardCommand::SetPower(on, _) ==> final(self).state.on == on
                && (actions@[0] matches ActorAction::SendWs(m) && m@ == spec_wire_power(on)),
            *cmd matches BoardCommand::SetBrightness(b, _)
                ==> final(self).state.brightness == b
                    && (actions@[0] matches ActorAction::SendWs(m)
                        && m@ == spec_wire_brightness(b)),
            *cmd matches BoardCommand::SetColor { r, g, b, transition }
                ==> final(self).state.color == [r, g, b]
                    && (actions@[0] matches ActorAction::SendWs(m)
                        && m@ == spec_wire_color(r, g, b, transition)),
            *cmd matches BoardCommand::SetEffect(fx, _) ==> final(self).state.effect == fx
                && (actions@[0] matches ActorAction::SendWs(m) && m@ == spec_wire_effect(fx)),
            *cmd matches BoardCommand::SetSpeed(sx, _) ==> final(self).state.speed == sx
                && (actions@[0] matches ActorAction::SendWs(m) && m@ == spec_wire_speed(sx)),
            *cmd matches BoardCommand::SetIntensity(ix, _)
                ==> final(self).state.intensity == ix
                    && (actions@[0] matches ActorAction::SendWs(m)
                        && m@ == spec_wire_intensity(ix)),
            *cmd matches BoardCommand::SetPreset(ps, _)
                ==> final(self).state.preset == Some(ps)
                    && (actions@[0] matches ActorAction::SendWs(m)
                        && m@ == spec_wire_preset(ps)),
            *cmd matches BoardCommand::SetLedCount(n)
                ==> final(self).state.led_count == Some(n)
                    && (actions@[0] matches ActorAction::SendWs(m)
                        && m@ == spec_wire_led_count(n)),
            *cmd matches BoardCommand::SetTransition(tt)
                ==> (actions@[0] matches ActorAction::SendWs(m)
                    && m@ == spec_wire_transition(tt)),
            *cmd == BoardCommand::ResetSegment
                ==> (actions@[0] matches ActorAction::SendWs(m)
                    && m@ == spec_wire_reset_segment()),
            *cmd matches BoardCommand::SyncPowerState(on) ==> final(self).state.on == on
                && no_wire_traffic(actions@),
            *cmd matches BoardCommand::SyncBrightnessState(b)
                ==> final(self).state.brightness == b && no_wire_traffic(actions@),
            *cmd matches BoardCommand::SyncPresetState(ps)
                ==> final(self).state.preset == Some(ps) && no_wire_traffic(actions@),
            *cmd == BoardCommand::GetState ==> actions@.len() == 1
                && (actions@[0] matches ActorAction::Reply(s) && s.id@ == old(self).id@),
            *cmd == BoardCommand::Shutdown ==> actions@.len() == 1
                && actions@[0] is Terminate,
    {
        let mut actions: Vec<ActorAction> = Vec::new();
        match cmd {
            BoardCommand::SetPower(on, _tt) => {
                self.state.on = *on;
                actions.push(ActorAction::SendWs(wire_power(*on)));
                actions.push(self.state_broadcast());
            },
            BoardCommand::SetBrightness(b, _tt) => {
                self.state.brightness = *b;
                actions.push(ActorAction::SendWs(wire_brightness(*b)));
                actions.push(self.state_broadcast());
            },
            BoardCommand::SetColor { r, g, b, transition } => {
                self.state.color = [*r, *g, *b];
                actions.push(ActorAction::SendWs(wire_color(*r, *g, *b, *transition)));
                actions.push(self.state_broadcast());
            },
            BoardCommand::SetEffect(fx, _tt) => {
                self.state.effect = *fx;
                actions.push(ActorAction::SendWs(wire_effect(*fx)));
                actions.push(self.state_broadcast());
            },
            BoardCommand::SetSpeed(sx, _tt) => {
                self.state.speed = *sx;
                actions.push(ActorAction::SendWs(wire_speed(*sx)));
                actions.push(self.state_broadcast());
            },
            BoardCommand::SetIntensity(ix, _tt) => {
                self.state.intensity = *ix;
                actions.push(ActorAction::SendWs(wire_intensity(*ix)));
                actions.push(self.state_broadcast());
            },
            BoardCommand::SetPreset(ps, _tt) => {
                self.state.preset = Some(*ps);
                actions.push(ActorAction::SendWs(wire_preset(*ps)));
                actions.push(self.state_broadcast());
            },
            BoardCommand::SetLedCount(n) => {
                self.state.led_count = Some(*n);
                actions.push(ActorAction::SendWs(wire_led_count(*n)));
                actions.push(self.state_broadcast());
            },
            BoardCommand::SetTransition(tt) => {
                actions.push(ActorAction::SendWs(wire_transition(*tt)));
                actions.push(self.state_broadcast());
            },
            BoardCommand::ResetSegment => {
                actions.push(ActorAction::SendWs(wire_reset_segment()));
                actions.push(self.state_broadcast());
            },
            BoardCommand::SyncPowerState(on) => {
                self.state.on = *on;
                actions.push(self.state_broadcast());
            },
            BoardCommand::SyncBrightnessState(b) => {
                self.state.brightness = *b;
                actions.push(self.state_broadcast());
            },
            BoardCommand::SyncPresetState(ps) => {
                self.state.preset = Some(*ps);
                actions.push(self.state_broadcast());
            },
            BoardCommand::GetState => {
                actions.push(ActorAction::Reply(self.snapshot()));
            },
            BoardCommand::Shutdown => {
                actions.push(ActorAction::Terminate);
            },
        }
        actions
    }

    /// Handle a mailbox command while disconnected: state changes are
    /// cached and broadcast so the next connection can replay them;
    /// nothing touches the wire; queries and the shutdown still work.
    pub fn handle_command_disconnected(&mut self, cmd: &BoardCommand)
        -> (actions: Vec<ActorAction>)
        requires
            actor_wf(*old(self)),
        ensures
            actor_wf(*final(self)),
            final(self).id == old(self).id,
            broadcasts_own_id(actions@, old(self).id@),
            no_wire_traffic(actions@),
            *cmd matches BoardCommand::SetPower(on, _) ==> final(self).state.on == on,
            *cmd matches BoardCommand::SetBrightness(b, _)
                ==> final(self).state.brightness == b,
            *cmd matches BoardCommand::SetColor { r, g, b, transition }
                ==> final(self).state.color == [r, g, b],
            *cmd matches BoardCommand::SetEffect(fx, _) ==> final(self).state.effect == fx,
            *cmd matches BoardCommand::SetPreset(ps, _)
                ==> final(self).state.preset == Some(ps),
            *cmd matches BoardCommand::SyncPowerState(on) ==> final(self).state.on == on,
            *cmd matches BoardCommand::SyncBrightnessState(b)
                ==> final(self).state.brightness == b,
            *cmd matches BoardCommand::SyncPresetState(ps)
                ==> final(self).state.preset == Some(ps),
            *cmd == BoardCommand::GetState ==> actions@.len() == 1
                && (actions@[0] matches ActorAction::Reply(s) && s.id@ == old(self).id@),
            *cmd == BoardCommand::Shutdown ==> actions@.len() == 1
                && actions@[0] is Terminate,
    {
        let mut actions: Vec<ActorAction> = Vec::new();
        match cmd {
            BoardCommand::SetPower(on, _tt) => {
                self.state.on = *on;
                actions.push(self.state_broadcast());
            },
            BoardCommand::SetBrightness(b, _tt) => {
                self.state.brightness = *b;
                actions.push(self.state_broadcast());
            },
            BoardCommand::SetColor { r, g, b, transition: _ } => {
                self.state.color = [*r, *g, *b];
                actions.push(self.state_broadcast());
            },
            BoardCommand::SetEffect(fx, _tt) => {
                self.state.effect = *fx;
                actions.push(self.state_broadcast());
            },
            BoardCommand::SetSpeed(sx, _tt) => {
                self.state.speed = *sx;
                actions.push(self.state_broadcast());
            },
            BoardCommand::SetIntensity(ix, _tt) => {
                self.state.intensity = *ix;
                actions.push(self.state_broadcast());
            },
            BoardCommand::SetLedCount(n) => {
                self.state.led_count = Some(*n);
                actions.push(self.state_broadcast());
            },
            BoardCommand::SetPreset(ps, _tt) => {
                self.state.preset = Some(*ps);
                actions.push(self.state_broadcast());
            },
            BoardCommand::SyncPowerState(on) => {
                self.state.on = *on;
                actions.push(self.state_broadcast());
            },
            BoardCommand::SyncBrightnessState(b) => {
                self.state.brightness = *b;
                actions.push(self.state_broadcast());
            },
            BoardCommand::SyncPresetState(ps) => {
                self.state.preset = Some(*ps);
                actions.push(self.state_broadcast());
            },
            BoardCommand::GetState => {
                actions.push(ActorAction::Reply(self.snapshot()));
            },
            BoardCommand::Shutdown => {
                actions.push(ActorAction::Terminate);
            },
            _ => {},
        }
        actions
    }

    /// A broadcast of the current cache under this actor's identity.
    fn state_broadcast(&self) -> (a: ActorAction)
        ensures
            a matches ActorAction::Broadcast(e)
                && (e matches SseEvent::StateUpdate { board_id, state }
                    && board_id@ == self.id@),
    {
        ActorAction::Broadcast(SseEvent::StateUpdate {
            board_id: self.id.clone(),
            state: self.snapshot(),
        })
    }
}

/// No action in the list touches the WebSocket.
pub open spec fn no_wire_traffic(actions: Seq<ActorAction>) -> bool {
    forall|i: int| 0 <= i < actions.len() ==> !((#[trigger] actions[i]) is SendWs)
}

} // verus!
