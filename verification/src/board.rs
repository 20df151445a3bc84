//! The per-board state cache and the command taxonomies that the actors
//! and the group path translate into wire messages.

use vstd::prelude::*;

verus! {

/// Last-known state of one board, authoritative only while `connected`.
#[derive(Debug, Clone)]
pub struct BoardState {
    /// Board identifier.
    pub id: String,
    /// IPv4 literal of the board.
    pub ip: String,
    /// Whether the board reports itself powered on.
    pub on: bool,
    /// Master brightness, 0..=255.
    pub brightness: u8,
    /// Current solid colour.
    pub color: [u8; 3],
    /// Firmware effect index.
    pub effect: u8,
    /// Firmware effect speed.
    pub speed: u8,
    /// Firmware effect intensity.
    pub intensity: u8,
    /// Firmware preset slot last applied, when known.
    pub preset: Option<u8>,
    /// Whether a live WebSocket to the board exists right now.
    pub connected: bool,
    /// LED count of the first segment, when reported.
    pub led_count: Option<u16>,
    /// Total LEDs the board exposes, when reported.
    pub max_leds: Option<u16>,
    /// Set on synthetic entries that stand for a group.
    pub is_group: Option<bool>,
    /// Member ids of a synthetic group entry.
    pub member_ids: Option<Vec<String>>,
}

impl BoardState {
    /// The cache a fresh actor starts from: disconnected, half brightness,
    /// white.
    pub fn new(id: String, ip: String) -> (s: BoardState)
        ensures
            s.id == id,
            s.ip == ip,
            s.on == false,
            s.brightness == 128,
            s.color == [255u8, 255u8, 255u8],
            s.effect == 0,
            s.speed == 128,
            s.intensity == 128,
            s.preset is None,
            s.connected == false,
            s.led_count is None,
            s.max_leds is None,
            s.is_group is None,
            s.member_ids is None,
    {
        BoardState {
            id,
            ip,
            on: false,
            brightness: 128,
            color: [255, 255, 255],
            effect: 0,
            speed: 128,
            intensity: 128,
            preset: None,
            connected: false,
            led_count: None,
            max_leds: None,
            is_group: None,
            member_ids: None,
        }
    }
}

/// Commands a board actor accepts.  Transitions are in 100 ms firmware
/// units.  The `Sync*` variants update the cache without emitting a wire
/// message; `GetState` asks for a copy of the cache.
#[derive(Debug, Clone, Copy, PartialEq, Eq, Structural)]
pub enum BoardCommand {
    /// Power the board on or off.
    SetPower(bool, u8),
    /// Set the master brightness.
    SetBrightness(u8, u8),
    /// Set the segment colour.
    SetColor { r: u8, g: u8, b: u8, transition: u8 },
    /// Select a firmware effect.
    SetEffect(u8, u8),
    /// Set the effect speed.
    SetSpeed(u8, u8),
    /// Set the effect intensity.
    SetIntensity(u8, u8),
    /// Apply a firmware preset slot.
    SetPreset(u8, u8),
    /// Resize the first segment.
    SetLedCount(u16),
    /// Set the firmware's default transition time.
    SetTransition(u8),
    /// Reset the first segment to defaults.
    ResetSegment,
    /// Record a power state the board already shows.
    SyncPowerState(bool),
    /// Record a brightness the board already shows.
    SyncBrightnessState(u8),
    /// Record a preset the board already shows.
    SyncPresetState(u8),
    /// Ask for the cached state.
    GetState,
    /// Terminate the actor.
    Shutdown,
}

/// Commands that apply to a whole group.
#[derive(Debug, Clone, Copy, PartialEq, Eq, Structural)]
pub enum GroupCommand {
    /// Power every member on or off.
    SetPower(bool, u8),
    /// Set every member's brightness.
    SetBrightness(u8, u8),
    /// Set every member's colour.
    SetColor { r: u8, g: u8, b: u8, transition: u8 },
    /// Select an effect on every member.
    SetEffect(u8, u8),
    /// Apply a preset slot on every member.
    SetPreset(u8, u8),
}

/// The synthetic state a group reports: on and connected when any
/// member is, the first member's render values, defaults when the group
/// is empty.
pub fn aggregate_group_state(group_id: String, members: Vec<String>,
    member_states: &Vec<BoardState>) -> (r: BoardState)
    ensures
        r.id == group_id,
        r.ip@ == Seq::<char>::empty(),
        r.is_group == Some(true),
        r.member_ids matches Some(m) && m@ == members@,
        r.on == (exists|i: int| 0 <= i < member_states@.len()
            && (#[trigger] member_states@[i]).on),
        r.connected == (exists|i: int| 0 <= i < member_states@.len()
            && (#[trigger] member_states@[i]).connected),
        member_states@.len() > 0 ==> {
            &&& r.color == member_states@[0].color
            &&& r.brightness == member_states@[0].brightness
            &&& r.effect == member_states@[0].effect
            &&& r.speed == member_states@[0].speed
            &&& r.intensity == member_states@[0].intensity
        },
        member_states@.len() == 0 ==> {
            &&& r.color == [255u8, 255u8, 255u8]
            &&& r.brightness == 128
            &&& r.effect == 0
            &&& r.speed == 128
            &&& r.intensity == 128
        },
{
    let mut any_on = false;
    let mut any_connected = false;
    let mut i: usize = 0;
    while i < member_states.len()
        invariant
            i <= member_states@.len(),
            any_on == (exists|j: int| 0 <= j < i
                && (#[trigger] member_states@[j]).on),
            any_connected == (exists|j: int| 0 <= j < i
                && (#[trigger] member_states@[j]).connected),
        decreases member_states@.len() - i,
    {
        let entry = &member_states[i];
        if entry.on {
            any_on = true;
        }
        if entry.connected {
            any_connected = true;
        }
        proof {
            if member_states@[i as int].on {
                assert(exists|j: int| 0 <= j < i + 1
                    && (#[trigger] member_states@[j]).on);
            }
            if member_states@[i as int].connected {
                assert(exists|j: int| 0 <= j < i + 1
                    && (#[trigger] member_states@[j]).connected);
            }
        }
        i = i + 1;
    }
    let (color, brightness, effect, speed, intensity) = if member_states.len() > 0 {
        let first = &member_states[0];
        (first.color, first.brightness, first.effect, first.speed, first.intensity)
    } else {
        ([255u8, 255u8, 255u8], 128u8, 0u8, 128u8, 128u8)
    };
    BoardState {
        id: group_id,
        ip: String::new(),
        on: any_on,
        brightness,
        color,
        effect,
        speed,
        intensity,
        preset: None,
        connected: any_connected,
        led_count: None,
        max_leds: None,
        is_group: Some(true),
        member_ids: Some(members),
    }
}

} // verus!
