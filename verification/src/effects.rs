//! The effect catalogue: continuous time-varying DMX renderers.  Each
//! effect turns an elapsed time and a universe into at most a few frames
//! per tick; all timing is integer milliseconds and all envelopes are
//! thousandths, so every frame byte is pinned by a specification.

use vstd::prelude::*;
use vstd::string::StringSliceAdditionalSpecFns;
use crate::e131::{frame_raw_leds, spec_raw_frame, DMX_PAYLOAD_LEN};

verus! {

/// The effect types a preset can name.
#[derive(Debug, Clone, Copy, PartialEq, Eq, Structural)]
pub enum EffectType {
    /// BPM square wave.
    Strobe,
    /// One frame of colour, then silence.
    Solid,
    /// Exponential decay each beat.
    Pulse,
    /// Random bursts each beat over a fading buffer.
    Bursts,
    /// One flash, a quadratic fade, then silence.
    Flash,
    /// Beat-synchronous upward sweep with a trail.
    WipeUp,
    /// Beat-synchronous sweep out of the centre.
    WipeCenter,
    /// Stochastic flicker over a pulsing base.
    Lightning,
    /// Random expanding puddles.
    Puddles,
    /// Sub-beat sparks with neighbour glow.
    Sparkle,
}

/// One byte folded to ASCII lower case.
pub open spec fn lower_byte(b: u8) -> u8 {
    if 65 <= b <= 90 {
        (b + 32) as u8
    } else {
        b
    }
}

/// A byte string folded to ASCII lower case.
pub open spec fn ascii_lower_bytes(s: Seq<u8>) -> Seq<u8> {
    s.map_values(|b: u8| lower_byte(b))
}

/// Which effect type a name denotes, after ASCII case folding.
pub open spec fn spec_parse_effect(s: Seq<u8>) -> Option<EffectType> {
    let l = ascii_lower_bytes(s);
    if l == "strobe".spec_bytes() {
        Some(EffectType::Strobe)
    } else if l == "solid".spec_bytes() {
        Some(EffectType::Solid)
    } else if l == "pulse".spec_bytes() {
        Some(EffectType::Pulse)
    } else if l == "bursts".spec_bytes() {
        Some(EffectType::Bursts)
    } else if l == "flash".spec_bytes() {
        Some(EffectType::Flash)
    } else if l == "wipe_up".spec_bytes() {
        Some(EffectType::WipeUp)
    } else if l == "wipe_center".spec_bytes() {
        Some(EffectType::WipeCenter)
    } else if l == "lightning".spec_bytes() {
        Some(EffectType::Lightning)
    } else if l == "puddles".spec_bytes() {
        Some(EffectType::Puddles)
    } else if l == "sparkle".spec_bytes() {
        Some(EffectType::Sparkle)
    } else {
        None
    }
}

/// Whether a name, folded to ASCII lower case, spells the candidate.
fn lowered_eq(s: &[u8], lit: &str) -> (r: bool)
    ensures
        r == (ascii_lower_bytes(s@) == lit.spec_bytes()),
{
    let lb = lit.as_bytes();
    if s.len() != lb.len() {
        assert(ascii_lower_bytes(s@).len() == s@.len());
        return false;
    }
    let mut i: usize = 0;
    while i < s.len()
        invariant
            i <= s@.len(),
            s@.len() == lb@.len(),
            lb@ == lit.spec_bytes(),
            forall|j: int| 0 <= j < i ==> ascii_lower_bytes(s@)[j] == lit.spec_bytes()[j],
        decreases s@.len() - i,
    {
        let b = s[i];
        let low: u8 = if 65 <= b && b <= 90 { b + 32 } else { b };
        if low != lb[i] {
            assert(ascii_lower_bytes(s@)[i as int] != lit.spec_bytes()[i as int]);
            return false;
        }
        i = i + 1;
    }
    proof {
        assert(ascii_lower_bytes(s@) =~= lit.spec_bytes());
    }
    true
}

impl EffectType {
    /// Parse an effect name, ignoring ASCII case.
    pub fn from_str(s: &str) -> (r: Result<EffectType, ()>)
        ensures
            match spec_parse_effect(s.spec_bytes()) {
                Some(t) => r == Ok::<EffectType, ()>(t),
                None => r is Err,
            },
    {
        let b = s.as_bytes();
        if lowered_eq(b, "strobe") {
            Ok(EffectType::Strobe)
        } else if lowered_eq(b, "solid") {
            Ok(EffectType::Solid)
        } else if lowered_eq(b, "pulse") {
            Ok(EffectType::Pulse)
        } else if lowered_eq(b, "bursts") {
            Ok(EffectType::Bursts)
        } else if lowered_eq(b, "flash") {
            Ok(EffectType::Flash)
        } else if lowered_eq(b, "wipe_up") {
            Ok(EffectType::WipeUp)
        } else if lowered_eq(b, "wipe_center") {
            Ok(EffectType::WipeCenter)
        } else if lowered_eq(b, "lightning") {
            Ok(EffectType::Lightning)
        } else if lowered_eq(b, "puddles") {
            Ok(EffectType::Puddles)
        } else if lowered_eq(b, "sparkle") {
            Ok(EffectType::Sparkle)
        } else {
            Err(())
        }
    }
}

/// Length of one beat in milliseconds, or zero when the tempo is the
/// no-beat sentinel.
pub open spec fn spec_beat_len_ms(bpm_milli: u64) -> u64 {
    if bpm_milli == 0 {
        0
    } else {
        (60_000_000u64 / bpm_milli) as u64
    }
}

/// Position inside the current beat in thousandths, or nothing when the
/// tempo has no beat — effects then render without temporal variation.
pub open spec fn spec_beat_phase_milli(elapsed_ms: u64, bpm_milli: u64) -> Option<u32> {
    let len = spec_beat_len_ms(bpm_milli);
    if len == 0 {
        None
    } else {
        Some((((elapsed_ms as int % len as int) * 1000) / len as int) as u32)
    }
}

/// Compute the beat phase in thousandths.
pub fn beat_phase_milli(elapsed_ms: u64, bpm_milli: u64) -> (r: Option<u32>)
    ensures
        r == spec_beat_phase_milli(elapsed_ms, bpm_milli),
        r is Some ==> r->0 < 1000,
{
    if bpm_milli == 0 {
        return None;
    }
    let len: u64 = 60_000_000u64 / bpm_milli;
    if len == 0 {
        return None;
    }
    let rem: u64 = elapsed_ms % len;
    let phase: u64 = (rem * 1000) / len;
    proof {
        assert(rem < len);
        assert(rem as int * 1000 < len as int * 1000) by (nonlinear_arith)
            requires rem < len && len > 0;
        assert(rem as int * 1000 / (len as int) < 1000) by (nonlinear_arith)
            requires rem as int * 1000 < len as int * 1000 && len > 0;
    }
    Some(phase as u32)
}

/// The ordinal of the current beat, or zero under the no-beat sentinel.
pub open spec fn spec_beat_index(elapsed_ms: u64, bpm_milli: u64) -> u64 {
    let len = spec_beat_len_ms(bpm_milli);
    if len == 0 {
        0
    } else {
        (elapsed_ms / len) as u64
    }
}

/// Compute the beat ordinal.
pub fn beat_index(elapsed_ms: u64, bpm_milli: u64) -> (r: u64)
    ensures
        r == spec_beat_index(elapsed_ms, bpm_milli),
{
    if bpm_milli == 0 {
        return 0;
    }
    let len: u64 = 60_000_000u64 / bpm_milli;
    if len == 0 {
        return 0;
    }
    elapsed_ms / len
}

/// Whether a universe is in a done set.
pub fn universe_in(set: &Vec<u16>, universe: u16) -> (r: bool)
    ensures
        r == set@.contains(universe),
{
    let mut i: usize = 0;
    while i < set.len()
        invariant
            i <= set@.len(),
            forall|j: int| 0 <= j < i ==> set@[j] != universe,
        decreases set@.len() - i,
    {
        if set[i] == universe {
            return true;
        }
        i = i + 1;
    }
    false
}

/// Solid: one frame of the colour per universe, thereafter silent.
#[derive(Debug)]
pub struct Solid {
    /// Render colour.
    pub color: [u8; 3],
    /// Universes that already received their frame.
    pub sent_universes: Vec<u16>,
}


/// What one solid tick does: the colour frame once per universe, then
/// silence and an unchanged state.
pub open spec fn solid_tick_post(s: Solid, s2: Solid, universe: u16, led_count: usize,
    frames: Seq<Vec<u8>>) -> bool {
    &&& (s.sent_universes@.contains(universe) ==> frames.len() == 0 && s2 == s)
    &&& (!s.sent_universes@.contains(universe) ==> frames.len() == 1
            && frames[0]@ == spec_raw_frame(led_count, s.color[0], s.color[1], s.color[2])
            && s2.sent_universes@ == s.sent_universes@.push(universe)
            && s2.color == s.color)
}

impl Solid {
    /// A solid effect that has sent nothing yet.
    pub fn new(color: [u8; 3]) -> (r: Solid)
        ensures
            r.color == color,
            r.sent_universes@ == Seq::<u16>::empty(),
    {
        Solid { color, sent_universes: Vec::new() }
    }

    /// Emit the colour frame on the first tick for a universe and nothing
    /// afterwards.
    pub fn tick(&mut self, universe: u16, led_count: usize) -> (r: Option<Vec<u8>>)
        ensures
            solid_tick_post(*old(self), *final(self), universe, led_count,
                if r is Some { seq![r->0] } else { Seq::empty() }),
    {
        if universe_in(&self.sent_universes, universe) {
            return None;
        }
        self.sent_universes.push(universe);
        Some(frame_raw_leds(led_count, self.color[0], self.color[1], self.color[2]))
    }
}

/// The channel level of a flash at an elapsed time: full for the first
/// 30 ms, a quadratic fade to black over the next 200 ms, then zero.
pub open spec fn spec_flash_channel(c: u8, elapsed_ms: u64) -> u8 {
    if elapsed_ms < 30 {
        c
    } else if elapsed_ms < 230 {
        let d = 1000 - ((elapsed_ms - 30) * 1000) / 200;
        ((c * (d * d / 1000)) / 1000) as u8
    } else {
        0
    }
}

/// Compute a flash channel level.
pub fn flash_channel(c: u8, elapsed_ms: u64) -> (r: u8)
    ensures
        r == spec_flash_channel(c, elapsed_ms),
{
    if elapsed_ms < 30 {
        c
    } else if elapsed_ms < 230 {
        let p: u64 = ((elapsed_ms - 30) * 1000) / 200;
        let d: u64 = 1000 - p;
        proof {
            assert((elapsed_ms - 30) * 1000 / 200 <= 1000);
            assert(d * d <= 1000 * 1000) by (nonlinear_arith)
                requires d <= 1000;
            assert(c * (d * d / 1000) <= 255 * 1000) by (nonlinear_arith)
                requires c <= 255 && d * d / 1000 <= 1000;
        }
        let d2: u64 = d * d / 1000;
        ((c as u64 * d2) / 1000) as u8
    } else {
        0
    }
}

/// Flash: 30 ms full on, a 200 ms quadratic fade, then silent for good
/// on that universe.
#[derive(Debug)]
pub struct Flash {
    /// Render colour.
    pub color: [u8; 3],
    /// Universes whose fade has completed.
    pub done_universes: Vec<u16>,
}


/// What one flash tick does: the envelope frame until the fade ends,
/// then one zero frame, then silence on that universe.
pub open spec fn flash_tick_post(s: Flash, s2: Flash, elapsed_ms: u64, universe: u16,
    led_count: usize, frames: Seq<Vec<u8>>) -> bool {
    &&& (s.done_universes@.contains(universe) ==> frames.len() == 0 && s2 == s)
    &&& (!s.done_universes@.contains(universe) ==> frames.len() == 1
            && frames[0]@ == spec_raw_frame(
                led_count,
                spec_flash_channel(s.color[0], elapsed_ms),
                spec_flash_channel(s.color[1], elapsed_ms),
                spec_flash_channel(s.color[2], elapsed_ms),
            )
            && s2.color == s.color
            && (elapsed_ms >= 230 ==> s2.done_universes@
                    == s.done_universes@.push(universe))
            && (elapsed_ms < 230 ==> s2.done_universes@ == s.done_universes@))
}

impl Flash {
    /// A flash that has finished nowhere yet.
    pub fn new(color: [u8; 3]) -> (r: Flash)
        ensures
            r.color == color,
            r.done_universes@ == Seq::<u16>::empty(),
    {
        Flash { color, done_universes: Vec::new() }
    }

    /// Render the flash envelope; after the fade one zero frame is sent
    /// and the universe is marked done.
    pub fn tick(&mut self, elapsed_ms: u64, universe: u16, led_count: usize)
        -> (r: Option<Vec<u8>>)
        ensures
            flash_tick_post(*old(self), *final(self), elapsed_ms, universe, led_count,
                if r is Some { seq![r->0] } else { Seq::empty() }),
    {
        if universe_in(&self.done_universes, universe) {
            return None;
        }
        let r = flash_channel(self.color[0], elapsed_ms);
        let g = flash_channel(self.color[1], elapsed_ms);
        let b = flash_channel(self.color[2], elapsed_ms);
        if elapsed_ms >= 230 {
            self.done_universes.push(universe);
        }
        Some(frame_raw_leds(led_count, r, g, b))
    }
}

/// The pulse brightness at a beat phase.  The design calls for an
/// exponential decay over the beat; that curve is irrational and this
/// library computes only over integers, so the committed curve is the
/// eighth power of the remaining fraction of the beat, which matches
/// the exponential at both ends of the beat and decays a little
/// faster in between.  This polynomial is the curve the contract pins;
/// it is a deliberate stand-in, not an oversight.  Without a beat the
/// brightness stays full.
pub open spec fn spec_pulse_brightness(phase: Option<u32>) -> u8 {
    match phase {
        None => 255,
        Some(p) => {
            let d = (1000 - p) as u64;
            let d2 = d * d / 1000;
            let d4 = d2 * d2 / 1000;
            let d8 = d4 * d4 / 1000;
            ((255 * d8) / 1000) as u8
        },
    }
}

/// Compute the pulse brightness.
pub fn pulse_brightness(phase: Option<u32>) -> (r: u8)
    requires
        phase is Some ==> phase->0 < 1000,
    ensures
        r == spec_pulse_brightness(phase),
{
    match phase {
        None => 255,
        Some(p) => {
            let d: u64 = (1000 - p) as u64;
            proof {
                assert(d * d <= 1000 * 1000) by (nonlinear_arith)
                    requires d <= 1000;
            }
            let d2: u64 = d * d / 1000;
            proof {
                assert(d2 * d2 <= 1000 * 1000) by (nonlinear_arith)
                    requires d2 <= 1000;
            }
            let d4: u64 = d2 * d2 / 1000;
            proof {
                assert(d4 * d4 <= 1000 * 1000) by (nonlinear_arith)
                    requires d4 <= 1000;
                assert(255 * (d4 * d4 / 1000) <= 255 * 1000) by (nonlinear_arith)
                    requires d4 * d4 / 1000 <= 1000;
            }
            let d8: u64 = d4 * d4 / 1000;
            ((255u64 * d8) / 1000) as u8
        },
    }
}

/// One channel scaled by a 0..=255 brightness, rounding down.
pub open spec fn spec_channel_scale(c: u8, brightness: u8) -> u8 {
    ((c * brightness) / 255) as u8
}

/// Pulse: brightness decays over each beat — the integer stand-in
/// curve of [`spec_pulse_brightness`] — and a frame goes out only when
/// the brightness changed since the last frame on that universe.
#[derive(Debug)]
pub struct Pulse {
    /// Render colour.
    pub color: [u8; 3],
    /// Tempo in milli-BPM.
    pub bpm_milli: u64,
    /// Last brightness sent per universe.
    pub last_brightness: Vec<(u16, u8)>,
}

/// The universes of a keyed state list, in order.
pub open spec fn state_keys<S>(v: Seq<(u16, S)>) -> Seq<u16> {
    v.map_values(|p: (u16, S)| p.0)
}

/// Find the state slot of a universe.
pub fn find_state_idx<S>(v: &Vec<(u16, S)>, universe: u16) -> (r: Option<usize>)
    ensures
        match r {
            Some(i) => i < v@.len() && v@[i as int].0 == universe
                && state_keys(v@).index_of_first(universe) == Some(i as int)
                && forall|j: int| 0 <= j < i ==> (#[trigger] v@[j]).0 != universe,
            None => state_keys(v@).index_of_first(universe) is None
                && forall|j: int| 0 <= j < v@.len() ==> (#[trigger] v@[j]).0 != universe,
        },
{
    let mut i: usize = 0;
    while i < v.len()
        invariant
            i <= v@.len(),
            forall|j: int| 0 <= j < i ==> (#[trigger] v@[j]).0 != universe,
        decreases v@.len() - i,
    {
        if v[i].0 == universe {
            proof {
                let keys = state_keys(v@);
                assert(keys[i as int] == universe);
                crate::lookup::lemma_first_occurrence_at(keys, universe, i as int);
            }
            return Some(i);
        }
        i = i + 1;
    }
    proof {
        let keys = state_keys(v@);
        assert forall|j: int| 0 <= j < keys.len() implies keys[j] != universe by {
            assert(v@[j].0 != universe);
        }
        crate::lookup::lemma_no_occurrence(keys, universe);
    }
    None
}


/// What one pulse tick does: the decayed-brightness frame exactly when
/// the brightness changed since the last frame on that universe.
pub open spec fn pulse_tick_post(s: Pulse, s2: Pulse, elapsed_ms: u64, universe: u16,
    led_count: usize, frames: Seq<Vec<u8>>) -> bool {
    let b = spec_pulse_brightness(spec_beat_phase_milli(elapsed_ms, s.bpm_milli));
    let keys = state_keys(s.last_brightness@);
    let last = match keys.index_of_first(universe) {
        Some(k) => s.last_brightness@[k].1,
        None => 255u8,
    };
    &&& s2.color == s.color
    &&& s2.bpm_milli == s.bpm_milli
    &&& (b == last ==> frames.len() == 0
            && s2.last_brightness@ == s.last_brightness@)
    &&& (b != last ==> frames.len() == 1
            && frames[0]@ == spec_raw_frame(
                led_count,
                spec_channel_scale(s.color[0], b),
                spec_channel_scale(s.color[1], b),
                spec_channel_scale(s.color[2], b),
            )
            && state_keys(s2.last_brightness@).index_of_first(universe) is Some)
}

impl Pulse {
    /// A pulse with no per-universe history.
    pub fn new(color: [u8; 3], bpm_milli: u64) -> (r: Pulse)
        ensures
            r.color == color,
            r.bpm_milli == bpm_milli,
            r.last_brightness@ == Seq::<(u16, u8)>::empty(),
    {
        Pulse { color, bpm_milli, last_brightness: Vec::new() }
    }

    /// Render the decay envelope; skip the frame when the brightness is
    /// what that universe already shows.  A universe with no history is
    /// treated as showing full brightness.
    pub fn tick(&mut self, elapsed_ms: u64, universe: u16, led_count: usize)
        -> (r: Option<Vec<u8>>)
        ensures
            pulse_tick_post(*old(self), *final(self), elapsed_ms, universe, led_count,
                if r is Some { seq![r->0] } else { Seq::empty() }),
    {
        let phase = beat_phase_milli(elapsed_ms, self.bpm_milli);
        let b = pulse_brightness(phase);
        let idx = find_state_idx(&self.last_brightness, universe);
        let last: u8 = match idx {
            Some(i) => self.last_brightness[i].1,
            None => 255,
        };
        if b == last {
            return None;
        }
        match idx {
            Some(i) => {
                self.last_brightness.set(i, (universe, b));
                proof {
                    let keys = state_keys(self.last_brightness@);
                    assert(keys[i as int] == universe);
                    crate::lookup::lemma_first_occurrence_at(keys, universe, i as int);
                }
            },
            None => {
                let n = self.last_brightness.len();
                self.last_brightness.push((universe, b));
                proof {
                    let keys = state_keys(self.last_brightness@);
                    assert(keys[n as int] == universe);
                    assert forall|j: int| 0 <= j < n implies keys[j] != universe by {
                        assert(old(self).last_brightness@[j].0 != universe);
                    }
                    crate::lookup::lemma_first_occurrence_at(keys, universe, n as int);
                }
            },
        }
        let rr = scale8(self.color[0], b);
        let gg = scale8(self.color[1], b);
        let bb = scale8(self.color[2], b);
        Some(frame_raw_leds(led_count, rr, gg, bb))
    }
}

/// Scale a channel by a brightness, rounding down.
pub fn scale8(c: u8, brightness: u8) -> (r: u8)
    ensures
        r == spec_channel_scale(c, brightness),
{
    proof {
        assert(c * brightness <= 255 * 255) by (nonlinear_arith)
            requires c <= 255 && brightness <= 255;
    }
    ((c as u32 * brightness as u32) / 255) as u8
}

/// The strobe's on-threshold in thousandths of a beat: at least 25 ms of
/// on-time, clamped between 5% and 15% of the beat.
pub open spec fn spec_strobe_threshold(bpm_milli: u64) -> u32 {
    let len = spec_beat_len_ms(bpm_milli);
    if len == 0 {
        50
    } else {
        let raw = 25_000u64 / len;
        if raw < 50 {
            50
        } else if raw > 150 {
            150
        } else {
            raw as u32
        }
    }
}

/// Whether the strobe is lit at a phase: inside the on-threshold, or
/// always under the no-beat sentinel.
pub open spec fn spec_strobe_on(elapsed_ms: u64, bpm_milli: u64) -> bool {
    match spec_beat_phase_milli(elapsed_ms, bpm_milli) {
        None => true,
        Some(p) => p < spec_strobe_threshold(bpm_milli),
    }
}

/// Strobe: a BPM square wave; frames go out only on edges, three times
/// back to back to defeat packet loss.
#[derive(Debug)]
pub struct Strobe {
    /// Render colour.
    pub color: [u8; 3],
    /// Tempo in milli-BPM.
    pub bpm_milli: u64,
    /// Last lit state per universe.
    pub last_state: Vec<(u16, bool)>,
}


/// What one strobe tick does: three identical frames on an edge of the
/// square wave, nothing otherwise.
pub open spec fn strobe_tick_post(s: Strobe, s2: Strobe, elapsed_ms: u64, universe: u16,
    led_count: usize, frames: Seq<Vec<u8>>) -> bool {
    let on = spec_strobe_on(elapsed_ms, s.bpm_milli);
    let keys = state_keys(s.last_state@);
    let last = match keys.index_of_first(universe) {
        Some(k) => s.last_state@[k].1,
        None => false,
    };
    &&& s2.color == s.color
    &&& s2.bpm_milli == s.bpm_milli
    &&& (on == last ==> frames.len() == 0 && s2.last_state@ == s.last_state@)
    &&& (on != last ==> frames.len() == 3
            && (forall|i: int| 0 <= i < 3 ==> (#[trigger] frames[i])@ == (
                if on {
                    spec_raw_frame(led_count, s.color[0], s.color[1], s.color[2])
                } else {
                    spec_raw_frame(led_count, 0, 0, 0)
                })))
}

impl Strobe {
    /// A strobe with no per-universe history.
    pub fn new(color: [u8; 3], bpm_milli: u64) -> (r: Strobe)
        ensures
            r.color == color,
            r.bpm_milli == bpm_milli,
            r.last_state@ == Seq::<(u16, bool)>::empty(),
    {
        Strobe { color, bpm_milli, last_state: Vec::new() }
    }

    /// Render an edge: three identical frames when the lit state flipped
    /// since the last tick on this universe, nothing otherwise.  A
    /// universe with no history is treated as dark.
    pub fn tick(&mut self, elapsed_ms: u64, universe: u16, led_count: usize)
        -> (r: Vec<Vec<u8>>)
        ensures
            strobe_tick_post(*old(self), *final(self), elapsed_ms, universe, led_count,
                r@),
    {
        let on = if self.bpm_milli == 0 {
            true
        } else {
            let phase = beat_phase_milli(elapsed_ms, self.bpm_milli);
            match phase {
                None => true,
                Some(p) => {
                    let threshold = strobe_threshold(self.bpm_milli);
                    p < threshold
                },
            }
        };
        proof {
            assert(on == spec_strobe_on(elapsed_ms, old(self).bpm_milli));
        }
        let idx = find_state_idx(&self.last_state, universe);
        let last: bool = match idx {
            Some(i) => self.last_state[i].1,
            None => false,
        };
        if on == last {
            return Vec::new();
        }
        match idx {
            Some(i) => {
                self.last_state.set(i, (universe, on));
            },
            None => {
                self.last_state.push((universe, on));
            },
        }
        let (rr, gg, bb) = if on {
            (self.color[0], self.color[1], self.color[2])
        } else {
            (0, 0, 0)
        };
        let mut out: Vec<Vec<u8>> = Vec::new();
        let mut k: usize = 0;
        while k < 3
            invariant
                k <= 3,
                out@.len() == k,
                forall|i: int| 0 <= i < k ==> (#[trigger] out@[i])@
                    == spec_raw_frame(led_count, rr, gg, bb),
        decreases 3 - k,
        {
            out.push(frame_raw_leds(led_count, rr, gg, bb));
            k = k + 1;
        }
        out
    }
}

/// Compute the strobe on-threshold.
pub fn strobe_threshold(bpm_milli: u64) -> (r: u32)
    ensures
        r == spec_strobe_threshold(bpm_milli),
{
    if bpm_milli == 0 {
        return 50;
    }
    let len: u64 = 60_000_000u64 / bpm_milli;
    if len == 0 {
        return 50;
    }
    let raw: u64 = 25_000u64 / len;
    if raw < 50 {
        50
    } else if raw > 150 {
        150
    } else {
        raw as u32
    }
}

/// The eased sweep position of the upward wipe: quadratic in the phase.
pub open spec fn spec_wipe_up_eased(p: u32) -> u32 {
    ((p * p) / 1000) as u32
}

/// The eased sweep position of the centre wipe: inverse quadratic.
pub open spec fn spec_wipe_center_eased(p: u32) -> u32 {
    (1000 - ((1000 - p) * (1000 - p)) / 1000) as u32
}

/// The brightness overshoot near the end of a wipe beat: up to one and a
/// half times over the last eight percent.
pub open spec fn spec_wipe_peak(p: u32) -> u32 {
    if p > 920 {
        if 1000 + (p - 920) * 6 > 1500 {
            1500
        } else {
            (1000 + (p - 920) * 6) as u32
        }
    } else {
        1000
    }
}

/// The trail brightness in thousandths at distance `dist` behind the
/// sweep head: a quadratic fade over the trail, scaled by the peak.
pub open spec fn spec_trail_level(dist: int, trail: int, peak: u32) -> u32 {
    if 0 <= dist < trail {
        let fade = 1000 - dist * 1000 / trail;
        ((fade * fade / 1000) * peak / 1000) as u32
    } else {
        0
    }
}

/// One channel under a thousandths level, clamped to a byte.
pub open spec fn spec_level_channel(c: u8, level: u32) -> u8 {
    if c * level / 1000 > 255 {
        255
    } else {
        ((c * level) / 1000) as u8
    }
}

/// Compute a channel under a thousandths level.
pub fn level_channel(c: u8, level: u32) -> (r: u8)
    requires
        level <= 1500,
    ensures
        r == spec_level_channel(c, level),
{
    proof {
        assert(c * level <= 255 * 1500) by (nonlinear_arith)
            requires c <= 255 && level <= 1500;
    }
    let v: u32 = (c as u32 * level) / 1000;
    if v > 255 {
        255
    } else {
        v as u8
    }
}

/// The colour of LED `i` in an upward wipe frame.
pub open spec fn spec_wipe_up_led(color: [u8; 3], p: u32, n: int, i: int) -> [u8; 3] {
    let fill = spec_wipe_up_eased(p) * (n + 35) / 1000;
    let level = if i < fill {
        spec_trail_level(fill - i, 35, spec_wipe_peak(p))
    } else {
        0
    };
    [
        spec_level_channel(color[0], level),
        spec_level_channel(color[1], level),
        spec_level_channel(color[2], level),
    ]
}

/// The whole LED buffer of an upward wipe frame.
pub open spec fn spec_wipe_up_buffer(color: [u8; 3], p: u32, n: int) -> Seq<[u8; 3]> {
    Seq::new(n as nat, |i: int| spec_wipe_up_led(color, p, n, i))
}

/// The phase a wipe renders: the beat phase, or zero under the no-beat
/// sentinel — the sweep then rests at its start.
pub open spec fn spec_wipe_phase(elapsed_ms: u64, bpm_milli: u64) -> u32 {
    match spec_beat_phase_milli(elapsed_ms, bpm_milli) {
        None => 0,
        Some(p) => p,
    }
}

/// WipeUp: a beat-synchronous upward sweep with a 35-LED quadratic
/// trail and an end-of-beat overshoot.
#[derive(Debug)]
pub struct WipeUp {
    /// Render colour.
    pub color: [u8; 3],
    /// Tempo in milli-BPM.
    pub bpm_milli: u64,
}


/// What one upward-wipe tick does: exactly the sweep frame of the
/// current beat phase.
pub open spec fn wipe_up_tick_post(s: WipeUp, elapsed_ms: u64, led_count: usize,
    frames: Seq<Vec<u8>>) -> bool {
    frames.len() == 1 && frames[0]@ == crate::e131::spec_buffer_frame(spec_wipe_up_buffer(
        s.color,
        spec_wipe_phase(elapsed_ms, s.bpm_milli),
        led_count as int,
    ))
}

impl WipeUp {
    /// An upward wipe.
    pub fn new(color: [u8; 3], bpm_milli: u64) -> (r: WipeUp)
        ensures
            r.color == color,
            r.bpm_milli == bpm_milli,
    {
        WipeUp { color, bpm_milli }
    }

    /// Render the sweep frame for this tick.
    pub fn tick(&self, elapsed_ms: u64, led_count: usize) -> (r: Vec<u8>)
        requires
            led_count <= 512,
        ensures
            wipe_up_tick_post(*self, elapsed_ms, led_count, seq![r]),
            r@.len() == DMX_PAYLOAD_LEN,
    {
        let p: u32 = match beat_phase_milli(elapsed_ms, self.bpm_milli) {
            None => 0,
            Some(q) => q,
        };
        let peak = wipe_peak(p);
        let eased = wipe_up_eased(p);
        proof {
            assert(eased as int * (led_count + 35) <= 1000 * 547) by (nonlinear_arith)
                requires eased <= 1000 && led_count + 35 <= 547;
        }
        let fill: u64 = (eased as u64) * ((led_count + 35) as u64) / 1000;
        let mut buf: Vec<[u8; 3]> = Vec::new();
        let mut i: usize = 0;
        while i < led_count
            invariant
                i <= led_count,
                led_count <= 512,
                p < 1000 || p == 0,
                peak == spec_wipe_peak(p),
                fill == spec_wipe_up_eased(p) * (led_count + 35) / 1000,
                buf@.len() == i,
                forall|j: int| 0 <= j < i ==> buf@[j]
                    == spec_wipe_up_led(self.color, p, led_count as int, j),
            decreases led_count - i,
        {
            let level: u32 = if (i as u64) < fill {
                let dist: u64 = fill - i as u64;
                trail_level(dist, 35, peak)
            } else {
                0u32
            };
            buf.push([
                level_channel(self.color[0], level),
                level_channel(self.color[1], level),
                level_channel(self.color[2], level),
            ]);
            i = i + 1;
        }
        proof {
            assert(buf@ =~= spec_wipe_up_buffer(
                self.color,
                spec_wipe_phase(elapsed_ms, self.bpm_milli),
                led_count as int,
            ));
        }
        crate::e131::frame_led_buffer(&buf)
    }
}

/// Compute the upward-wipe easing.
fn wipe_up_eased(p: u32) -> (r: u32)
    requires
        p < 1000,
    ensures
        r == spec_wipe_up_eased(p),
        r <= 1000,
{
    proof {
        assert(p * p < 1000 * 1000) by (nonlinear_arith)
            requires p < 1000;
    }
    (p * p) / 1000
}

/// Compute the centre-wipe easing.
fn wipe_center_eased(p: u32) -> (r: u32)
    requires
        p < 1000,
    ensures
        r == spec_wipe_center_eased(p),
        r <= 1000,
{
    let d: u32 = 1000 - p;
    proof {
        assert(d * d <= 1000 * 1000) by (nonlinear_arith)
            requires d <= 1000;
        assert(d * d / 1000 <= 1000) by (nonlinear_arith)
            requires d * d <= 1000 * 1000;
    }
    1000 - (d * d) / 1000
}

/// Compute the wipe overshoot.
fn wipe_peak(p: u32) -> (r: u32)
    requires
        p < 1000,
    ensures
        r == spec_wipe_peak(p),
        r <= 1500,
{
    if p > 920 {
        let raw: u32 = 1000 + (p - 920) * 6;
        if raw > 1500 {
            1500
        } else {
            raw
        }
    } else {
        1000
    }
}

/// Compute a trail level.
fn trail_level(dist: u64, trail: u64, peak: u32) -> (r: u32)
    requires
        trail > 0,
        trail <= 64,
        peak <= 1500,
    ensures
        r == spec_trail_level(dist as int, trail as int, peak),
        r <= 1500,
{
    if dist < trail {
        proof {
            assert(dist as int * 1000 <= trail as int * 1000) by (nonlinear_arith)
                requires dist <= trail;
            assert(dist as int * 1000 / (trail as int) <= 1000) by (nonlinear_arith)
                requires dist < trail && trail > 0
                    && dist as int * 1000 <= trail as int * 1000;
        }
        let fade: u64 = 1000 - (dist * 1000) / trail;
        proof {
            assert(fade <= 1000);
            assert(fade * fade <= 1000 * 1000) by (nonlinear_arith)
                requires fade <= 1000;
            assert((fade * fade / 1000) * (peak as u64) <= 1000 * 1500) by (nonlinear_arith)
                requires fade * fade / 1000 <= 1000 && peak <= 1500;
            assert((fade * fade / 1000) * (peak as u64) / 1000 <= 1500) by (nonlinear_arith)
                requires (fade * fade / 1000) * (peak as u64) <= 1000 * 1500;
        }
        let f2: u64 = (fade * fade) / 1000;
        ((f2 * peak as u64) / 1000) as u32
    } else {
        0
    }
}

/// The colour of LED `i` in a centre wipe frame.
pub open spec fn spec_wipe_center_led(color: [u8; 3], p: u32, n: int, i: int) -> [u8; 3] {
    let half = n / 2;
    let dist_from_center = if i < half { half - i } else { i - half };
    let fill = spec_wipe_center_eased(p) * (half + 20) / 1000;
    let level = if dist_from_center < fill {
        spec_trail_level(fill - dist_from_center, 20, spec_wipe_peak(p))
    } else {
        0
    };
    [
        spec_level_channel(color[0], level),
        spec_level_channel(color[1], level),
        spec_level_channel(color[2], level),
    ]
}

/// The whole LED buffer of a centre wipe frame.
pub open spec fn spec_wipe_center_buffer(color: [u8; 3], p: u32, n: int) -> Seq<[u8; 3]> {
    Seq::new(n as nat, |i: int| spec_wipe_center_led(color, p, n, i))
}

/// WipeCenter: a beat-synchronous sweep out of the centre with a 20-LED
/// trail.
#[derive(Debug)]
pub struct WipeCenter {
    /// Render colour.
    pub color: [u8; 3],
    /// Tempo in milli-BPM.
    pub bpm_milli: u64,
}


/// What one centre-wipe tick does: exactly the sweep frame of the
/// current beat phase.
pub open spec fn wipe_center_tick_post(s: WipeCenter, elapsed_ms: u64, led_count: usize,
    frames: Seq<Vec<u8>>) -> bool {
    frames.len() == 1 && frames[0]@ == crate::e131::spec_buffer_frame(
        spec_wipe_center_buffer(
            s.color,
            spec_wipe_phase(elapsed_ms, s.bpm_milli),
            led_count as int,
        ))
}

impl WipeCenter {
    /// A centre wipe.
    pub fn new(color: [u8; 3], bpm_milli: u64) -> (r: WipeCenter)
        ensures
            r.color == color,
            r.bpm_milli == bpm_milli,
    {
        WipeCenter { color, bpm_milli }
    }

    /// Render the sweep frame for this tick.
    pub fn tick(&self, elapsed_ms: u64, led_count: usize) -> (r: Vec<u8>)
        requires
            led_count <= 512,
        ensures
            wipe_center_tick_post(*self, elapsed_ms, led_count, seq![r]),
            r@.len() == DMX_PAYLOAD_LEN,
    {
        let p: u32 = match beat_phase_milli(elapsed_ms, self.bpm_milli) {
            None => 0,
            Some(q) => q,
        };
        let peak = wipe_peak(p);
        let half: usize = led_count / 2;
        let eased = wipe_center_eased(p);
        proof {
            assert(eased as int * (half + 20) <= 1000 * 276) by (nonlinear_arith)
                requires eased <= 1000 && half + 20 <= 276;
        }
        let fill: u64 = (eased as u64) * ((half + 20) as u64) / 1000;
        let mut buf: Vec<[u8; 3]> = Vec::new();
        let mut i: usize = 0;
        while i < led_count
            invariant
                i <= led_count,
                led_count <= 512,
                half == led_count / 2,
                p < 1000 || p == 0,
                peak == spec_wipe_peak(p),
                fill == spec_wipe_center_eased(p) * (half + 20) / 1000,
                buf@.len() == i,
                forall|j: int| 0 <= j < i ==> buf@[j]
                    == spec_wipe_center_led(self.color, p, led_count as int, j),
            decreases led_count - i,
        {
            let dist: usize = if i < half { half - i } else { i - half };
            let level: u32 = if (dist as u64) < fill {
                trail_level(fill - dist as u64, 20, peak)
            } else {
                0u32
            };
            buf.push([
                level_channel(self.color[0], level),
                level_channel(self.color[1], level),
                level_channel(self.color[2], level),
            ]);
            i = i + 1;
        }
        proof {
            assert(buf@ =~= spec_wipe_center_buffer(
                self.color,
                spec_wipe_phase(elapsed_ms, self.bpm_milli),
                led_count as int,
            ));
        }
        crate::e131::frame_led_buffer(&buf)
    }
}

/// A 512-slot black LED buffer.
pub open spec fn spec_zero_buf() -> Seq<[u8; 3]> {
    Seq::new(512, |i: int| [0u8, 0u8, 0u8])
}

/// Allocate a black 512-slot LED buffer.
pub fn zero_leds() -> (v: Vec<[u8; 3]>)
    ensures
        v@ == spec_zero_buf(),
        v@.len() == 512,
{
    let mut v: Vec<[u8; 3]> = Vec::new();
    while v.len() < 512
        invariant
            v@.len() <= 512,
            forall|j: int| 0 <= j < v@.len() ==> v@[j] == [0u8, 0u8, 0u8],
        decreases 512 - v@.len(),
    {
        v.push([0u8, 0u8, 0u8]);
    }
    proof {
        assert(v@ =~= spec_zero_buf());
    }
    v
}

/// Copy a vector of plain values.
pub fn clone_copy_vec<T: Copy>(v: &Vec<T>) -> (r: Vec<T>)
    ensures
        r@ == v@,
{
    let mut r: Vec<T> = Vec::new();
    let mut i: usize = 0;
    while i < v.len()
        invariant
            i <= v@.len(),
            r@ == v@.subrange(0, i as int),
        decreases v@.len() - i,
    {
        r.push(v[i]);
        assert(v@.subrange(0, i + 1 as int)
            =~= v@.subrange(0, i as int) + seq![v@[i as int]]);
        i = i + 1;
    }
    assert(v@.subrange(0, v@.len() as int) =~= v@);
    r
}

/// One channel after the per-tick decay of the bursts buffer.
pub open spec fn spec_fade230(c: u8) -> u8 {
    ((c * 230) / 256) as u8
}

/// One pixel after the per-tick decay of the bursts buffer.
pub open spec fn spec_fade_px_230(p: [u8; 3]) -> [u8; 3] {
    [spec_fade230(p[0]), spec_fade230(p[1]), spec_fade230(p[2])]
}

/// Compute the bursts decay of one pixel.
fn fade_px_230(p: [u8; 3]) -> (r: [u8; 3])
    ensures
        r == spec_fade_px_230(p),
{
    [
        ((p[0] as u16 * 230) / 256) as u8,
        ((p[1] as u16 * 230) / 256) as u8,
        ((p[2] as u16 * 230) / 256) as u8,
    ]
}

/// The beat envelope of the bursts effect in thousandths: one and a half
/// at the beat, decaying quadratically to one.
pub open spec fn spec_bursts_env(p: u32) -> u32 {
    let d = (1000 - p) as u64;
    (1000 + (d * d / 1000) / 2) as u32
}

/// Compute the bursts envelope.
fn bursts_env(p: u32) -> (r: u32)
    requires
        p < 1000 || p == 0,
    ensures
        r == spec_bursts_env(p),
        r <= 1500,
{
    let d: u64 = (1000 - p) as u64;
    proof {
        assert(d * d <= 1000 * 1000) by (nonlinear_arith)
            requires d <= 1000;
    }
    let d2: u64 = d * d / 1000;
    (1000 + (d2 / 2) as u32) as u32
}

/// A 512-byte RGBW payload rendered from an LED buffer under a
/// thousandths envelope, clamped to the first `min(n, 128)` slots.
pub open spec fn spec_env_frame(leds: Seq<[u8; 3]>, env: u32, n: int) -> Seq<u8> {
    let m = if n > 128 { 128 } else { n };
    Seq::new(DMX_PAYLOAD_LEN as nat, |i: int|
        if i / 4 < m {
            if i % 4 == 3 {
                0u8
            } else {
                spec_level_channel(leds[i / 4][i % 4], env)
            }
        } else {
            0u8
        })
}

/// Render an LED buffer under an envelope.
fn env_frame(leds: &Vec<[u8; 3]>, env: u32, n: usize) -> (r: Vec<u8>)
    requires
        leds@.len() == 512,
        env <= 1500,
    ensures
        r@ == spec_env_frame(leds@, env, n as int),
        r@.len() == DMX_PAYLOAD_LEN,
{
    let m: usize = if n > 128 { 128 } else { n };
    let mut f: Vec<u8> = Vec::new();
    let mut i: usize = 0;
    while i < m
        invariant
            i <= m,
            m <= 128,
            m == (if n as int > 128 { 128int } else { n as int }),
            leds@.len() == 512,
            env <= 1500,
            f@.len() == 4 * i,
            forall|j: int| 0 <= j < f@.len() ==> f@[j] == spec_env_frame(leds@, env, n as int)[j],
        decreases m - i,
    {
        let px = leds[i];
        f.push(level_channel(px[0], env));
        f.push(level_channel(px[1], env));
        f.push(level_channel(px[2], env));
        f.push(0);
        i = i + 1;
    }
    while f.len() < DMX_PAYLOAD_LEN
        invariant
            4 * m <= f@.len() <= DMX_PAYLOAD_LEN,
            m == (if n as int > 128 { 128int } else { n as int }),
            leds@.len() == 512,
            env <= 1500,
            forall|j: int| 0 <= j < f@.len() ==> f@[j] == spec_env_frame(leds@, env, n as int)[j],
        decreases DMX_PAYLOAD_LEN - f@.len(),
    {
        f.push(0);
    }
    assert(f@ =~= spec_env_frame(leds@, env, n as int));
    f
}

/// Keys of a per-universe state list are distinct.
pub open spec fn distinct_keys<S>(states: Seq<(u16, S)>) -> bool {
    forall|i: int, j: int| 0 <= i < states.len() && 0 <= j < states.len() && i != j
        ==> (#[trigger] states[i]).0 != (#[trigger] states[j]).0
}

/// Per-universe buffer state of the bursts effect.
#[derive(Debug)]
pub struct BurstsState {
    /// Current LED buffer, 512 slots.
    pub leds: Vec<[u8; 3]>,
    /// Beat ordinal of the last spawn.
    pub last_beat: u64,
}

/// Bursts: every beat three random eight-LED bursts land on a buffer
/// that decays every tick; the whole frame breathes with the beat.
#[derive(Debug)]
pub struct Bursts {
    /// Render colour.
    pub color: [u8; 3],
    /// Tempo in milli-BPM.
    pub bpm_milli: u64,
    /// Per-universe buffers.
    pub states: Vec<(u16, BurstsState)>,
}

/// Well-formed bursts state: distinct universes, full-size buffers.
pub open spec fn bursts_wf(states: Seq<(u16, BurstsState)>) -> bool {
    &&& distinct_keys(states)
    &&& forall|i: int| 0 <= i < states.len()
            ==> (#[trigger] states[i]).1.leds@.len() == 512
}

/// The buffer a universe currently holds, black when it has none yet.
pub open spec fn spec_bursts_leds(states: Seq<(u16, BurstsState)>, universe: u16)
    -> Seq<[u8; 3]> {
    match state_keys(states).index_of_first(universe) {
        Some(k) => states[k].1.leds@,
        None => spec_zero_buf(),
    }
}


/// What one bursts tick does: the buffer decays pixelwise, random
/// bursts may land in the effect colour, and the frame renders the new
/// buffer under the beat envelope.
pub open spec fn bursts_tick_post(s: Bursts, s2: Bursts, elapsed_ms: u64, universe: u16,
    led_count: usize, frames: Seq<Vec<u8>>) -> bool {
    let before = spec_bursts_leds(s.states@, universe);
    let after = spec_bursts_leds(s2.states@, universe);
    &&& bursts_wf(s2.states@)
    &&& s2.color == s.color
    &&& s2.bpm_milli == s.bpm_milli
    &&& frames.len() == 1
    &&& frames[0]@ == spec_env_frame(
            after,
            spec_bursts_env(spec_wipe_phase(elapsed_ms, s.bpm_milli)),
            led_count as int,
        )
    &&& after.len() == 512
    &&& forall|i: int| 0 <= i < 512 ==> #[trigger] after[i]
            == spec_fade_px_230(before[i]) || after[i] == s.color
}

impl Bursts {
    /// A bursts effect with no per-universe buffers yet.
    pub fn new(color: [u8; 3], bpm_milli: u64) -> (r: Bursts)
        ensures
            r.color == color,
            r.bpm_milli == bpm_milli,
            r.states@ == Seq::<(u16, BurstsState)>::empty(),
    {
        Bursts { color, bpm_milli, states: Vec::new() }
    }

    /// Decay the universe's buffer, spawn three bursts on a new beat,
    /// and render the buffer under the beat envelope.  Every pixel of
    /// the new buffer is either the decayed old pixel or the effect
    /// colour.
    pub fn tick(&mut self, elapsed_ms: u64, universe: u16, led_count: usize)
        -> (r: Vec<u8>)
        requires
            led_count <= 512,
            bursts_wf(old(self).states@),
        ensures
            bursts_tick_post(*old(self), *final(self), elapsed_ms, universe, led_count,
                seq![r]),
            r@.len() == DMX_PAYLOAD_LEN,
    {
        let idx = find_state_idx(&self.states, universe);
        let ghost before = spec_bursts_leds(self.states@, universe);
        let mut st: BurstsState = match idx {
            Some(i) => {
                let prev = &self.states[i].1;
                BurstsState { leds: clone_copy_vec(&prev.leds), last_beat: prev.last_beat }
            },
            None => BurstsState { leds: zero_leds(), last_beat: u64::MAX },
        };
        assert(st.leds@ == before);

        let mut i: usize = 0;
        while i < 512
            invariant
                i <= 512,
                st.leds@.len() == 512,
                before.len() == 512,
                forall|j: int| 0 <= j < i ==> #[trigger] st.leds@[j]
                    == spec_fade_px_230(before[j]),
                forall|j: int| i <= j < 512 ==> #[trigger] st.leds@[j] == before[j],
            decreases 512 - i,
        {
            let px = st.leds[i];
            st.leds.set(i, fade_px_230(px));
            i = i + 1;
        }

        let beat = beat_index(elapsed_ms, self.bpm_milli);
        if beat != st.last_beat {
            st.last_beat = beat;
            let mut k: usize = 0;
            while k < 3
                invariant
                    k <= 3,
                    st.leds@.len() == 512,
                    before.len() == 512,
                    led_count <= 512,
                    forall|j: int| 0 <= j < 512 ==> #[trigger] st.leds@[j]
                        == spec_fade_px_230(before[j]) || st.leds@[j] == self.color,
                decreases 3 - k,
            {
                let bound: usize = if led_count > 8 { led_count - 8 } else { 1 };
                let pos = crate::rng::rand_below(bound);
                let mut t: usize = 0;
                while t < 8
                    invariant
                        t <= 8,
                        pos < 512,
                        st.leds@.len() == 512,
                        before.len() == 512,
                        led_count <= 512,
                        forall|j: int| 0 <= j < 512 ==> #[trigger] st.leds@[j]
                            == spec_fade_px_230(before[j]) || st.leds@[j] == self.color,
                    decreases 8 - t,
                {
                    if pos + t < led_count {
                        st.leds.set(pos + t, self.color);
                    }
                    t = t + 1;
                }
                k = k + 1;
            }
        }

        let p: u32 = match beat_phase_milli(elapsed_ms, self.bpm_milli) {
            None => 0,
            Some(q) => q,
        };
        let env = bursts_env(p);
        let frame = env_frame(&st.leds, env, led_count);

        match idx {
            Some(i) => {
                self.states.set(i, (universe, st));
                proof {
                    let keys = state_keys(self.states@);
                    assert(keys[i as int] == universe);
                    crate::lookup::lemma_first_occurrence_at(keys, universe, i as int);
                }
            },
            None => {
                let ghost n0 = self.states@.len();
                self.states.push((universe, st));
                proof {
                    let keys = state_keys(self.states@);
                    assert(keys[n0 as int] == universe);
                    assert forall|j: int| 0 <= j < n0 implies keys[j] != universe by {
                        assert(old(self).states@[j].0 != universe);
                    }
                    crate::lookup::lemma_first_occurrence_at(keys, universe, n0 as int);
                }
            },
        }
        frame
    }
}

/// One channel after the per-tick decay of the puddles buffer.
pub open spec fn spec_fade240(c: u8) -> u8 {
    ((c * 240) / 256) as u8
}

/// One pixel after the per-tick decay of the puddles buffer.
pub open spec fn spec_fade_px_240(p: [u8; 3]) -> [u8; 3] {
    [spec_fade240(p[0]), spec_fade240(p[1]), spec_fade240(p[2])]
}

/// Compute the puddles decay of one pixel.
fn fade_px_240(p: [u8; 3]) -> (r: [u8; 3])
    ensures
        r == spec_fade_px_240(p),
{
    [
        ((p[0] as u16 * 240) / 256) as u8,
        ((p[1] as u16 * 240) / 256) as u8,
        ((p[2] as u16 * 240) / 256) as u8,
    ]
}

/// A puddles channel only brightens over its decayed value, and never
/// beyond the effect colour or what the decay left.
pub open spec fn spec_puddle_ch_ok(before: u8, after: u8, c: u8) -> bool {
    &&& after >= spec_fade240(before)
    &&& after <= (if spec_fade240(before) > c { spec_fade240(before) } else { c })
}

/// One spreading puddle.
#[derive(Debug, Clone, Copy)]
pub struct ActivePuddle {
    /// First LED of the puddle.
    pub position: usize,
    /// LEDs the puddle covers.
    pub size: usize,
    /// Milliseconds since the puddle appeared.
    pub age_ms: u64,
}

/// Per-universe state of the puddles effect.
#[derive(Debug)]
pub struct PuddlesState {
    /// Current LED buffer, 512 slots.
    pub leds: Vec<[u8; 3]>,
    /// When the next puddle appears.
    pub next_puddle_ms: u64,
    /// Puddles still fading in.
    pub puddles: Vec<ActivePuddle>,
}

/// Puddles: random patches fade in quadratically over a buffer that
/// decays fifteen percent per tick; the buffer keeps the maximum.
#[derive(Debug)]
pub struct Puddles {
    /// Render colour.
    pub color: [u8; 3],
    /// Per-universe buffers.
    pub states: Vec<(u16, PuddlesState)>,
}

/// Well-formed puddles state: distinct universes, full-size buffers.
pub open spec fn puddles_wf(states: Seq<(u16, PuddlesState)>) -> bool {
    &&& distinct_keys(states)
    &&& forall|i: int| 0 <= i < states.len()
            ==> (#[trigger] states[i]).1.leds@.len() == 512
}

/// The buffer a universe currently holds, black when it has none yet.
pub open spec fn spec_puddles_leds(states: Seq<(u16, PuddlesState)>, universe: u16)
    -> Seq<[u8; 3]> {
    match state_keys(states).index_of_first(universe) {
        Some(k) => states[k].1.leds@,
        None => spec_zero_buf(),
    }
}


/// A puddle one tick later: twenty-five milliseconds older.
pub open spec fn spec_aged_puddle(p: ActivePuddle) -> ActivePuddle {
    ActivePuddle { position: p.position, size: p.size, age_ms: sat_add64(p.age_ms, 25) }
}

/// One aging step over a puddle list: every puddle ages by exactly
/// twenty-five milliseconds and survives exactly under two hundred.
pub open spec fn spec_retained_puddles(s: Seq<ActivePuddle>) -> Seq<ActivePuddle>
    decreases s.len(),
{
    if s.len() == 0 {
        Seq::empty()
    } else {
        spec_retained_puddles(s.drop_last())
            + (if sat_add64(s.last().age_ms, 25) < 200 {
                seq![spec_aged_puddle(s.last())]
            } else {
                Seq::empty()
            })
    }
}

/// Aging distributes over concatenation.
proof fn lemma_retained_puddles_concat(a: Seq<ActivePuddle>, b: Seq<ActivePuddle>)
    ensures
        spec_retained_puddles(a + b)
            == spec_retained_puddles(a) + spec_retained_puddles(b),
    decreases b.len(),
{
    if b.len() == 0 {
        assert(a + b =~= a);
        assert(spec_retained_puddles(a) + spec_retained_puddles(b)
            =~= spec_retained_puddles(a));
    } else {
        lemma_retained_puddles_concat(a, b.drop_last());
        assert((a + b).drop_last() =~= a + b.drop_last());
        assert((a + b).last() == b.last());
        assert(spec_retained_puddles(a) + spec_retained_puddles(b.drop_last())
            + (if sat_add64(b.last().age_ms, 25) < 200 {
                seq![spec_aged_puddle(b.last())]
            } else {
                Seq::<ActivePuddle>::empty()
            })
            =~= spec_retained_puddles(a) + spec_retained_puddles(b));
    }
}

/// The puddle list a universe currently holds, empty when it has none.
pub open spec fn spec_puddles_list(states: Seq<(u16, PuddlesState)>, universe: u16)
    -> Seq<ActivePuddle> {
    match state_keys(states).index_of_first(universe) {
        Some(k) => states[k].1.puddles@,
        None => Seq::empty(),
    }
}

/// When a universe's next puddle is due, zero when it has no state.
pub open spec fn spec_puddles_next(states: Seq<(u16, PuddlesState)>, universe: u16)
    -> u64 {
    match state_keys(states).index_of_first(universe) {
        Some(k) => states[k].1.next_puddle_ms,
        None => 0,
    }
}

/// Whether a pixel lies under some puddle of a list.
pub open spec fn spec_touched(ps: Seq<ActivePuddle>, i: int) -> bool {
    exists|k: int| 0 <= k < ps.len()
        && (#[trigger] ps[k]).position <= i < ps[k].position + ps[k].size
}



/// What one puddles tick does: the buffer decays pixelwise and only
/// puddles brighten it, the puddle list ages exactly with at most one
/// spawn, and the frame renders the new buffer plainly.
pub open spec fn puddles_tick_post(s: Puddles, s2: Puddles, elapsed_ms: u64,
    universe: u16, led_count: usize, frames: Seq<Vec<u8>>) -> bool {
    let before = spec_puddles_leds(s.states@, universe);
    let after = spec_puddles_leds(s2.states@, universe);
    let plist = spec_puddles_list(s.states@, universe);
    let pafter = spec_puddles_list(s2.states@, universe);
    let survivors = spec_retained_puddles(plist);
    let due = elapsed_ms >= spec_puddles_next(s.states@, universe);
    &&& puddles_wf(s2.states@)
    &&& s2.color == s.color
    &&& frames.len() == 1
    &&& frames[0]@ == spec_env_frame(after, 1000, led_count as int)
    &&& after.len() == 512
    &&& forall|i: int| 0 <= i < 512 ==> {
        &&& spec_puddle_ch_ok(before[i][0], (#[trigger] after[i])[0], s.color[0])
        &&& spec_puddle_ch_ok(before[i][1], after[i][1], s.color[1])
        &&& spec_puddle_ch_ok(before[i][2], after[i][2], s.color[2])
    }
    &&& forall|i: int| 0 <= i < 512
            && !spec_touched(plist, i) && !spec_touched(pafter, i)
            ==> #[trigger] after[i] == spec_fade_px_240(before[i])
    &&& pafter.len() >= survivors.len()
    &&& pafter.take(survivors.len() as int) == survivors
    &&& pafter.len() - survivors.len() <= 1
    &&& forall|i: int| survivors.len() <= i < pafter.len() ==> {
        &&& (#[trigger] pafter[i]).age_ms == 25
        &&& pafter[i].position < led_count
        &&& 1 <= pafter[i].size <= 8
    }
    &&& (!due || led_count == 0 ==> pafter.len() == survivors.len())
    &&& (due && led_count > 0 ==> pafter.len() == survivors.len() + 1)
    &&& (due ==> exists|p: u64| 30 <= p < 120
            && spec_puddles_next(s2.states@, universe) == sat_add64(elapsed_ms, p))
    &&& (!due ==> spec_puddles_next(s2.states@, universe)
            == spec_puddles_next(s.states@, universe))
}

impl Puddles {
    /// A puddles effect with no per-universe buffers yet.
    pub fn new(color: [u8; 3]) -> (r: Puddles)
        ensures
            r.color == color,
            r.states@ == Seq::<(u16, PuddlesState)>::empty(),
    {
        Puddles { color, states: Vec::new() }
    }

    /// Decay the buffer, spawn and age puddles, overlay their fade-in,
    /// and render the buffer plainly.  The puddle list evolves exactly:
    /// every puddle ages by twenty-five milliseconds and survives
    /// exactly under two hundred, and a due tick with LEDs to light
    /// appends exactly one fresh puddle.  Pixels under no puddle decay
    /// exactly; pixels under one sit between their decayed value and
    /// the effect colour.
    #[verifier::rlimit(100)]
    #[verifier::spinoff_prover]
    pub fn tick(&mut self, elapsed_ms: u64, universe: u16, led_count: usize)
        -> (r: Vec<u8>)
        requires
            led_count <= 512,
            puddles_wf(old(self).states@),
        ensures
            puddles_tick_post(*old(self), *final(self), elapsed_ms, universe, led_count,
                seq![r]),
            r@.len() == DMX_PAYLOAD_LEN,
    {
        let idx = find_state_idx(&self.states, universe);
        let ghost before = spec_puddles_leds(self.states@, universe);
        let ghost plist = spec_puddles_list(self.states@, universe);
        let mut st: PuddlesState = match idx {
            Some(i) => {
                let prev = &self.states[i].1;
                PuddlesState {
                    leds: clone_copy_vec(&prev.leds),
                    next_puddle_ms: prev.next_puddle_ms,
                    puddles: clone_copy_vec(&prev.puddles),
                }
            },
            None => PuddlesState { leds: zero_leds(), next_puddle_ms: 0, puddles: Vec::new() },
        };
        assert(st.leds@ == before);
        proof {
            assert(st.puddles@ == plist);
            assert(st.next_puddle_ms == spec_puddles_next(self.states@, universe));
        }

        let mut i: usize = 0;
        while i < 512
            invariant
                i <= 512,
                st.leds@.len() == 512,
                before.len() == 512,
                st.puddles@ == plist,
                st.next_puddle_ms == spec_puddles_next(old(self).states@, universe),
                forall|j: int| 0 <= j < i ==> #[trigger] st.leds@[j]
                    == spec_fade_px_240(before[j]),
                forall|j: int| i <= j < 512 ==> #[trigger] st.leds@[j] == before[j],
            decreases 512 - i,
        {
            let px = st.leds[i];
            st.leds.set(i, fade_px_240(px));
            i = i + 1;
        }
        let ghost faded = st.leds@;

        let due = elapsed_ms >= st.next_puddle_ms;
        if due {
            if led_count > 0 {
                let pos = crate::rng::rand_below(led_count);
                let size = 1 + crate::rng::rand_below(8);
                st.puddles.push(ActivePuddle { position: pos, size, age_ms: 0 });
                proof {
                    assert(st.puddles@.take(plist.len() as int) =~= plist);
                }
            }
            let pause = crate::rng::rand_range_u64(30, 120);
            st.next_puddle_ms = elapsed_ms.saturating_add(pause);
            proof {
                assert(st.next_puddle_ms == sat_add64(elapsed_ms, pause));
            }
        }
        let ghost spawned = st.puddles@.skip(plist.len() as int);
        let ghost next_after = st.next_puddle_ms;
        proof {
            assert(st.puddles@ =~= plist + spawned);
            assert(spawned.len() <= 1);
            assert(forall|q: int| 0 <= q < spawned.len()
                ==> (#[trigger] spawned[q]).age_ms == 0
                    && spawned[q].position < led_count
                    && 1 <= spawned[q].size <= 8);
            assert(!due || led_count == 0 ==> spawned.len() == 0);
            assert(due && led_count > 0 ==> spawned.len() == 1);
        }

        let mut aged: Vec<ActivePuddle> = Vec::new();
        let total = st.puddles.len();
        let ghost pudls0 = st.puddles@;
        let mut k: usize = 0;
        proof {
            assert(pudls0.subrange(0, 0) =~= Seq::<ActivePuddle>::empty());
        }
        while k < total
            invariant
                k <= total,
                st.puddles@ == pudls0,
                st.next_puddle_ms == next_after,
                pudls0.len() == total,
                st.leds@.len() == 512,
                before.len() == 512,
                faded.len() == 512,
                led_count <= 512,
                aged@ == spec_retained_puddles(pudls0.subrange(0, k as int)),
                forall|p: int| 0 <= p < aged@.len()
                    ==> (#[trigger] aged@[p]).age_ms < 200,
                forall|j: int| 0 <= j < 512 && !spec_touched(pudls0, j)
                    ==> #[trigger] st.leds@[j] == faded[j],
                forall|j: int| 0 <= j < 512 ==> {
                    &&& spec_puddle_ch_ok(before[j][0], (#[trigger] st.leds@[j])[0],
                            self.color[0])
                    &&& spec_puddle_ch_ok(before[j][1], st.leds@[j][1], self.color[1])
                    &&& spec_puddle_ch_ok(before[j][2], st.leds@[j][2], self.color[2])
                },
            decreases total - k,
        {
            proof {
                assert(pudls0.subrange(0, k + 1 as int).drop_last()
                    =~= pudls0.subrange(0, k as int));
                assert(pudls0.subrange(0, k + 1 as int).last() == pudls0[k as int]);
            }
            let mut p = st.puddles[k];
            p.age_ms = p.age_ms.saturating_add(25);
            proof {
                assert(p.age_ms == sat_add64(pudls0[k as int].age_ms, 25));
            }
            let level: u32 = if p.age_ms < 150 {
                proof {
                    assert(p.age_ms * p.age_ms <= 150 * 150) by (nonlinear_arith)
                        requires p.age_ms < 150;
                }
                let a: u64 = (p.age_ms * p.age_ms * 1000) / 22500;
                if a > 1000 {
                    1000
                } else {
                    a as u32
                }
            } else {
                1000
            };
            let lr = level_channel(self.color[0], level);
            let lg = level_channel(self.color[1], level);
            let lb = level_channel(self.color[2], level);
            proof {
                lemma_level_channel_bounded(self.color[0], level);
                lemma_level_channel_bounded(self.color[1], level);
                lemma_level_channel_bounded(self.color[2], level);
            }
            let mut t: usize = 0;
            while t < p.size
                invariant
                    t <= p.size,
                    st.puddles@ == pudls0,
                    st.next_puddle_ms == next_after,
                    k < pudls0.len(),
                    p.position == pudls0[k as int].position,
                    p.size == pudls0[k as int].size,
                    st.leds@.len() == 512,
                    before.len() == 512,
                    faded.len() == 512,
                    led_count <= 512,
                    forall|j: int| 0 <= j < 512 && !spec_touched(pudls0, j)
                        ==> #[trigger] st.leds@[j] == faded[j],
                    lr <= self.color[0],
                    lg <= self.color[1],
                    lb <= self.color[2],
                    forall|j: int| 0 <= j < 512 ==> {
                        &&& spec_puddle_ch_ok(before[j][0], (#[trigger] st.leds@[j])[0],
                                self.color[0])
                        &&& spec_puddle_ch_ok(before[j][1], st.leds@[j][1], self.color[1])
                        &&& spec_puddle_ch_ok(before[j][2], st.leds@[j][2], self.color[2])
                    },
                decreases p.size - t,
            {
                let pos = p.position;
                if pos < led_count && t < led_count - pos {
                    let idx2 = pos + t;
                    proof {
                        assert(spec_touched(pudls0, idx2 as int)) by {
                            assert(pudls0[k as int].position <= idx2 as int);
                            assert((idx2 as int)
                                < pudls0[k as int].position + pudls0[k as int].size);
                        }
                    }
                    let cur = st.leds[idx2];
                    let merged: [u8; 3] = [
                        if cur[0] > lr { cur[0] } else { lr },
                        if cur[1] > lg { cur[1] } else { lg },
                        if cur[2] > lb { cur[2] } else { lb },
                    ];
                    st.leds.set(idx2, merged);
                }
                t = t + 1;
            }
            if p.age_ms < 200 {
                aged.push(p);
            }
            proof {
                assert(aged@ =~= spec_retained_puddles(pudls0.subrange(0, k + 1 as int)));
            }
            k = k + 1;
        }
        proof {
            assert(pudls0.subrange(0, pudls0.len() as int) =~= pudls0);
            lemma_retained_puddles_concat(plist, spawned);
            assert(aged@ == spec_retained_puddles(plist) + spec_retained_puddles(spawned));
            assert(aged@.take(spec_retained_puddles(plist).len() as int)
                =~= spec_retained_puddles(plist));
            if spawned.len() == 1 {
                assert(spec_retained_puddles(spawned)
                    =~= seq![spec_aged_puddle(spawned[0])]);
            } else {
                assert(spawned.len() == 0);
                assert(spec_retained_puddles(spawned) =~= Seq::<ActivePuddle>::empty());
            }
        }
        st.puddles = aged;

        let frame = env_frame(&st.leds, 1000, led_count);

        let ghost final_leds = st.leds@;
        let ghost final_puddles = st.puddles@;
        let ghost final_next = st.next_puddle_ms;
        match idx {
            Some(i) => {
                self.states.set(i, (universe, st));
                proof {
                    let keys = state_keys(self.states@);
                    assert(keys[i as int] == universe);
                    crate::lookup::lemma_first_occurrence_at(keys, universe, i as int);
                }
            },
            None => {
                let ghost n0 = self.states@.len();
                self.states.push((universe, st));
                proof {
                    let keys = state_keys(self.states@);
                    assert(keys[n0 as int] == universe);
                    assert forall|j: int| 0 <= j < n0 implies keys[j] != universe by {
                        assert(old(self).states@[j].0 != universe);
                    }
                    crate::lookup::lemma_first_occurrence_at(keys, universe, n0 as int);
                }
            },
        }
        proof {
            assert(spec_puddles_leds(self.states@, universe) == final_leds);
            assert(spec_puddles_list(self.states@, universe) == final_puddles);
            assert(spec_puddles_next(self.states@, universe) == final_next);
            let survivors = spec_retained_puddles(plist);
            assert forall|q: int| survivors.len() <= q < final_puddles.len() implies {
                &&& (#[trigger] final_puddles[q]).age_ms == 25
                &&& final_puddles[q].position < led_count
                &&& 1 <= final_puddles[q].size <= 8
            } by {
                assert(final_puddles[q] == spec_aged_puddle(spawned[0]));
            }
            // A pixel under no old puddle and no surviving puddle was
            // also outside the spawned one, so it kept its exact decay.
            assert forall|j: int| 0 <= j < 512 && !spec_touched(plist, j)
                && !spec_touched(final_puddles, j)
                implies #[trigger] final_leds[j] == spec_fade_px_240(before[j]) by {
                assert(!spec_touched(plist + spawned, j)) by {
                    if spec_touched(plist + spawned, j) {
                        let w = choose|w: int| 0 <= w < (plist + spawned).len()
                            && (#[trigger] (plist + spawned)[w]).position <= j
                            && j < (plist + spawned)[w].position + (plist + spawned)[w].size;
                        if w < plist.len() {
                            assert(spec_touched(plist, j));
                        } else {
                            assert((plist + spawned)[w] == spawned[0]);
                            assert(final_puddles[spec_retained_puddles(plist).len() as int]
                                == spec_aged_puddle(spawned[0]));
                            assert(spec_touched(final_puddles, j));
                        }
                        assert(false);
                    }
                }
                assert(final_leds[j] == faded[j]);
                assert(faded[j] == spec_fade_px_240(before[j]));
            }
        }
        frame
    }
}

/// A levelled channel never exceeds the channel itself while the level
/// stays at or below one.
proof fn lemma_level_channel_bounded(c: u8, level: u32)
    requires
        level <= 1000,
    ensures
        spec_level_channel(c, level) <= c,
{
    assert(c * level <= c * 1000) by (nonlinear_arith)
        requires level <= 1000;
    assert(c * 1000 / 1000 == c);
}

/// Byte addition clamped at full brightness.
pub open spec fn spec_sat_add(a: u8, b: u8) -> u8 {
    if a + b > 255 {
        255
    } else {
        (a + b) as u8
    }
}

/// One spark of the sparkle effect.
#[derive(Debug, Clone, Copy)]
pub struct Spark {
    /// LED the spark sits on.
    pub position: usize,
    /// Remaining brightness in thousandths.
    pub brightness_milli: u32,
}

/// Per-universe state of the sparkle effect.
#[derive(Debug)]
pub struct SparkleState {
    /// Live sparks.
    pub sparks: Vec<Spark>,
    /// Sub-beat ordinal of the last spawn.
    pub last_spawn_beat: u64,
}

/// Sparkle: one to three sparks per beat quarter, decaying fast, each
/// glowing onto its neighbours.
#[derive(Debug)]
pub struct Sparkle {
    /// Render colour.
    pub color: [u8; 3],
    /// Tempo in milli-BPM.
    pub bpm_milli: u64,
    /// Per-universe spark lists.
    pub states: Vec<(u16, SparkleState)>,
}

/// Well-formed sparkle state: distinct universes, spark brightness
/// within one.
pub open spec fn sparkle_wf(states: Seq<(u16, SparkleState)>) -> bool {
    &&& distinct_keys(states)
    &&& forall|i: int, k: int| 0 <= i < states.len()
            && 0 <= k < (#[trigger] states[i]).1.sparks@.len()
            ==> (#[trigger] states[i].1.sparks@[k]).brightness_milli <= 1000
}

/// A buffer with one spark drawn on it: the spark's pixel is replaced by
/// the squared-brightness colour, its neighbours gain a thirty percent
/// glow, clamped.
pub open spec fn spec_apply_spark(buf: Seq<[u8; 3]>, color: [u8; 3], s: Spark)
    -> Seq<[u8; 3]> {
    if s.position >= buf.len() {
        buf
    } else {
        let b2 = ((s.brightness_milli * s.brightness_milli) / 1000) as u32;
        let g = (b2 * 300 / 1000) as u32;
        let main = [
            spec_level_channel(color[0], b2),
            spec_level_channel(color[1], b2),
            spec_level_channel(color[2], b2),
        ];
        let glow = [
            spec_level_channel(color[0], g),
            spec_level_channel(color[1], g),
            spec_level_channel(color[2], g),
        ];
        let pos = s.position as int;
        let b1 = buf.update(pos, main);
        let bl = if pos > 0 {
            b1.update(pos - 1, [
                spec_sat_add(b1[pos - 1][0], glow[0]),
                spec_sat_add(b1[pos - 1][1], glow[1]),
                spec_sat_add(b1[pos - 1][2], glow[2]),
            ])
        } else {
            b1
        };
        if pos + 1 < buf.len() {
            bl.update(pos + 1, [
                spec_sat_add(bl[pos + 1][0], glow[0]),
                spec_sat_add(bl[pos + 1][1], glow[1]),
                spec_sat_add(bl[pos + 1][2], glow[2]),
            ])
        } else {
            bl
        }
    }
}

/// The LED buffer the spark list denotes: sparks drawn in order over a
/// black buffer.
pub open spec fn spec_sparkle_render(sparks: Seq<Spark>, color: [u8; 3], n: nat)
    -> Seq<[u8; 3]>
    decreases sparks.len(),
{
    if sparks.len() == 0 {
        Seq::new(n, |i: int| [0u8, 0u8, 0u8])
    } else {
        spec_apply_spark(spec_sparkle_render(sparks.drop_last(), color, n), color,
            sparks.last())
    }
}

/// Drawing sparks never changes the buffer size.
proof fn lemma_sparkle_render_len(sparks: Seq<Spark>, color: [u8; 3], n: nat)
    ensures
        spec_sparkle_render(sparks, color, n).len() == n,
    decreases sparks.len(),
{
    if sparks.len() > 0 {
        lemma_sparkle_render_len(sparks.drop_last(), color, n);
    }
}

/// Byte addition clamped at full brightness.
fn sat_add(a: u8, b: u8) -> (r: u8)
    ensures
        r == spec_sat_add(a, b),
{
    a.saturating_add(b)
}


/// The spark list a universe currently holds, empty when it has none.
pub open spec fn spec_sparkle_sparks(states: Seq<(u16, SparkleState)>, universe: u16)
    -> Seq<Spark> {
    match state_keys(states).index_of_first(universe) {
        Some(k) => states[k].1.sparks@,
        None => Seq::empty(),
    }
}

/// The last spawn quarter a universe recorded, zero when it has none.
pub open spec fn spec_sparkle_last_beat(states: Seq<(u16, SparkleState)>, universe: u16)
    -> u64 {
    match state_keys(states).index_of_first(universe) {
        Some(k) => states[k].1.last_spawn_beat,
        None => 0,
    }
}

/// The ordinal of the current beat quarter, or zero under the no-beat
/// sentinel.
pub open spec fn spec_sub_beat(elapsed_ms: u64, bpm_milli: u64) -> u64 {
    let len = spec_beat_len_ms(bpm_milli);
    if len / 4 == 0 {
        0
    } else {
        (elapsed_ms as int / (len as int / 4)) as u64
    }
}

/// One decay step over a spark list: every brightness drops by exactly
/// one hundred fifty thousandths and a spark survives exactly when it
/// stays above fifty.
pub open spec fn spec_decayed_sparks(s: Seq<Spark>) -> Seq<Spark>
    decreases s.len(),
{
    if s.len() == 0 {
        Seq::empty()
    } else {
        spec_decayed_sparks(s.drop_last()) + (if s.last().brightness_milli > 200 {
            seq![Spark {
                position: s.last().position,
                brightness_milli: (s.last().brightness_milli - 150) as u32,
            }]
        } else {
            Seq::empty()
        })
    }
}

/// Decay distributes over concatenation.
proof fn lemma_decayed_sparks_concat(a: Seq<Spark>, b: Seq<Spark>)
    ensures
        spec_decayed_sparks(a + b) == spec_decayed_sparks(a) + spec_decayed_sparks(b),
    decreases b.len(),
{
    if b.len() == 0 {
        assert(a + b =~= a);
        assert(spec_decayed_sparks(a) + spec_decayed_sparks(b)
            =~= spec_decayed_sparks(a));
    } else {
        lemma_decayed_sparks_concat(a, b.drop_last());
        assert((a + b).drop_last() =~= a + b.drop_last());
        assert((a + b).last() == b.last());
        assert(spec_decayed_sparks(a) + spec_decayed_sparks(b.drop_last())
            + (if b.last().brightness_milli > 200 {
                seq![Spark {
                    position: b.last().position,
                    brightness_milli: (b.last().brightness_milli - 150) as u32,
                }]
            } else {
                Seq::<Spark>::empty()
            })
            =~= spec_decayed_sparks(a) + spec_decayed_sparks(b));
    }
}

/// Fresh sparks at full brightness all survive one decay at eight
/// hundred fifty.
proof fn lemma_decayed_fresh(s: Seq<Spark>, led_count: usize)
    requires
        forall|i: int| 0 <= i < s.len()
            ==> (#[trigger] s[i]).brightness_milli == 1000 && s[i].position < led_count,
    ensures
        spec_decayed_sparks(s).len() == s.len(),
        forall|i: int| 0 <= i < s.len() ==> (#[trigger] spec_decayed_sparks(s)[i])
            == (Spark { position: s[i].position, brightness_milli: 850u32 }),
    decreases s.len(),
{
    if s.len() > 0 {
        lemma_decayed_fresh(s.drop_last(), led_count);
        assert(s.last().brightness_milli == 1000);
        assert(spec_decayed_sparks(s) =~= spec_decayed_sparks(s.drop_last())
            + seq![Spark { position: s.last().position, brightness_milli: 850u32 }]);
    }
}


/// What one sparkle tick does: every spark decays by exactly one
/// hundred fifty and survives exactly above fifty; a new beat quarter
/// with LEDs to light appends one to three fresh sparks; the frame
/// renders the new spark list in order.
pub open spec fn sparkle_tick_post(s: Sparkle, s2: Sparkle, elapsed_ms: u64,
    universe: u16, led_count: usize, frames: Seq<Vec<u8>>) -> bool {
    let before = spec_sparkle_sparks(s.states@, universe);
    let after = spec_sparkle_sparks(s2.states@, universe);
    let survivors = spec_decayed_sparks(before);
    let changed = spec_sub_beat(elapsed_ms, s.bpm_milli)
        != spec_sparkle_last_beat(s.states@, universe);
    &&& sparkle_wf(s2.states@)
    &&& s2.color == s.color
    &&& s2.bpm_milli == s.bpm_milli
    &&& frames.len() == 1
    &&& frames[0]@ == crate::e131::spec_buffer_frame(spec_sparkle_render(
            after,
            s.color,
            led_count as nat,
        ))
    &&& after.len() >= survivors.len()
    &&& after.take(survivors.len() as int) == survivors
    &&& after.len() - survivors.len() <= 3
    &&& forall|i: int| survivors.len() <= i < after.len()
            ==> (#[trigger] after[i]).brightness_milli == 850
                && after[i].position < led_count
    &&& (!changed || led_count == 0 ==> after.len() == survivors.len())
    &&& (changed && led_count > 0 ==> after.len() > survivors.len())
    &&& spec_sparkle_last_beat(s2.states@, universe)
        == (if changed {
            spec_sub_beat(elapsed_ms, s.bpm_milli)
        } else {
            spec_sparkle_last_beat(s.states@, universe)
        })
}

impl Sparkle {
    /// A sparkle effect with no per-universe sparks yet.
    pub fn new(color: [u8; 3], bpm_milli: u64) -> (r: Sparkle)
        ensures
            r.color == color,
            r.bpm_milli == bpm_milli,
            r.states@ == Seq::<(u16, SparkleState)>::empty(),
    {
        Sparkle { color, bpm_milli, states: Vec::new() }
    }

    /// Spawn sparks on a new beat quarter, decay and drop the dim ones,
    /// and render the spark list in order.
    #[verifier::rlimit(100)]
    #[verifier::spinoff_prover]
    pub fn tick(&mut self, elapsed_ms: u64, universe: u16, led_count: usize)
        -> (r: Vec<u8>)
        requires
            led_count <= 512,
            sparkle_wf(old(self).states@),
        ensures
            sparkle_tick_post(*old(self), *final(self), elapsed_ms, universe, led_count,
                seq![r]),
            r@.len() == DMX_PAYLOAD_LEN,
    {
        let idx = find_state_idx(&self.states, universe);
        let mut st: SparkleState = match idx {
            Some(i) => {
                let prev = &self.states[i].1;
                SparkleState {
                    sparks: clone_copy_vec(&prev.sparks),
                    last_spawn_beat: prev.last_spawn_beat,
                }
            },
            None => SparkleState { sparks: Vec::new(), last_spawn_beat: 0 },
        };
        let ghost before = st.sparks@;
        proof {
            assert(before == spec_sparkle_sparks(self.states@, universe));
            assert(st.last_spawn_beat
                == spec_sparkle_last_beat(self.states@, universe));
        }
        assert(forall|k: int| 0 <= k < st.sparks@.len()
            ==> (#[trigger] st.sparks@[k]).brightness_milli <= 1000);

        let beat_len = if self.bpm_milli == 0 { 0u64 } else { 60_000_000u64 / self.bpm_milli };
        let sub_len: u64 = beat_len / 4;
        let sub_idx: u64 = if sub_len == 0 { 0 } else { elapsed_ms / sub_len };
        proof {
            assert(sub_idx == spec_sub_beat(elapsed_ms, self.bpm_milli));
        }
        let changed = sub_idx != st.last_spawn_beat;
        if changed {
            st.last_spawn_beat = sub_idx;
            if led_count > 0 {
                let spawn_count = 1 + crate::rng::rand_below(3);
                let mut c: usize = 0;
                while c < spawn_count
                    invariant
                        spawn_count <= 3,
                        c <= spawn_count,
                        led_count > 0,
                        st.last_spawn_beat == sub_idx,
                        st.sparks@.len() == before.len() + c,
                        st.sparks@.take(before.len() as int) == before,
                        forall|j: int| before.len() <= j < st.sparks@.len()
                            ==> (#[trigger] st.sparks@[j]).brightness_milli == 1000
                                && st.sparks@[j].position < led_count,
                        forall|k: int| 0 <= k < st.sparks@.len()
                            ==> (#[trigger] st.sparks@[k]).brightness_milli <= 1000,
                    decreases spawn_count - c,
                {
                    let pos = crate::rng::rand_below(led_count);
                    st.sparks.push(Spark { position: pos, brightness_milli: 1000 });
                    proof {
                        assert(st.sparks@.take(before.len() as int) =~= before);
                    }
                    c = c + 1;
                }
            }
        }
        let ghost spawned = st.sparks@.skip(before.len() as int);
        proof {
            assert(st.sparks@ =~= before + spawned);
            assert(spawned.len() <= 3);
            assert(forall|i: int| 0 <= i < spawned.len()
                ==> (#[trigger] spawned[i]).brightness_milli == 1000
                    && spawned[i].position < led_count);
            assert(!changed || led_count == 0 ==> spawned.len() == 0);
            assert(changed && led_count > 0 ==> spawned.len() > 0);
        }

        let mut kept: Vec<Spark> = Vec::new();
        let total = st.sparks.len();
        let ghost sparks0 = st.sparks@;
        let mut k: usize = 0;
        proof {
            assert(sparks0.subrange(0, 0) =~= Seq::<Spark>::empty());
        }
        while k < total
            invariant
                k <= total,
                st.sparks@ == sparks0,
                sparks0.len() == total,
                kept@ == spec_decayed_sparks(sparks0.subrange(0, k as int)),
                forall|j: int| 0 <= j < st.sparks@.len()
                    ==> (#[trigger] st.sparks@[j]).brightness_milli <= 1000,
                forall|j: int| 0 <= j < kept@.len()
                    ==> (#[trigger] kept@[j]).brightness_milli <= 1000,
            decreases total - k,
        {
            proof {
                assert(sparks0.subrange(0, k + 1 as int).drop_last()
                    =~= sparks0.subrange(0, k as int));
                assert(sparks0.subrange(0, k + 1 as int).last() == sparks0[k as int]);
            }
            let mut sp = st.sparks[k];
            sp.brightness_milli = if sp.brightness_milli >= 150 {
                sp.brightness_milli - 150
            } else {
                0
            };
            if sp.brightness_milli > 50 {
                kept.push(sp);
            }
            k = k + 1;
        }
        proof {
            assert(sparks0.subrange(0, sparks0.len() as int) =~= sparks0);
            lemma_decayed_sparks_concat(before, spawned);
            lemma_decayed_fresh(spawned, led_count);
            assert(kept@ == spec_decayed_sparks(before) + spec_decayed_sparks(spawned));
            assert(kept@.take(spec_decayed_sparks(before).len() as int)
                =~= spec_decayed_sparks(before));
        }
        st.sparks = kept;

        let mut buf: Vec<[u8; 3]> = Vec::new();
        while buf.len() < led_count
            invariant
                buf@.len() <= led_count,
                forall|j: int| 0 <= j < buf@.len() ==> buf@[j] == [0u8, 0u8, 0u8],
            decreases led_count - buf@.len(),
        {
            buf.push([0u8, 0u8, 0u8]);
        }
        proof {
            assert(buf@ =~= spec_sparkle_render(
                st.sparks@.subrange(0, 0),
                self.color,
                led_count as nat,
            ));
        }
        let sparks_total = st.sparks.len();
        let mut q: usize = 0;
        while q < sparks_total
            invariant
                q <= sparks_total,
                st.sparks@.len() == sparks_total,
                led_count <= 512,
                forall|j: int| 0 <= j < st.sparks@.len()
                    ==> (#[trigger] st.sparks@[j]).brightness_milli <= 1000,
                buf@ == spec_sparkle_render(
                    st.sparks@.subrange(0, q as int),
                    self.color,
                    led_count as nat,
                ),
                buf@.len() == led_count,
            decreases sparks_total - q,
        {
            let ghost pre = buf@;
            let sp = st.sparks[q];
            if sp.position < led_count {
                let b = sp.brightness_milli;
                proof {
                    assert(b * b <= 1000 * 1000) by (nonlinear_arith)
                        requires b <= 1000;
                }
                let b2: u32 = (b * b) / 1000;
                let g: u32 = (b2 * 300) / 1000;
                let main: [u8; 3] = [
                    level_channel(self.color[0], b2),
                    level_channel(self.color[1], b2),
                    level_channel(self.color[2], b2),
                ];
                buf.set(sp.position, main);
                if sp.position > 0 {
                    let left = buf[sp.position - 1];
                    buf.set(sp.position - 1, [
                        sat_add(left[0], level_channel(self.color[0], g)),
                        sat_add(left[1], level_channel(self.color[1], g)),
                        sat_add(left[2], level_channel(self.color[2], g)),
                    ]);
                }
                if sp.position + 1 < led_count {
                    let right = buf[sp.position + 1];
                    buf.set(sp.position + 1, [
                        sat_add(right[0], level_channel(self.color[0], g)),
                        sat_add(right[1], level_channel(self.color[1], g)),
                        sat_add(right[2], level_channel(self.color[2], g)),
                    ]);
                }
            }
            proof {
                let pref1 = st.sparks@.subrange(0, q + 1 as int);
                assert(pref1.drop_last() =~= st.sparks@.subrange(0, q as int));
                assert(pref1.last() == st.sparks@[q as int]);
                assert(buf@ =~= spec_apply_spark(pre, self.color, st.sparks@[q as int]));
            }
            q = q + 1;
        }
        proof {
            assert(st.sparks@.subrange(0, st.sparks@.len() as int) =~= st.sparks@);
        }
        let frame = crate::e131::frame_led_buffer(&buf);

        let ghost final_sparks = st.sparks@;
        let ghost final_last = st.last_spawn_beat;
        match idx {
            Some(i) => {
                self.states.set(i, (universe, st));
                proof {
                    let keys = state_keys(self.states@);
                    assert(keys[i as int] == universe);
                    crate::lookup::lemma_first_occurrence_at(keys, universe, i as int);
                }
            },
            None => {
                let ghost n0 = self.states@.len();
                self.states.push((universe, st));
                proof {
                    let keys = state_keys(self.states@);
                    assert(keys[n0 as int] == universe);
                    assert forall|j: int| 0 <= j < n0 implies keys[j] != universe by {
                        assert(old(self).states@[j].0 != universe);
                    }
                    crate::lookup::lemma_first_occurrence_at(keys, universe, n0 as int);
                }
            },
        }
        proof {
            assert(spec_sparkle_sparks(self.states@, universe) == final_sparks);
            assert(spec_sparkle_last_beat(self.states@, universe) == final_last);
            let survivors = spec_decayed_sparks(before);
            let extra = spec_decayed_sparks(spawned);
            assert(final_sparks =~= survivors + extra);
            assert(final_sparks.take(survivors.len() as int) =~= survivors);
            assert forall|i: int| survivors.len() <= i < final_sparks.len()
                implies (#[trigger] final_sparks[i]).brightness_milli == 850
                    && final_sparks[i].position < led_count by {
                assert(final_sparks[i] == extra[i - survivors.len()]);
                assert(extra[i - survivors.len()]
                    == (Spark {
                        position: spawned[i - survivors.len()].position,
                        brightness_milli: 850u32,
                    }));
            }
        }
        frame
    }
}


/// Unsigned addition clamped at the largest value, as the timers use.
pub open spec fn sat_add64(a: u64, b: u64) -> u64 {
    if a + b > u64::MAX {
        u64::MAX
    } else {
        (a + b) as u64
    }
}

/// The pulsing base level of the lightning effect in thousandths: a
/// sharp attack over the first twentieth of the beat, a quadratic decay
/// to the three-twentieths mark, darkness after.
pub open spec fn spec_lightning_pulse(p: u32) -> u32 {
    if p < 50 {
        (p * 10) as u32
    } else if p < 150 {
        let d = ((p - 50) * 10) as u64;
        (((1000 - d * d / 1000)) / 2) as u32
    } else {
        0
    }
}

/// Compute the lightning base level.
fn lightning_pulse(p: u32) -> (r: u32)
    requires
        p < 1000 || p == 0,
    ensures
        r == spec_lightning_pulse(p),
        r <= 1000,
{
    if p < 50 {
        p * 10
    } else if p < 150 {
        let d: u64 = ((p - 50) * 10) as u64;
        proof {
            assert(d * d <= 1000 * 1000) by (nonlinear_arith)
                requires d <= 1000;
        }
        ((1000 - (d * d) / 1000) / 2) as u32
    } else {
        0
    }
}

/// Per-universe state of the lightning effect.
#[derive(Debug, Clone, Copy)]
pub struct LightningState {
    /// Flashes left in the current volley.
    pub flash_count: u8,
    /// Flashes the current volley started with.
    pub total_flashes: u8,
    /// First LED of the flash.
    pub flash_start: usize,
    /// Flash extent at the start of the volley.
    pub base_len: usize,
    /// Flash extent at the end of the volley.
    pub max_len: usize,
    /// Whether the flash is lit right now.
    pub flash_on: bool,
    /// When the next state change is due.
    pub next_event_ms: u64,
    /// Whether the long pause after the leader flash is still owed.
    pub after_leader: bool,
}

/// Lightning: stochastic flicker over a pulsing base; volleys of three
/// to five flashes grow from a tenth to half of the strip.
#[derive(Debug)]
pub struct Lightning {
    /// Render colour.
    pub color: [u8; 3],
    /// Tempo in milli-BPM.
    pub bpm_milli: u64,
    /// Per-universe volley state.
    pub states: Vec<(u16, LightningState)>,
}

/// Well-formed lightning state: distinct universes and geometrically
/// sane volleys.
pub open spec fn lightning_wf(states: Seq<(u16, LightningState)>) -> bool {
    &&& distinct_keys(states)
    &&& forall|i: int| 0 <= i < states.len() ==> {
        let st = (#[trigger] states[i]).1;
        &&& st.flash_count <= st.total_flashes
        &&& st.total_flashes <= 5
        &&& st.base_len <= st.max_len
        &&& st.max_len <= 256
        &&& st.flash_start <= 512
    }
}

/// The LED buffer a lightning state denotes: the pulsing base colour
/// everywhere, the full colour over the flash extent while it is lit.
pub open spec fn spec_lightning_buffer(color: [u8; 3], pulse: u32, st: LightningState,
    n: int) -> Seq<[u8; 3]> {
    let base = [
        spec_level_channel(color[0], pulse),
        spec_level_channel(color[1], pulse),
        spec_level_channel(color[2], pulse),
    ];
    let on = st.flash_on && st.total_flashes > 0;
    let progress = if st.total_flashes > 0 {
        1000 - (st.flash_count as int) * 1000 / (st.total_flashes as int)
    } else {
        0
    };
    let flen = st.base_len + (st.max_len - st.base_len) * progress / 1000;
    Seq::new(n as nat, |i: int|
        if on && st.flash_start <= i < st.flash_start + flen {
            color
        } else {
            base
        })
}

/// The state a universe holds, idle darkness when it has none yet.
pub open spec fn spec_lightning_state(states: Seq<(u16, LightningState)>, universe: u16)
    -> LightningState {
    match state_keys(states).index_of_first(universe) {
        Some(k) => states[k].1,
        None => LightningState {
            flash_count: 0,
            total_flashes: 0,
            flash_start: 0,
            base_len: 0,
            max_len: 0,
            flash_on: false,
            next_event_ms: 0,
            after_leader: false,
        },
    }
}


/// What one lightning tick does: the volley state machine advances
/// when its timer is due, and the frame renders the base pulse with
/// the flash overlay of the new state.
pub open spec fn lightning_tick_post(s: Lightning, s2: Lightning, elapsed_ms: u64,
    universe: u16, led_count: usize, frames: Seq<Vec<u8>>) -> bool {
    let before = spec_lightning_state(s.states@, universe);
    let after = spec_lightning_state(s2.states@, universe);
    &&& lightning_wf(s2.states@)
    &&& s2.color == s.color
    &&& s2.bpm_milli == s.bpm_milli
    &&& frames.len() == 1
    &&& frames[0]@ == crate::e131::spec_buffer_frame(spec_lightning_buffer(
            s.color,
            spec_lightning_pulse(spec_wipe_phase(elapsed_ms, s.bpm_milli)),
            after,
            led_count as int,
        ))
    &&& (elapsed_ms < before.next_event_ms ==> after == before)
    &&& (elapsed_ms >= before.next_event_ms && before.flash_count == 0 ==> {
        &&& after.base_len == led_count / 10
        &&& after.max_len == led_count / 2
        &&& after.flash_start + after.max_len <= led_count
        &&& 3 <= after.total_flashes <= 5
        &&& after.flash_count == after.total_flashes
        &&& after.flash_on == true
        &&& after.after_leader == true
        &&& after.next_event_ms == sat_add64(elapsed_ms, 30)
    })
    &&& (elapsed_ms >= before.next_event_ms && before.flash_count > 0
            && before.flash_on ==> {
        &&& after.flash_on == false
        &&& after.flash_count == before.flash_count - 1
        &&& after.after_leader == false
        &&& after.flash_start == before.flash_start
        &&& after.base_len == before.base_len
        &&& after.max_len == before.max_len
        &&& after.total_flashes == before.total_flashes
        &&& (before.after_leader
                ==> after.next_event_ms == sat_add64(elapsed_ms, 150))
        &&& (!before.after_leader && after.flash_count == 0
                ==> exists|p: u64| 100 <= p < 500
                    && after.next_event_ms == sat_add64(elapsed_ms, p))
        &&& (!before.after_leader && after.flash_count > 0
                ==> exists|p: u64| 30 <= p < 80
                    && after.next_event_ms == sat_add64(elapsed_ms, p))
    })
    &&& (elapsed_ms >= before.next_event_ms && before.flash_count > 0
            && !before.flash_on ==> {
        &&& after.flash_on == true
        &&& after.flash_count == before.flash_count - 1
        &&& after.after_leader == before.after_leader
        &&& after.flash_start == before.flash_start
        &&& after.base_len == before.base_len
        &&& after.max_len == before.max_len
        &&& after.total_flashes == before.total_flashes
        &&& exists|p: u64| 20 <= p < 50
            && after.next_event_ms == sat_add64(elapsed_ms, p)
    })
}

impl Lightning {
    /// A lightning effect with no per-universe volleys yet.
    pub fn new(color: [u8; 3], bpm_milli: u64) -> (r: Lightning)
        ensures
            r.color == color,
            r.bpm_milli == bpm_milli,
            r.states@ == Seq::<(u16, LightningState)>::empty(),
    {
        Lightning { color, bpm_milli, states: Vec::new() }
    }

    /// Advance the volley state machine when its timer is due and render
    /// the base pulse with the flash overlay.
    pub fn tick(&mut self, elapsed_ms: u64, universe: u16, led_count: usize)
        -> (r: Vec<u8>)
        requires
            led_count <= 512,
            lightning_wf(old(self).states@),
        ensures
            lightning_tick_post(*old(self), *final(self), elapsed_ms, universe,
                led_count, seq![r]),
            r@.len() == DMX_PAYLOAD_LEN,
    {
        let idx = find_state_idx(&self.states, universe);
        let mut st: LightningState = match idx {
            Some(i) => self.states[i].1,
            None => LightningState {
                flash_count: 0,
                total_flashes: 0,
                flash_start: 0,
                base_len: 0,
                max_len: 0,
                flash_on: false,
                next_event_ms: 0,
                after_leader: false,
            },
        };
        proof {
            assert(st == spec_lightning_state(self.states@, universe));
        }

        if elapsed_ms >= st.next_event_ms {
            if st.flash_count == 0 {
                st.base_len = led_count / 10;
                st.max_len = led_count / 2;
                let bound: usize = led_count - st.max_len;
                st.flash_start = crate::rng::rand_below(bound + 1);
                st.total_flashes = 3 + crate::rng::rand_below(3) as u8;
                st.flash_count = st.total_flashes;
                st.flash_on = true;
                st.after_leader = true;
                st.next_event_ms = elapsed_ms.saturating_add(30);
            } else if st.flash_on {
                st.flash_on = false;
                st.flash_count = st.flash_count - 1;
                if st.after_leader {
                    st.next_event_ms = elapsed_ms.saturating_add(150);
                    st.after_leader = false;
                } else if st.flash_count == 0 {
                    let pause = crate::rng::rand_range_u64(100, 500);
                    st.next_event_ms = elapsed_ms.saturating_add(pause);
                    proof {
                        assert(st.next_event_ms == sat_add64(elapsed_ms, pause));
                    }
                } else {
                    let pause = crate::rng::rand_range_u64(30, 80);
                    st.next_event_ms = elapsed_ms.saturating_add(pause);
                    proof {
                        assert(st.next_event_ms == sat_add64(elapsed_ms, pause));
                    }
                }
            } else {
                st.flash_on = true;
                st.flash_count = st.flash_count - 1;
                let pause = crate::rng::rand_range_u64(20, 50);
                st.next_event_ms = elapsed_ms.saturating_add(pause);
                proof {
                    assert(st.next_event_ms == sat_add64(elapsed_ms, pause));
                }
            }
        }

        let p: u32 = match beat_phase_milli(elapsed_ms, self.bpm_milli) {
            None => 0,
            Some(q) => q,
        };
        let pulse = lightning_pulse(p);
        let base: [u8; 3] = [
            level_channel(self.color[0], pulse),
            level_channel(self.color[1], pulse),
            level_channel(self.color[2], pulse),
        ];

        let on = st.flash_on && st.total_flashes > 0;
        let flen: usize = if st.total_flashes > 0 {
            proof {
                let c = st.flash_count as int;
                let t = st.total_flashes as int;
                assert(c * 1000 <= t * 1000) by (nonlinear_arith)
                    requires c <= t;
                assert(c * 1000 / t <= 1000) by (nonlinear_arith)
                    requires t > 0 && c * 1000 <= t * 1000;
                let w = (st.max_len - st.base_len) as int;
                let pr = 1000 - c * 1000 / t;
                assert(w * pr <= w * 1000) by (nonlinear_arith)
                    requires 0 <= pr <= 1000 && w >= 0;
                assert(w * pr / 1000 <= w) by (nonlinear_arith)
                    requires w * pr <= w * 1000;
            }
            let progress: usize = 1000
                - (st.flash_count as usize) * 1000 / (st.total_flashes as usize);
            st.base_len + (st.max_len - st.base_len) * progress / 1000
        } else {
            0
        };
        proof {
            assert(flen <= st.max_len);
        }

        let mut buf: Vec<[u8; 3]> = Vec::new();
        let mut i: usize = 0;
        while i < led_count
            invariant
                i <= led_count,
                led_count <= 512,
                buf@.len() == i,
                on == (st.flash_on && st.total_flashes > 0),
                st.flash_start <= 512,
                st.base_len <= st.max_len <= 256,
                st.flash_count <= st.total_flashes <= 5,
                flen <= st.max_len,
                flen == (if st.total_flashes > 0 {
                    st.base_len + (st.max_len - st.base_len)
                        * (1000 - (st.flash_count as int) * 1000 / (st.total_flashes as int))
                        / 1000
                } else {
                    0int
                }),
                base == [
                    spec_level_channel(self.color[0], pulse),
                    spec_level_channel(self.color[1], pulse),
                    spec_level_channel(self.color[2], pulse),
                ],
                pulse == spec_lightning_pulse(spec_wipe_phase(elapsed_ms, self.bpm_milli)),
                forall|j: int| 0 <= j < i ==> buf@[j] == spec_lightning_buffer(
                    self.color, pulse, st, led_count as int)[j],
            decreases led_count - i,
        {
            if on && i >= st.flash_start && i < st.flash_start + flen {
                buf.push(self.color);
            } else {
                buf.push(base);
            }
            i = i + 1;
        }
        proof {
            assert(buf@ =~= spec_lightning_buffer(
                self.color, pulse, st, led_count as int));
        }
        let frame = crate::e131::frame_led_buffer(&buf);

        match idx {
            Some(i2) => {
                self.states.set(i2, (universe, st));
                proof {
                    let keys = state_keys(self.states@);
                    assert(keys[i2 as int] == universe);
                    crate::lookup::lemma_first_occurrence_at(keys, universe, i2 as int);
                }
            },
            None => {
                let ghost n0 = self.states@.len();
                self.states.push((universe, st));
                proof {
                    let keys = state_keys(self.states@);
                    assert(keys[n0 as int] == universe);
                    assert forall|j: int| 0 <= j < n0 implies keys[j] != universe by {
                        assert(old(self).states@[j].0 != universe);
                    }
                    crate::lookup::lemma_first_occurrence_at(keys, universe, n0 as int);
                }
            },
        }
        proof {
            assert(spec_lightning_state(self.states@, universe) == st);
        }
        frame
    }
}

/// A running effect of any type.
#[derive(Debug)]
pub enum EffectRunner {
    /// A running strobe.
    Strobe(Strobe),
    /// A running solid.
    Solid(Solid),
    /// A running pulse.
    Pulse(Pulse),
    /// Running bursts.
    Bursts(Bursts),
    /// A running flash.
    Flash(Flash),
    /// A running upward wipe.
    WipeUp(WipeUp),
    /// A running centre wipe.
    WipeCenter(WipeCenter),
    /// Running lightning.
    Lightning(Lightning),
    /// Running puddles.
    Puddles(Puddles),
    /// A running sparkle.
    Sparkle(Sparkle),
}

/// The per-universe state of a runner stays well formed.
pub open spec fn runner_wf(r: EffectRunner) -> bool {
    match r {
        EffectRunner::Bursts(b) => bursts_wf(b.states@),
        EffectRunner::Lightning(l) => lightning_wf(l.states@),
        EffectRunner::Puddles(p) => puddles_wf(p.states@),
        EffectRunner::Sparkle(s) => sparkle_wf(s.states@),
        _ => true,
    }
}

impl EffectType {
    /// Instantiate the runner for this effect type.
    pub fn create(&self, color: [u8; 3], bpm_milli: u64) -> (r: EffectRunner)
        ensures
            runner_wf(r),
            *self == EffectType::Strobe ==> (r matches EffectRunner::Strobe(s)
                && s.color == color && s.bpm_milli == bpm_milli),
            *self == EffectType::Solid ==> (r matches EffectRunner::Solid(s)
                && s.color == color),
            *self == EffectType::Pulse ==> (r matches EffectRunner::Pulse(s)
                && s.color == color && s.bpm_milli == bpm_milli),
            *self == EffectType::Bursts ==> (r matches EffectRunner::Bursts(s)
                && s.color == color && s.bpm_milli == bpm_milli),
            *self == EffectType::Flash ==> (r matches EffectRunner::Flash(s)
                && s.color == color),
            *self == EffectType::WipeUp ==> (r matches EffectRunner::WipeUp(s)
                && s.color == color && s.bpm_milli == bpm_milli),
            *self == EffectType::WipeCenter ==> (r matches EffectRunner::WipeCenter(s)
                && s.color == color && s.bpm_milli == bpm_milli),
            *self == EffectType::Lightning ==> (r matches EffectRunner::Lightning(s)
                && s.color == color && s.bpm_milli == bpm_milli),
            *self == EffectType::Puddles ==> (r matches EffectRunner::Puddles(s)
                && s.color == color),
            *self == EffectType::Sparkle ==> (r matches EffectRunner::Sparkle(s)
                && s.color == color && s.bpm_milli == bpm_milli),
    {
        match self {
            EffectType::Strobe => EffectRunner::Strobe(Strobe::new(color, bpm_milli)),
            EffectType::Solid => EffectRunner::Solid(Solid::new(color)),
            EffectType::Pulse => EffectRunner::Pulse(Pulse::new(color, bpm_milli)),
            EffectType::Bursts => EffectRunner::Bursts(Bursts::new(color, bpm_milli)),
            EffectType::Flash => EffectRunner::Flash(Flash::new(color)),
            EffectType::WipeUp => EffectRunner::WipeUp(WipeUp::new(color, bpm_milli)),
            EffectType::WipeCenter => EffectRunner::WipeCenter(WipeCenter::new(color, bpm_milli)),
            EffectType::Lightning => EffectRunner::Lightning(Lightning::new(color, bpm_milli)),
            EffectType::Puddles => EffectRunner::Puddles(Puddles::new(color)),
            EffectType::Sparkle => EffectRunner::Sparkle(Sparkle::new(color, bpm_milli)),
        }
    }
}

impl EffectRunner {
    /// One renderer tick over one universe: the variant is kept and the
    /// frames and next state are exactly what that effect's own tick
    /// produces.
    pub fn tick(self, elapsed_ms: u64, universe: u16, led_count: usize)
        -> (out: (EffectRunner, Vec<Vec<u8>>))
        requires
            led_count <= 512,
            runner_wf(self),
        ensures
            runner_wf(out.0),
            out.1@.len() <= 3,
            forall|i: int| 0 <= i < out.1@.len()
                ==> (#[trigger] out.1@[i])@.len() == DMX_PAYLOAD_LEN,
            self is Strobe ==> (out.0 matches EffectRunner::Strobe(s2)
                && (self matches EffectRunner::Strobe(s)
                    && strobe_tick_post(s, s2, elapsed_ms, universe, led_count, out.1@))),
            self is Solid ==> (out.0 matches EffectRunner::Solid(s2)
                && (self matches EffectRunner::Solid(s)
                    && solid_tick_post(s, s2, universe, led_count, out.1@))),
            self is Pulse ==> (out.0 matches EffectRunner::Pulse(s2)
                && (self matches EffectRunner::Pulse(s)
                    && pulse_tick_post(s, s2, elapsed_ms, universe, led_count, out.1@))),
            self is Bursts ==> (out.0 matches EffectRunner::Bursts(s2)
                && (self matches EffectRunner::Bursts(s)
                    && bursts_tick_post(s, s2, elapsed_ms, universe, led_count, out.1@))),
            self is Flash ==> (out.0 matches EffectRunner::Flash(s2)
                && (self matches EffectRunner::Flash(s)
                    && flash_tick_post(s, s2, elapsed_ms, universe, led_count, out.1@))),
            self is WipeUp ==> (out.0 == self
                && (self matches EffectRunner::WipeUp(s)
                    && wipe_up_tick_post(s, elapsed_ms, led_count, out.1@))),
            self is WipeCenter ==> (out.0 == self
                && (self matches EffectRunner::WipeCenter(s)
                    && wipe_center_tick_post(s, elapsed_ms, led_count, out.1@))),
            self is Lightning ==> (out.0 matches EffectRunner::Lightning(s2)
                && (self matches EffectRunner::Lightning(s)
                    && lightning_tick_post(s, s2, elapsed_ms, universe, led_count,
                        out.1@))),
            self is Puddles ==> (out.0 matches EffectRunner::Puddles(s2)
                && (self matches EffectRunner::Puddles(s)
                    && puddles_tick_post(s, s2, elapsed_ms, universe, led_count,
                        out.1@))),
            self is Sparkle ==> (out.0 matches EffectRunner::Sparkle(s2)
                && (self matches EffectRunner::Sparkle(s)
                    && sparkle_tick_post(s, s2, elapsed_ms, universe, led_count,
                        out.1@))),
    {
        match self {
            EffectRunner::Strobe(mut s) => {
                let frames = s.tick(elapsed_ms, universe, led_count);
                (EffectRunner::Strobe(s), frames)
            },
            EffectRunner::Solid(mut s) => {
                let mut frames: Vec<Vec<u8>> = Vec::new();
                if let Some(f) = s.tick(universe, led_count) {
                    frames.push(f);
                }
                (EffectRunner::Solid(s), frames)
            },
            EffectRunner::Pulse(mut s) => {
                let mut frames: Vec<Vec<u8>> = Vec::new();
                if let Some(f) = s.tick(elapsed_ms, universe, led_count) {
                    frames.push(f);
                }
                (EffectRunner::Pulse(s), frames)
            },
            EffectRunner::Bursts(mut s) => {
                let mut frames: Vec<Vec<u8>> = Vec::new();
                frames.push(s.tick(elapsed_ms, universe, led_count));
                (EffectRunner::Bursts(s), frames)
            },
            EffectRunner::Flash(mut s) => {
                let mut frames: Vec<Vec<u8>> = Vec::new();
                if let Some(f) = s.tick(elapsed_ms, universe, led_count) {
                    frames.push(f);
                }
                (EffectRunner::Flash(s), frames)
            },
            EffectRunner::WipeUp(s) => {
                let mut frames: Vec<Vec<u8>> = Vec::new();
                frames.push(s.tick(elapsed_ms, led_count));
                (EffectRunner::WipeUp(s), frames)
            },
            EffectRunner::WipeCenter(s) => {
                let mut frames: Vec<Vec<u8>> = Vec::new();
                frames.push(s.tick(elapsed_ms, led_count));
                (EffectRunner::WipeCenter(s), frames)
            },
            EffectRunner::Lightning(mut s) => {
                let mut frames: Vec<Vec<u8>> = Vec::new();
                frames.push(s.tick(elapsed_ms, universe, led_count));
                (EffectRunner::Lightning(s), frames)
            },
            EffectRunner::Puddles(mut s) => {
                let mut frames: Vec<Vec<u8>> = Vec::new();
                frames.push(s.tick(elapsed_ms, universe, led_count));
                (EffectRunner::Puddles(s), frames)
            },
            EffectRunner::Sparkle(mut s) => {
                let mut frames: Vec<Vec<u8>> = Vec::new();
                frames.push(s.tick(elapsed_ms, universe, led_count));
                (EffectRunner::Sparkle(s), frames)
            },
        }
    }
}

} // verus!
