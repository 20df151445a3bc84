//! Commands and board addressing for the effects renderer.  The renderer
//! itself — one effect at a time, ticked at a fixed cadence — lives in
//! [`crate::effects`]; the thread and socket that drive it live outside
//! the library.

use vstd::prelude::*;
use crate::effects::EffectType;

verus! {

/// One board an effect renders to.
#[derive(Debug, Clone)]
pub struct BoardTarget {
    /// IPv4 literal of the board.
    pub ip: String,
    /// E1.31 universe of the board.
    pub universe: u16,
    /// LEDs on the board.
    pub led_count: usize,
}

impl BoardTarget {
    /// Copy a target.
    pub fn clone_target(&self) -> (r: BoardTarget)
        ensures
            r == *self,
    {
        BoardTarget { ip: self.ip.clone(), universe: self.universe, led_count: self.led_count }
    }
}

/// Copy a target list.
pub fn clone_targets(v: &Vec<BoardTarget>) -> (r: Vec<BoardTarget>)
    ensures
        r@ == v@,
{
    let mut r: Vec<BoardTarget> = Vec::new();
    let mut i: usize = 0;
    while i < v.len()
        invariant
            i <= v@.len(),
            r@ == v@.subrange(0, i as int),
        decreases v@.len() - i,
    {
        r.push(v[i].clone_target());
        assert(v@.subrange(0, i + 1 as int)
            =~= v@.subrange(0, i as int) + seq![v@[i as int]]);
        i = i + 1;
    }
    assert(v@.subrange(0, v@.len() as int) =~= v@);
    r
}

/// What one effect renders: its type, tempo and colour.  The tempo is the
/// program BPM already multiplied by the cue's sync rate, kept in
/// thousandths of a beat per minute; zero is the no-beat sentinel.
#[derive(Debug, Clone)]
pub struct EffectConfig {
    /// Which effect runs.
    pub effect_type: EffectType,
    /// Tempo in milli-BPM; zero means no temporal variation.
    pub bpm_milli: u64,
    /// Render colour.
    pub color: [u8; 3],
}

impl EffectConfig {
    /// Copy a configuration.
    pub fn clone_config(&self) -> (r: EffectConfig)
        ensures
            r == *self,
    {
        EffectConfig {
            effect_type: self.effect_type,
            bpm_milli: self.bpm_milli,
            color: self.color,
        }
    }
}

/// What the effects renderer is told over its command queue.
#[derive(Debug, Clone)]
pub enum EngineCommand {
    /// Replace whatever runs with this effect over these boards.
    Start {
        /// The effect to run.
        config: EffectConfig,
        /// The boards it owns while running.
        boards: Vec<BoardTarget>,
    },
    /// Blackout every owned universe and go idle.
    Stop,
}

} // verus!
