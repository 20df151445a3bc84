//! Control-plane and real-time execution core for a fleet of networked
//! addressable-LED boards used in live performance.
//!
//! The library covers the E1.31 (sACN) wire codec, the effect and pattern
//! renderers, cue scheduling, playback planning, the per-board actor state
//! machine, preset and configuration bookkeeping, and the audio-host control
//! encoding.  All I/O (UDP, WebSocket, HTTP, disk) lives outside; the
//! functions here turn plain values into plain values and carry contracts.

pub mod actor;
pub mod audio;
pub mod board;
pub mod codec;
pub mod config;
pub mod e131;
pub mod effects;
pub mod effects_engine;
pub mod engine;
pub mod fmt;
pub mod group;
pub mod history;
pub mod lookup;
pub mod metrics;
pub mod osc;
pub mod pattern;
pub mod pattern_engine;
pub mod preset;
pub mod program;
pub mod rng;
pub mod scheduler;
pub mod sse;
pub mod text;
pub mod types;
pub mod wled;
