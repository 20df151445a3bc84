//! Playback history: the per-session record assembled from the timing
//! counters when a show starts and ends.  The session files on disk are
//! the caller's business.

use vstd::prelude::*;
use crate::metrics::MetricsSnapshot;

verus! {

/// One recorded playback session.
#[derive(Debug, Clone)]
pub struct PlaybackSession {
    /// Stable identifier.
    pub id: String,
    /// The program that played.
    pub program_id: String,
    /// Its display name.
    pub program_name: String,
    /// Wall-clock milliseconds at the start.
    pub started_at: u64,
    /// Wall-clock milliseconds at the end, once ended.
    pub ended_at: Option<u64>,
    /// How long the session ran.
    pub duration_ms: u64,
    /// Cues fired.
    pub cue_count: u64,
    /// Cues whose drift reached the threshold.
    pub cues_drifted: u64,
    /// Mean cue drift in microseconds.
    pub cue_drift_avg_us: u64,
    /// Largest cue drift in microseconds.
    pub cue_drift_max_us: u64,
    /// Packets sent.
    pub packets_ok: u64,
    /// Sends refused by a full buffer.
    pub packets_wouldblock: u64,
    /// Sends that failed hard.
    pub packets_err: u64,
    /// Renderer ticks measured.
    pub frame_count: u64,
    /// Mean tick length in microseconds.
    pub frame_avg_us: u64,
    /// Whether the program ran to its end.
    pub completed: bool,
}

/// Open a session record at the start of playback.
pub fn start_session(id: String, program_id: String, program_name: String, now_ms: u64)
    -> (r: PlaybackSession)
    ensures
        r.id == id,
        r.program_id == program_id,
        r.program_name == program_name,
        r.started_at == now_ms,
        r.ended_at is None,
        r.duration_ms == 0,
        r.cue_count == 0,
        r.completed == false,
{
    PlaybackSession {
        id,
        program_id,
        program_name,
        started_at: now_ms,
        ended_at: None,
        duration_ms: 0,
        cue_count: 0,
        cues_drifted: 0,
        cue_drift_avg_us: 0,
        cue_drift_max_us: 0,
        packets_ok: 0,
        packets_wouldblock: 0,
        packets_err: 0,
        frame_count: 0,
        frame_avg_us: 0,
        completed: false,
    }
}

/// Close a session record: stamp the end, compute the duration and the
/// mean drift and tick length, and copy the counters.
pub fn end_session(session: &mut PlaybackSession, metrics: &MetricsSnapshot, now_ms: u64,
    completed: bool)
    ensures
        final(session).id == old(session).id,
        final(session).program_id == old(session).program_id,
        final(session).program_name == old(session).program_name,
        final(session).started_at == old(session).started_at,
        final(session).ended_at == Some(now_ms),
        final(session).duration_ms == (if now_ms >= old(session).started_at {
            now_ms - old(session).started_at
        } else {
            0int
        }),
        final(session).cue_count == metrics.cue_count,
        final(session).cues_drifted == metrics.cues_drifted,
        final(session).cue_drift_avg_us == (if metrics.cue_count > 0 {
            (metrics.cue_drift_total_us / metrics.cue_count) as u64
        } else {
            0u64
        }),
        final(session).cue_drift_max_us == metrics.cue_drift_max_us,
        final(session).packets_ok == metrics.packets_ok,
        final(session).packets_wouldblock == metrics.packets_wouldblock,
        final(session).packets_err == metrics.packets_err,
        final(session).frame_count == metrics.frame_count,
        final(session).frame_avg_us == (if metrics.frame_count > 0 {
            (metrics.frame_total_us / metrics.frame_count) as u64
        } else {
            0u64
        }),
        final(session).completed == completed,
{
    session.ended_at = Some(now_ms);
    session.duration_ms = if now_ms >= session.started_at {
        now_ms - session.started_at
    } else {
        0
    };
    session.cue_count = metrics.cue_count;
    session.cues_drifted = metrics.cues_drifted;
    session.cue_drift_avg_us = if metrics.cue_count > 0 {
        metrics.cue_drift_total_us / metrics.cue_count
    } else {
        0
    };
    session.cue_drift_max_us = metrics.cue_drift_max_us;
    session.packets_ok = metrics.packets_ok;
    session.packets_wouldblock = metrics.packets_wouldblock;
    session.packets_err = metrics.packets_err;
    session.frame_count = metrics.frame_count;
    session.frame_avg_us = if metrics.frame_count > 0 {
        metrics.frame_total_us / metrics.frame_count
    } else {
        0
    };
    session.completed = completed;
}

/// Acknowledgement of a deleted session.
#[derive(Debug, Clone)]
pub struct DeleteResponse {
    /// Whether the session was removed.
    pub deleted: bool,
}

/// Acknowledgement of a cleared history.
#[derive(Debug, Clone)]
pub struct ClearResponse {
    /// How many sessions were removed.
    pub cleared: u64,
}

/// One pattern preset as listed to the operator.
#[derive(Debug, Clone)]
pub struct PatternPresetResponse {
    /// Preset name.
    pub name: String,
    /// Pattern type, spelled in lower case.
    pub pattern: String,
    /// Render colour.
    pub color: [u8; 3],
}

} // verus!
