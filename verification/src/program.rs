//! Programs: a cue list anchored to an audio track, with a tempo.
//! Loading and saving program documents happens outside the library.

use vstd::prelude::*;
use crate::pattern::clone_string_vec;

verus! {

/// One timestamped cue of a program.
#[derive(Debug, Clone)]
pub struct Cue {
    /// Milliseconds from audio start.
    pub time_ms: u64,
    /// Label for the log.
    pub label: String,
    /// Boards or groups the cue drives.
    pub targets: Vec<String>,
    /// Name of the effect or pattern preset to start.
    pub preset_name: String,
    /// Sync rate in thousandths; one thousand is the program tempo.
    pub sync_rate_milli: u32,
}

impl Cue {
    /// Copy a cue.
    pub fn clone_cue(&self) -> (r: Cue)
        ensures
            r.time_ms == self.time_ms,
            r.label == self.label,
            r.targets@ == self.targets@,
            r.preset_name == self.preset_name,
            r.sync_rate_milli == self.sync_rate_milli,
    {
        Cue {
            time_ms: self.time_ms,
            label: self.label.clone(),
            targets: clone_string_vec(&self.targets),
            preset_name: self.preset_name.clone(),
            sync_rate_milli: self.sync_rate_milli,
        }
    }
}

/// A program: identity, audio reference, tempo and cues.
#[derive(Debug, Clone)]
pub struct Program {
    /// Stable identifier.
    pub id: String,
    /// Song name shown to the operator.
    pub song_name: String,
    /// Track identifier on the external audio host.
    pub loopy_pro_track: String,
    /// Original upload filename.
    pub file_name: String,
    /// Stored audio blob name, when one was uploaded.
    pub audio_file: Option<String>,
    /// Tempo in beats per minute; zero means no beat.
    pub bpm: u32,
    /// Cues, sorted by time after load.
    pub cues: Vec<Cue>,
    /// Creation timestamp.
    pub created_at: String,
}

/// Cue times in order.
pub open spec fn cue_times(cues: Seq<Cue>) -> Seq<u64> {
    cues.map_values(|c: Cue| c.time_ms)
}

/// A program's cues in non-decreasing time order.
pub open spec fn program_cues_sorted(cues: Seq<Cue>) -> bool {
    forall|i: int, j: int| 0 <= i < j < cues.len()
        ==> #[trigger] cues[i].time_ms <= #[trigger] cues[j].time_ms
}

} // verus!
