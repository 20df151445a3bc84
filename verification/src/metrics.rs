//! Playback timing bookkeeping: cue drift, frame cadence and packet
//! counters, all in integer microseconds.

use vstd::prelude::*;

verus! {

/// Where a drift sample came from.
#[derive(Debug, Clone, Copy, PartialEq, Eq, Structural)]
pub enum DriftSource {
    /// A cue fired off its target instant.
    Cue,
    /// A renderer tick overran its cadence.
    Frame,
}

/// One recorded drift sample.  The label is kept whole: a `String`
/// needs no fixed-width buffer, so nothing is truncated.
#[derive(Debug, Clone)]
pub struct DriftEvent {
    /// Wall-clock milliseconds when it was recorded.
    pub timestamp: u64,
    /// Where it came from.
    pub source: DriftSource,
    /// The drift magnitude in microseconds.
    pub drift_us: u64,
    /// The cue label, where one applies.
    pub label: String,
}

/// A copy of all counters at one instant.
#[derive(Debug, Clone)]
pub struct MetricsSnapshot {
    /// Cues fired.
    pub cue_count: u64,
    /// Cues whose drift reached the threshold.
    pub cues_drifted: u64,
    /// Sum of cue drift magnitudes in microseconds.
    pub cue_drift_total_us: u64,
    /// Largest cue drift in microseconds.
    pub cue_drift_max_us: u64,
    /// Renderer ticks measured.
    pub frame_count: u64,
    /// Sum of tick lengths in microseconds.
    pub frame_total_us: u64,
    /// Longest tick in microseconds.
    pub frame_max_us: u64,
    /// Packets sent.
    pub packets_ok: u64,
    /// Sends refused by a full socket buffer.
    pub packets_wouldblock: u64,
    /// Sends that failed hard.
    pub packets_err: u64,
    /// Drift threshold in microseconds.
    pub drift_threshold_us: u64,
}

/// Running playback metrics.  One writer at a time: the callers that
/// share these counters across threads hold them behind a lock.
#[derive(Debug)]
pub struct TimingMetrics {
    /// Cues fired.
    pub cue_count: u64,
    /// Cues whose drift reached the threshold.
    pub cues_drifted: u64,
    /// Sum of cue drift magnitudes in microseconds.
    pub cue_drift_total_us: u64,
    /// Largest cue drift in microseconds.
    pub cue_drift_max_us: u64,
    /// Renderer ticks measured.
    pub frame_count: u64,
    /// Sum of tick lengths in microseconds.
    pub frame_total_us: u64,
    /// Longest tick in microseconds.
    pub frame_max_us: u64,
    /// Packets sent.
    pub packets_ok: u64,
    /// Sends refused by a full socket buffer.
    pub packets_wouldblock: u64,
    /// Sends that failed hard.
    pub packets_err: u64,
    /// Recent drift samples, newest last, at most one hundred.
    pub events: Vec<DriftEvent>,
    /// Drift threshold in microseconds.
    pub drift_threshold_us: u64,
}

impl TimingMetrics {
    /// Fresh counters with the default ten-millisecond threshold.
    pub fn new() -> (r: TimingMetrics)
        ensures
            r.cue_count == 0,
            r.cues_drifted == 0,
            r.cue_drift_total_us == 0,
            r.cue_drift_max_us == 0,
            r.frame_count == 0,
            r.frame_total_us == 0,
            r.frame_max_us == 0,
            r.packets_ok == 0,
            r.packets_wouldblock == 0,
            r.packets_err == 0,
            r.events@.len() == 0,
            r.drift_threshold_us == 10_000,
    {
        TimingMetrics {
            cue_count: 0,
            cues_drifted: 0,
            cue_drift_total_us: 0,
            cue_drift_max_us: 0,
            frame_count: 0,
            frame_total_us: 0,
            frame_max_us: 0,
            packets_ok: 0,
            packets_wouldblock: 0,
            packets_err: 0,
            events: Vec::new(),
            drift_threshold_us: 10_000,
        }
    }

    /// Record one cue's drift: count it, add it to the totals, keep the
    /// maximum, and keep a sample when it reaches the threshold.  The
    /// sample list never exceeds one hundred entries; the oldest leaves
    /// first.
    pub fn record_cue_drift(&mut self, drift_us: u64, label: String, timestamp: u64)
        ensures
            final(self).cue_count == old(self).cue_count as int + 1
                || final(self).cue_count == u64::MAX,
            final(self).cue_drift_total_us
                == old(self).cue_drift_total_us as int + drift_us
                || final(self).cue_drift_total_us == u64::MAX,
            final(self).cue_drift_max_us
                == (if drift_us > old(self).cue_drift_max_us {
                    drift_us
                } else {
                    old(self).cue_drift_max_us
                }),
            drift_us >= old(self).drift_threshold_us
                ==> (final(self).cues_drifted == old(self).cues_drifted as int + 1
                    || final(self).cues_drifted == u64::MAX),
            drift_us < old(self).drift_threshold_us
                ==> final(self).cues_drifted == old(self).cues_drifted,
            drift_us >= old(self).drift_threshold_us
                ==> ({
                    let e = DriftEvent {
                        timestamp,
                        source: DriftSource::Cue,
                        drift_us,
                        label,
                    };
                    if old(self).events@.len() >= 100 {
                        final(self).events@ == old(self).events@.skip(1).push(e)
                    } else {
                        final(self).events@ == old(self).events@.push(e)
                    }
                }),
            drift_us < old(self).drift_threshold_us
                ==> final(self).events@ == old(self).events@,
            old(self).events@.len() <= 100 ==> final(self).events@.len() <= 100,
            final(self).frame_count == old(self).frame_count,
            final(self).frame_total_us == old(self).frame_total_us,
            final(self).frame_max_us == old(self).frame_max_us,
            final(self).packets_ok == old(self).packets_ok,
            final(self).packets_wouldblock == old(self).packets_wouldblock,
            final(self).packets_err == old(self).packets_err,
            final(self).drift_threshold_us == old(self).drift_threshold_us,
    {
        self.cue_count = if self.cue_count == u64::MAX {
            u64::MAX
        } else {
            self.cue_count + 1
        };
        self.cue_drift_total_us = self.cue_drift_total_us.saturating_add(drift_us);
        if drift_us > self.cue_drift_max_us {
            self.cue_drift_max_us = drift_us;
        }
        if drift_us >= self.drift_threshold_us {
            self.cues_drifted = self.cues_drifted.saturating_add(1);
            if self.events.len() >= 100 {
                self.events.remove(0);
                proof {
                    assert(self.events@ =~= old(self).events@.skip(1));
                }
            }
            self.events.push(DriftEvent {
                timestamp,
                source: DriftSource::Cue,
                drift_us,
                label,
            });
        }
    }

    /// Record one renderer tick length.
    pub fn record_frame_tick(&mut self, actual_us: u64)
        ensures
            final(self).frame_max_us == (if actual_us > old(self).frame_max_us {
                actual_us
            } else {
                old(self).frame_max_us
            }),
            final(self).events@ == old(self).events@,
    {
        self.frame_count = self.frame_count.saturating_add(1);
        self.frame_total_us = self.frame_total_us.saturating_add(actual_us);
        if actual_us > self.frame_max_us {
            self.frame_max_us = actual_us;
        }
    }

    /// Count one delivered packet.
    pub fn record_packet_ok(&mut self)
        ensures
            final(self).packets_ok == old(self).packets_ok as int + 1
                || final(self).packets_ok == u64::MAX,
    {
        self.packets_ok = self.packets_ok.saturating_add(1);
    }

    /// Count one send refused by a full buffer.
    pub fn record_packet_wouldblock(&mut self)
        ensures
            final(self).packets_wouldblock == old(self).packets_wouldblock as int + 1
                || final(self).packets_wouldblock == u64::MAX,
    {
        self.packets_wouldblock = self.packets_wouldblock.saturating_add(1);
    }

    /// Count one failed send.
    pub fn record_packet_err(&mut self)
        ensures
            final(self).packets_err == old(self).packets_err as int + 1
                || final(self).packets_err == u64::MAX,
    {
        self.packets_err = self.packets_err.saturating_add(1);
    }

    /// Change the drift threshold.
    pub fn set_drift_threshold(&mut self, threshold_us: u64)
        ensures
            final(self).drift_threshold_us == threshold_us,
    {
        self.drift_threshold_us = threshold_us;
    }

    /// Read the drift threshold.
    pub fn get_drift_threshold_us(&self) -> (r: u64)
        ensures
            r == self.drift_threshold_us,
    {
        self.drift_threshold_us
    }

    /// Copy every counter.
    pub fn snapshot(&self) -> (r: MetricsSnapshot)
        ensures
            r.cue_count == self.cue_count,
            r.cues_drifted == self.cues_drifted,
            r.cue_drift_total_us == self.cue_drift_total_us,
            r.cue_drift_max_us == self.cue_drift_max_us,
            r.frame_count == self.frame_count,
            r.frame_total_us == self.frame_total_us,
            r.frame_max_us == self.frame_max_us,
            r.packets_ok == self.packets_ok,
            r.packets_wouldblock == self.packets_wouldblock,
            r.packets_err == self.packets_err,
            r.drift_threshold_us == self.drift_threshold_us,
    {
        MetricsSnapshot {
            cue_count: self.cue_count,
            cues_drifted: self.cues_drifted,
            cue_drift_total_us: self.cue_drift_total_us,
            cue_drift_max_us: self.cue_drift_max_us,
            frame_count: self.frame_count,
            frame_total_us: self.frame_total_us,
            frame_max_us: self.frame_max_us,
            packets_ok: self.packets_ok,
            packets_wouldblock: self.packets_wouldblock,
            packets_err: self.packets_err,
            drift_threshold_us: self.drift_threshold_us,
        }
    }

    /// Drop the recorded samples.
    pub fn clear_events(&mut self)
        ensures
            final(self).events@.len() == 0,
            final(self).cue_count == old(self).cue_count,
    {
        self.events.clear();
    }

    /// Zero every counter and drop the samples; the threshold stays.
    pub fn reset(&mut self)
        ensures
            final(self).cue_count == 0,
            final(self).cues_drifted == 0,
            final(self).cue_drift_total_us == 0,
            final(self).cue_drift_max_us == 0,
            final(self).frame_count == 0,
            final(self).frame_total_us == 0,
            final(self).frame_max_us == 0,
            final(self).packets_ok == 0,
            final(self).packets_wouldblock == 0,
            final(self).packets_err == 0,
            final(self).events@.len() == 0,
            final(self).drift_threshold_us == old(self).drift_threshold_us,
    {
        self.cue_count = 0;
        self.cues_drifted = 0;
        self.cue_drift_total_us = 0;
        self.cue_drift_max_us = 0;
        self.frame_count = 0;
        self.frame_total_us = 0;
        self.frame_max_us = 0;
        self.packets_ok = 0;
        self.packets_wouldblock = 0;
        self.packets_err = 0;
        self.events.clear();
    }
}

} // verus!
