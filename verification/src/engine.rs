//! The program engine: turning "play this program from here" into a
//! resolved cue schedule, a pre-blackout, an anchor offset and an audio
//! start, and winding playback down again.  The mailbox loop that
//! carries these plans out lives outside the library.

use vstd::prelude::*;
use vstd::string::StringSliceAdditionalSpecFns;
use crate::config::{spec_target_boards, BoardConfig, Config};
use crate::effects::EffectType;
use crate::effects_engine::{BoardTarget, EffectConfig, EngineCommand};
use crate::pattern_engine::BoardInfo;
use crate::program::Program;
use crate::scheduler::{CueType, PatternCueConfig, ScheduledCue};
use crate::types::string_eq;

verus! {

/// One resolved target a playback drives: its online boards.
#[derive(Debug, Clone)]
pub struct ActiveTarget {
    /// The boards of the target that were online at schedule time.
    pub boards: Vec<BoardTarget>,
}

/// What a running playback remembers for its stop.
#[derive(Debug, Clone)]
pub struct PlaybackState {
    /// The audio track to stop with the lights.
    pub audio_track: Option<String>,
    /// Every target the playback took over.
    pub active_targets: Vec<ActiveTarget>,
}

/// A planned cue schedule together with everything around it: the
/// blackout before the first frame, the anchor offset, and the audio
/// start.
pub struct PlayPlan {
    /// Targets blacked out before the anchor, one per resolved target.
    pub blackout_targets: Vec<ActiveTarget>,
    /// The cues to hand to the scheduler.
    pub cues: Vec<ScheduledCue>,
    /// Milliseconds the lights anchor is pushed past now.
    pub lights_delay_ms: u64,
    /// Milliseconds the audio start waits after the anchor is set.
    pub audio_delay_ms: u64,
    /// The track the audio host plays.
    pub audio_track: String,
}

/// How the signed audio-sync offset splits into the two one-sided
/// delays: a negative offset delays the lights, a positive one the
/// audio, zero neither.
pub fn anchor_delays(audio_sync_delay_ms: i64) -> (r: (u64, u64))
    ensures
        audio_sync_delay_ms < 0 ==> r.0 == -audio_sync_delay_ms && r.1 == 0,
        audio_sync_delay_ms >= 0 ==> r.0 == 0 && r.1 == audio_sync_delay_ms,
{
    if audio_sync_delay_ms < 0 {
        if audio_sync_delay_ms == i64::MIN {
            (9_223_372_036_854_775_808u64, 0)
        } else {
            ((-audio_sync_delay_ms) as u64, 0)
        }
    } else {
        (0, audio_sync_delay_ms as u64)
    }
}

/// Whether a scheduled cue restates one of the program's cues from this
/// start point: same label, fire offset the cue time minus the start.
pub open spec fn cue_from_program(cues: Seq<crate::program::Cue>, start_ms: u64,
    sc: ScheduledCue) -> bool {
    exists|j: int| 0 <= j < cues.len()
        && (#[trigger] cues[j]).time_ms >= start_ms
        && sc.fire_at_ms == cues[j].time_ms - start_ms
        && sc.label == cues[j].label
}


/// Whether a board's address is in the online set.
pub open spec fn board_online(b: BoardConfig, online: Seq<String>) -> bool {
    exists|j: int| 0 <= j < online.len() && (#[trigger] online[j])@ == b.ip@
}

/// The boards of a list whose address is online, in order.
pub open spec fn spec_filter_online(boards: Seq<BoardConfig>, online: Seq<String>)
    -> Seq<BoardConfig>
    decreases boards.len(),
{
    if boards.len() == 0 {
        Seq::empty()
    } else {
        let rest = spec_filter_online(boards.drop_last(), online);
        if board_online(boards.last(), online) {
            rest.push(boards.last())
        } else {
            rest
        }
    }
}

/// What a target contributes to a playback: its resolved boards,
/// filtered to the online set.
pub open spec fn spec_online_boards(cfg: Config, target: Seq<char>, online: Seq<String>)
    -> Seq<BoardConfig> {
    spec_filter_online(spec_target_boards(cfg, target), online)
}

/// The renderer addressing of one board; unconfigured universes default
/// to one and unconfigured sizes to sixty.
pub open spec fn spec_board_target_of(b: BoardConfig) -> BoardTarget {
    BoardTarget {
        ip: b.ip,
        universe: if b.universe is Some {
            b.universe->0
        } else {
            1u16
        },
        led_count: if b.led_count is Some {
            b.led_count->0 as usize
        } else {
            60usize
        },
    }
}

/// The renderer addressing of a board list, in order.
pub open spec fn spec_board_targets(boards: Seq<BoardConfig>) -> Seq<BoardTarget> {
    boards.map_values(|b: BoardConfig| spec_board_target_of(b))
}

/// The pattern addressing of one board.
pub open spec fn spec_board_info_of(b: BoardConfig) -> BoardInfo {
    BoardInfo {
        ip: b.ip,
        universe: if b.universe is Some {
            b.universe->0
        } else {
            1u16
        },
        led_count: if b.led_count is Some {
            b.led_count->0 as usize
        } else {
            60usize
        },
    }
}

/// The pattern addressing table of a board list, in order.
pub open spec fn spec_board_infos(boards: Seq<BoardConfig>) -> Seq<(String, BoardInfo)> {
    boards.map_values(|b: BoardConfig| (b.id, spec_board_info_of(b)))
}

/// The member ids of a board list, in order.
pub open spec fn spec_member_ids(boards: Seq<BoardConfig>) -> Seq<String> {
    boards.map_values(|b: BoardConfig| b.id)
}

/// The names of the pattern presets, in order.
pub open spec fn pattern_preset_names(cfg: Config) -> Seq<Seq<char>> {
    cfg.pattern_presets@.map_values(|p: crate::config::PatternPreset| p.name@)
}

/// The names of the effect presets, in order.
pub open spec fn effect_preset_names(cfg: Config) -> Seq<Seq<char>> {
    cfg.effect_presets@.map_values(|p: crate::config::EffectPreset| p.name@)
}

/// Whether a preset name resolves: found in the pattern table, or its
/// first effect-table entry carries a readable effect type.
pub open spec fn spec_cue_resolvable(cfg: Config, name: Seq<char>) -> bool {
    if pattern_preset_names(cfg).index_of_first(name) is Some {
        true
    } else {
        match effect_preset_names(cfg).index_of_first(name) {
            Some(k) => crate::effects::spec_parse_effect(
                vstd::utf8::encode_utf8(cfg.effect_presets@[k].effect_type@)) is Some,
            None => false,
        }
    }
}

/// What the scheduled cue built for one target carries: the pattern
/// table decides first, then the effect table; pattern cues carry the
/// online members in order and the sync rate unchanged, effect cues
/// carry the tempo multiplied by the sync rate.
pub open spec fn spec_built_cue(cfg: Config, cue: crate::program::Cue, fire_at_ms: u64,
    online: Seq<BoardConfig>, bpm: u32, sc: ScheduledCue) -> bool {
    &&& sc.fire_at_ms == fire_at_ms
    &&& sc.label == cue.label
    &&& match pattern_preset_names(cfg).index_of_first(cue.preset_name@) {
        Some(k) => sc.cue_type matches CueType::Pattern(p) && {
            &&& p.pattern_type == cfg.pattern_presets@[k].pattern
            &&& p.color == cfg.pattern_presets@[k].colour
            &&& p.member_ids@ == spec_member_ids(online)
            &&& p.board_info@ == spec_board_infos(online)
            &&& p.bpm == bpm
            &&& p.sync_rate_milli == cue.sync_rate_milli
        },
        None => match effect_preset_names(cfg).index_of_first(cue.preset_name@) {
            Some(k) => sc.cue_type matches CueType::Effect { config, boards } && {
                &&& crate::effects::spec_parse_effect(vstd::utf8::encode_utf8(
                        cfg.effect_presets@[k].effect_type@)) == Some(config.effect_type)
                &&& config.bpm_milli == bpm * cue.sync_rate_milli
                &&& config.color == cfg.effect_presets@[k].color
                &&& boards@ == spec_board_targets(online)
            },
            None => false,
        },
    }
}

/// Whether some scheduled cue carries this label at this fire offset.
pub open spec fn has_scheduled(cues: Seq<ScheduledCue>, label: String, fire_at_ms: u64)
    -> bool {
    exists|k: int| 0 <= k < cues.len()
        && (#[trigger] cues[k]).label == label
        && cues[k].fire_at_ms == fire_at_ms
}

/// A scheduled match survives appending further cues.
proof fn lemma_has_scheduled_push(cues: Seq<ScheduledCue>, x: ScheduledCue, label: String,
    fire_at_ms: u64)
    requires
        has_scheduled(cues, label, fire_at_ms),
    ensures
        has_scheduled(cues.push(x), label, fire_at_ms),
{
    let k = choose|k: int| 0 <= k < cues.len()
        && (#[trigger] cues[k]).label == label && cues[k].fire_at_ms == fire_at_ms;
    assert(cues.push(x)[k].label == label && cues.push(x)[k].fire_at_ms == fire_at_ms);
}

/// Whether some blackout entry covers exactly these boards.
pub open spec fn blackout_covers(blk: Seq<ActiveTarget>, boards: Seq<BoardConfig>) -> bool {
    exists|k: int| 0 <= k < blk.len()
        && (#[trigger] blk[k]).boards@ == spec_board_targets(boards)
}

/// A blackout entry survives appending further entries.
proof fn lemma_blackout_covers_push(blk: Seq<ActiveTarget>, x: ActiveTarget,
    boards: Seq<BoardConfig>)
    requires
        blackout_covers(blk, boards),
    ensures
        blackout_covers(blk.push(x), boards),
{
    let k = choose|k: int| 0 <= k < blk.len()
        && (#[trigger] blk[k]).boards@ == spec_board_targets(boards);
    assert(blk.push(x)[k].boards@ == spec_board_targets(boards));
}

/// Whether a blackout entry restates some cue target's online boards.
pub open spec fn from_some_target(entry: ActiveTarget, program: Program, cfg: Config,
    online: Seq<String>) -> bool {
    exists|ci: int, ti: int| 0 <= ci < program.cues@.len()
        && 0 <= ti < (#[trigger] program.cues@[ci]).targets@.len()
        && entry.boards@ == spec_board_targets(spec_online_boards(
            cfg, (#[trigger] program.cues@[ci].targets@[ti])@, online))
}

/// Whether a target string is among the ones already handled.
pub open spec fn in_seen(seen: Seq<String>, target: Seq<char>) -> bool {
    exists|j: int| 0 <= j < seen.len() && (#[trigger] seen[j])@ == target
}

/// A handled target stays handled as more are recorded.
proof fn lemma_in_seen_push(seen: Seq<String>, x: String, target: Seq<char>)
    requires
        in_seen(seen, target),
    ensures
        in_seen(seen.push(x), target),
{
    let j = choose|j: int| 0 <= j < seen.len() && (#[trigger] seen[j])@ == target;
    assert(seen.push(x)[j]@ == target);
}

/// Resolve a play request into a full plan.
///
/// Cues before the start point are dropped; the rest fire at their time
/// minus the start.  Each cue's preset name is looked up in the pattern
/// table first, then the effect table, and unknown names are skipped.
/// Targets resolve through the configuration, keeping only boards whose
/// address is in the online set; empty targets are dropped.  The
/// blackout covers every resolved target, the audio track and the
/// anchor delays are always set — a start past the last cue still
/// blacks out and still starts audio, with an empty schedule.
pub fn build_play_plan(program: &Program, start_ms: u64, cfg: &Config,
    online_ips: &Vec<String>) -> (r: PlayPlan)
    ensures
        r.audio_track == program.loopy_pro_track,
        cfg.loopy_pro.audio_sync_delay_ms < 0
            ==> r.lights_delay_ms == -cfg.loopy_pro.audio_sync_delay_ms
                && r.audio_delay_ms == 0,
        cfg.loopy_pro.audio_sync_delay_ms >= 0
            ==> r.lights_delay_ms == 0
                && r.audio_delay_ms == cfg.loopy_pro.audio_sync_delay_ms,
        // Soundness: everything scheduled restates a program cue.
        forall|i: int| 0 <= i < r.cues@.len()
            ==> cue_from_program(program.cues@, start_ms, #[trigger] r.cues@[i]),
        (forall|j: int| 0 <= j < program.cues@.len()
            ==> (#[trigger] program.cues@[j]).time_ms < start_ms)
            ==> r.cues@.len() == 0,
        // Completeness: every eligible cue target is scheduled.
        forall|ci: int, ti: int|
            #![trigger program.cues@[ci].targets@[ti]]
            0 <= ci < program.cues@.len()
                && 0 <= ti < program.cues@[ci].targets@.len()
                && program.cues@[ci].time_ms >= start_ms
                && spec_online_boards(*cfg, program.cues@[ci].targets@[ti]@,
                    online_ips@).len() > 0
                && spec_cue_resolvable(*cfg, program.cues@[ci].preset_name@)
            ==> has_scheduled(r.cues@, program.cues@[ci].label,
                (program.cues@[ci].time_ms - start_ms) as u64),
        // The blackout covers every target with online members, whatever
        // the start point, and nothing else.
        forall|ci: int, ti: int|
            #![trigger program.cues@[ci].targets@[ti]]
            0 <= ci < program.cues@.len()
                && 0 <= ti < program.cues@[ci].targets@.len()
                && spec_online_boards(*cfg, program.cues@[ci].targets@[ti]@,
                    online_ips@).len() > 0
            ==> blackout_covers(r.blackout_targets@, spec_online_boards(
                *cfg, program.cues@[ci].targets@[ti]@, online_ips@)),
        forall|k: int| 0 <= k < r.blackout_targets@.len()
            ==> from_some_target(#[trigger] r.blackout_targets@[k], *program, *cfg,
                online_ips@),
        forall|k: int| 0 <= k < r.blackout_targets@.len()
            ==> (#[trigger] r.blackout_targets@[k]).boards@.len() > 0,
{
    let (lights_delay_ms, audio_delay_ms) = anchor_delays(cfg.loopy_pro.audio_sync_delay_ms);

    // The pre-blackout covers every target any cue names, whatever the
    // start point: a start past the last cue still blacks out.
    let mut blackout_targets: Vec<ActiveTarget> = Vec::new();
    let mut seen: Vec<String> = Vec::new();
    let mut bi: usize = 0;
    while bi < program.cues.len()
        invariant
            bi <= program.cues@.len(),
            forall|k: int| 0 <= k < blackout_targets@.len()
                ==> (#[trigger] blackout_targets@[k]).boards@.len() > 0,
            forall|k: int| 0 <= k < blackout_targets@.len()
                ==> from_some_target(#[trigger] blackout_targets@[k], *program, *cfg,
                    online_ips@),
            forall|j: int| 0 <= j < seen@.len()
                ==> (spec_online_boards(*cfg, (#[trigger] seen@[j])@, online_ips@).len() > 0
                    ==> blackout_covers(blackout_targets@, spec_online_boards(
                        *cfg, seen@[j]@, online_ips@))),
            forall|ci: int, ti: int|
                #![trigger program.cues@[ci].targets@[ti]]
                0 <= ci < bi && 0 <= ti < program.cues@[ci].targets@.len()
                ==> in_seen(seen@, program.cues@[ci].targets@[ti]@),
        decreases program.cues@.len() - bi,
    {
        let cue = &program.cues[bi];
        let mut tj: usize = 0;
        while tj < cue.targets.len()
            invariant
                tj <= cue.targets@.len(),
                bi < program.cues@.len(),
                cue == program.cues@[bi as int],
                forall|k: int| 0 <= k < blackout_targets@.len()
                    ==> (#[trigger] blackout_targets@[k]).boards@.len() > 0,
                forall|k: int| 0 <= k < blackout_targets@.len()
                    ==> from_some_target(#[trigger] blackout_targets@[k], *program, *cfg,
                        online_ips@),
                forall|j: int| 0 <= j < seen@.len()
                    ==> (spec_online_boards(*cfg, (#[trigger] seen@[j])@,
                            online_ips@).len() > 0
                        ==> blackout_covers(blackout_targets@, spec_online_boards(
                            *cfg, seen@[j]@, online_ips@))),
                forall|ci: int, ti: int|
                    #![trigger program.cues@[ci].targets@[ti]]
                    0 <= ci < bi && 0 <= ti < program.cues@[ci].targets@.len()
                    ==> in_seen(seen@, program.cues@[ci].targets@[ti]@),
                forall|ti: int| 0 <= ti < tj
                    ==> in_seen(seen@, (#[trigger] cue.targets@[ti])@),
            decreases cue.targets@.len() - tj,
        {
            let target = &cue.targets[tj];
            let ghost seen0 = seen@;
            let ghost blk0 = blackout_targets@;
            if !ip_online(target, &seen) {
                seen.push(target.clone());
                let resolved = cfg.get_target_boards(target);
                let online = filter_online(&resolved, online_ips);
                proof {
                    assert(online@ == spec_online_boards(*cfg, target@, online_ips@));
                }
                if online.len() > 0 {
                    let entry = ActiveTarget { boards: board_targets_of(&online) };
                    blackout_targets.push(entry);
                    proof {
                        let n = blackout_targets@.len() - 1;
                        assert(blackout_targets@[n].boards@
                            == spec_board_targets(spec_online_boards(
                                *cfg, target@, online_ips@)));
                        assert(from_some_target(blackout_targets@[n], *program, *cfg,
                            online_ips@)) by {
                            assert(program.cues@[bi as int].targets@[tj as int]@
                                == target@);
                        }
                        assert(spec_online_boards(*cfg, target@, online_ips@).len() > 0);
                        assert(spec_board_targets(spec_online_boards(
                            *cfg, target@, online_ips@)).len() > 0);
                    }
                }
                proof {
                    // Old seen entries stay covered; the new entry is
                    // covered or offline.
                    assert forall|j: int| 0 <= j < seen@.len()
                        implies (spec_online_boards(*cfg, (#[trigger] seen@[j])@,
                                online_ips@).len() > 0
                            ==> blackout_covers(blackout_targets@, spec_online_boards(
                                *cfg, seen@[j]@, online_ips@))) by {
                        if j < seen0.len() {
                            assert(seen@[j] == seen0[j]);
                            if spec_online_boards(*cfg, seen0[j]@, online_ips@).len() > 0 {
                                assert(blackout_covers(blk0, spec_online_boards(
                                    *cfg, seen0[j]@, online_ips@)));
                                if blackout_targets@.len() > blk0.len() {
                                    lemma_blackout_covers_push(blk0,
                                        blackout_targets@.last(), spec_online_boards(
                                            *cfg, seen0[j]@, online_ips@));
                                    assert(blackout_targets@ =~= blk0.push(
                                        blackout_targets@.last()));
                                }
                            }
                        } else {
                            assert(seen@[j]@ == target@);
                            if spec_online_boards(*cfg, target@, online_ips@).len() > 0 {
                                let n = blackout_targets@.len() - 1;
                                assert(blackout_targets@[n].boards@
                                    == spec_board_targets(spec_online_boards(
                                        *cfg, target@, online_ips@)));
                            }
                        }
                    }
                    // From-some-target survives the pushes.
                    assert forall|k: int| 0 <= k < blackout_targets@.len()
                        implies from_some_target(#[trigger] blackout_targets@[k],
                            *program, *cfg, online_ips@) by {
                        if k < blk0.len() {
                            assert(blackout_targets@[k] == blk0[k]);
                        }
                    }
                }
            }
            proof {
                // The target just handled is in seen either way.
                assert(in_seen(seen@, target@)) by {
                    if seen@.len() > seen0.len() {
                        assert(seen@[seen@.len() - 1]@ == target@);
                    }
                }
                // Older seen memberships survive the push.
                assert forall|ci: int, ti: int|
                    #![trigger program.cues@[ci].targets@[ti]]
                    0 <= ci < bi && 0 <= ti < program.cues@[ci].targets@.len()
                    implies in_seen(seen@, program.cues@[ci].targets@[ti]@) by {
                    if seen@.len() > seen0.len() {
                        lemma_in_seen_push(seen0, seen@.last(),
                            program.cues@[ci].targets@[ti]@);
                        assert(seen@ =~= seen0.push(seen@.last()));
                    }
                }
                assert forall|ti: int| 0 <= ti < tj + 1
                    implies in_seen(seen@, (#[trigger] cue.targets@[ti])@) by {
                    if ti < tj && seen@.len() > seen0.len() {
                        lemma_in_seen_push(seen0, seen@.last(), cue.targets@[ti]@);
                        assert(seen@ =~= seen0.push(seen@.last()));
                    }
                }
            }
            tj = tj + 1;
        }
        bi = bi + 1;
    }

    let mut cues: Vec<ScheduledCue> = Vec::new();
    let mut ci: usize = 0;
    while ci < program.cues.len()
        invariant
            ci <= program.cues@.len(),
            forall|i: int| 0 <= i < cues@.len()
                ==> cue_from_program(program.cues@, start_ms, #[trigger] cues@[i]),
            cues@.len() > 0 ==> exists|j: int| 0 <= j < program.cues@.len()
                && (#[trigger] program.cues@[j]).time_ms >= start_ms,
            forall|ci2: int, ti2: int|
                #![trigger program.cues@[ci2].targets@[ti2]]
                0 <= ci2 < ci && 0 <= ti2 < program.cues@[ci2].targets@.len()
                    && program.cues@[ci2].time_ms >= start_ms
                    && spec_online_boards(*cfg, program.cues@[ci2].targets@[ti2]@,
                        online_ips@).len() > 0
                    && spec_cue_resolvable(*cfg, program.cues@[ci2].preset_name@)
                ==> has_scheduled(cues@, program.cues@[ci2].label,
                    (program.cues@[ci2].time_ms - start_ms) as u64),
        decreases program.cues@.len() - ci,
    {
        let cue = &program.cues[ci];
        if cue.time_ms >= start_ms {
            let fire_at_ms = cue.time_ms - start_ms;
            let mut ti: usize = 0;
            while ti < cue.targets.len()
                invariant
                    ti <= cue.targets@.len(),
                    ci < program.cues@.len(),
                    cue == program.cues@[ci as int],
                    cue.time_ms >= start_ms,
                    fire_at_ms == cue.time_ms - start_ms,
                    forall|i: int| 0 <= i < cues@.len()
                        ==> cue_from_program(program.cues@, start_ms, #[trigger] cues@[i]),
                    cues@.len() > 0 ==> exists|j: int| 0 <= j < program.cues@.len()
                        && (#[trigger] program.cues@[j]).time_ms >= start_ms,
                    forall|ci2: int, ti2: int|
                        #![trigger program.cues@[ci2].targets@[ti2]]
                        0 <= ci2 < ci && 0 <= ti2 < program.cues@[ci2].targets@.len()
                            && program.cues@[ci2].time_ms >= start_ms
                            && spec_online_boards(*cfg,
                                program.cues@[ci2].targets@[ti2]@, online_ips@).len() > 0
                            && spec_cue_resolvable(*cfg,
                                program.cues@[ci2].preset_name@)
                        ==> has_scheduled(cues@, program.cues@[ci2].label,
                            (program.cues@[ci2].time_ms - start_ms) as u64),
                    forall|ti2: int| 0 <= ti2 < ti
                        && spec_online_boards(*cfg,
                            (#[trigger] cue.targets@[ti2])@, online_ips@).len() > 0
                        && spec_cue_resolvable(*cfg, cue.preset_name@)
                        ==> has_scheduled(cues@, cue.label, fire_at_ms),
                decreases cue.targets@.len() - ti,
            {
                let target = &cue.targets[ti];
                let ghost cues0 = cues@;
                let resolved = cfg.get_target_boards(target);
                let online = filter_online(&resolved, online_ips);
                proof {
                    assert(online@ == spec_online_boards(*cfg, target@, online_ips@));
                }
                if online.len() > 0 {
                    let built = build_cue(cfg, cue, fire_at_ms, &online, program.bpm);
                    match built {
                        Some(sc) => {
                            cues.push(sc);
                            proof {
                                assert(cue_from_program(program.cues@, start_ms,
                                    cues@[cues@.len() - 1])) by {
                                    assert(program.cues@[ci as int].time_ms >= start_ms);
                                }
                                assert(has_scheduled(cues@, cue.label, fire_at_ms)) by {
                                    assert(cues@[cues@.len() - 1].label == cue.label);
                                }
                            }
                        },
                        None => {
                            proof {
                                assert(!spec_cue_resolvable(*cfg, cue.preset_name@));
                            }
                        },
                    }
                }
                proof {
                    // Earlier matches survive the push.
                    assert forall|ci2: int, ti2: int|
                        #![trigger program.cues@[ci2].targets@[ti2]]
                        0 <= ci2 < ci && 0 <= ti2 < program.cues@[ci2].targets@.len()
                            && program.cues@[ci2].time_ms >= start_ms
                            && spec_online_boards(*cfg,
                                program.cues@[ci2].targets@[ti2]@, online_ips@).len() > 0
                            && spec_cue_resolvable(*cfg, program.cues@[ci2].preset_name@)
                        implies has_scheduled(cues@, program.cues@[ci2].label,
                            (program.cues@[ci2].time_ms - start_ms) as u64) by {
                        if cues@.len() > cues0.len() {
                            lemma_has_scheduled_push(cues0, cues@.last(),
                                program.cues@[ci2].label,
                                (program.cues@[ci2].time_ms - start_ms) as u64);
                            assert(cues@ =~= cues0.push(cues@.last()));
                        }
                    }
                    assert forall|ti2: int| 0 <= ti2 < ti + 1
                        && spec_online_boards(*cfg,
                            (#[trigger] cue.targets@[ti2])@, online_ips@).len() > 0
                        && spec_cue_resolvable(*cfg, cue.preset_name@)
                        implies has_scheduled(cues@, cue.label, fire_at_ms) by {
                        if ti2 < ti && cues@.len() > cues0.len() {
                            lemma_has_scheduled_push(cues0, cues@.last(), cue.label,
                                fire_at_ms);
                            assert(cues@ =~= cues0.push(cues@.last()));
                        }
                    }
                }
                ti = ti + 1;
            }
        }
        ci = ci + 1;
    }

    proof {
        // Every cue target is in seen, so the coverage invariant closes
        // the blackout clause.
        assert forall|ci2: int, ti2: int|
            #![trigger program.cues@[ci2].targets@[ti2]]
            0 <= ci2 < program.cues@.len()
                && 0 <= ti2 < program.cues@[ci2].targets@.len()
                && spec_online_boards(*cfg, program.cues@[ci2].targets@[ti2]@,
                    online_ips@).len() > 0
            implies blackout_covers(blackout_targets@, spec_online_boards(
                *cfg, program.cues@[ci2].targets@[ti2]@, online_ips@)) by {
            assert(in_seen(seen@, program.cues@[ci2].targets@[ti2]@));
            let j = choose|j: int| 0 <= j < seen@.len()
                && (#[trigger] seen@[j])@ == program.cues@[ci2].targets@[ti2]@;
            assert(spec_online_boards(*cfg, seen@[j]@, online_ips@).len() > 0);
        }
    }

    PlayPlan {
        blackout_targets,
        cues,
        lights_delay_ms,
        audio_delay_ms,
        audio_track: program.loopy_pro_track.clone(),
    }
}

/// Keep the boards whose address is online, in order.
pub fn filter_online(boards: &Vec<BoardConfig>, online_ips: &Vec<String>)
    -> (r: Vec<BoardConfig>)
    ensures
        r@ == spec_filter_online(boards@, online_ips@),
{
    let mut r: Vec<BoardConfig> = Vec::new();
    let mut i: usize = 0;
    proof {
        assert(boards@.subrange(0, 0) =~= Seq::<BoardConfig>::empty());
    }
    while i < boards.len()
        invariant
            i <= boards@.len(),
            r@ == spec_filter_online(boards@.subrange(0, i as int), online_ips@),
        decreases boards@.len() - i,
    {
        proof {
            assert(boards@.subrange(0, i + 1 as int).drop_last()
                =~= boards@.subrange(0, i as int));
            assert(boards@.subrange(0, i + 1 as int).last() == boards@[i as int]);
        }
        let entry = &boards[i];
        if ip_online(&entry.ip, online_ips) {
            proof {
                assert(board_online(*entry, online_ips@));
            }
            r.push(entry.clone_board());
        } else {
            proof {
                assert(!board_online(*entry, online_ips@));
            }
        }
        i = i + 1;
    }
    proof {
        assert(boards@.subrange(0, boards@.len() as int) =~= boards@);
    }
    r
}

/// Whether an address is in the online set.
pub fn ip_online(ip: &String, online_ips: &Vec<String>) -> (r: bool)
    ensures
        r == (exists|j: int| 0 <= j < online_ips@.len()
            && (#[trigger] online_ips@[j])@ == ip@),
{
    let mut i: usize = 0;
    while i < online_ips.len()
        invariant
            i <= online_ips@.len(),
            forall|j: int| 0 <= j < i ==> (#[trigger] online_ips@[j])@ != ip@,
        decreases online_ips@.len() - i,
    {
        if string_eq(&online_ips[i], ip) {
            return true;
        }
        i = i + 1;
    }
    false
}

/// The renderer addressing of a resolved board list; unconfigured
/// universes default to one and unconfigured sizes to sixty.
pub fn board_targets_of(boards: &Vec<BoardConfig>) -> (r: Vec<BoardTarget>)
    ensures
        r@ == spec_board_targets(boards@),
{
    let mut r: Vec<BoardTarget> = Vec::new();
    let mut i: usize = 0;
    while i < boards.len()
        invariant
            i <= boards@.len(),
            r@.len() == i,
            forall|j: int| 0 <= j < i
                ==> #[trigger] r@[j] == spec_board_target_of(boards@[j]),
        decreases boards@.len() - i,
    {
        let b = &boards[i];
        let universe: u16 = match b.universe {
            Some(u) => u,
            None => 1,
        };
        let led_count: usize = match b.led_count {
            Some(n) => n as usize,
            None => 60,
        };
        r.push(BoardTarget { ip: b.ip.clone(), universe, led_count });
        i = i + 1;
    }
    proof {
        assert(r@ =~= spec_board_targets(boards@));
    }
    r
}

/// Build the scheduled cue for one target of one program cue: a pattern
/// cue when the preset name is in the pattern table, else an effect cue
/// when it is in the effect table with a readable effect type, else
/// nothing.  Effect cues multiply the program tempo by the sync rate;
/// pattern cues pass the sync rate through.
fn build_cue(cfg: &Config, cue: &crate::program::Cue, fire_at_ms: u64,
    online: &Vec<BoardConfig>, bpm: u32) -> (r: Option<ScheduledCue>)
    ensures
        (r is Some) == spec_cue_resolvable(*cfg, cue.preset_name@),
        r is Some ==> spec_built_cue(*cfg, *cue, fire_at_ms, online@, bpm, r->0),
{
    // Pattern table first.
    let mut pi: usize = 0;
    while pi < cfg.pattern_presets.len()
        invariant
            pi <= cfg.pattern_presets@.len(),
            forall|j: int| 0 <= j < pi
                ==> #[trigger] cfg.pattern_presets@[j].name@ != cue.preset_name@,
        decreases cfg.pattern_presets@.len() - pi,
    {
        let preset = &cfg.pattern_presets[pi];
        if string_eq(&preset.name, &cue.preset_name) {
            proof {
                let keys = pattern_preset_names(*cfg);
                assert forall|j: int| 0 <= j < pi implies keys[j] != cue.preset_name@ by {
                    assert(cfg.pattern_presets@[j].name@ != cue.preset_name@);
                }
                assert(keys[pi as int] == cue.preset_name@);
                crate::lookup::lemma_first_occurrence_at(keys, cue.preset_name@, pi as int);
            }
            let mut member_ids: Vec<String> = Vec::new();
            let mut board_info: Vec<(String, BoardInfo)> = Vec::new();
            let mut k: usize = 0;
            while k < online.len()
                invariant
                    k <= online@.len(),
                    member_ids@.len() == k,
                    board_info@.len() == k,
                    forall|j: int| 0 <= j < k
                        ==> #[trigger] member_ids@[j] == online@[j].id,
                    forall|j: int| 0 <= j < k ==> #[trigger] board_info@[j]
                        == (online@[j].id, spec_board_info_of(online@[j])),
                decreases online@.len() - k,
            {
                let b = &online[k];
                let universe: u16 = match b.universe {
                    Some(u) => u,
                    None => 1,
                };
                let led_count: usize = match b.led_count {
                    Some(n) => n as usize,
                    None => 60,
                };
                member_ids.push(b.id.clone());
                board_info.push((b.id.clone(), BoardInfo {
                    ip: b.ip.clone(),
                    universe,
                    led_count,
                }));
                k = k + 1;
            }
            proof {
                assert(member_ids@ =~= spec_member_ids(online@));
                assert(board_info@ =~= spec_board_infos(online@));
            }
            return Some(ScheduledCue {
                fire_at_ms,
                label: cue.label.clone(),
                cue_type: CueType::Pattern(PatternCueConfig {
                    pattern_type: preset.pattern,
                    color: preset.colour,
                    member_ids,
                    board_info,
                    bpm,
                    sync_rate_milli: cue.sync_rate_milli,
                }),
            });
        }
        pi = pi + 1;
    }
    proof {
        let keys = pattern_preset_names(*cfg);
        assert forall|j: int| 0 <= j < keys.len() implies keys[j] != cue.preset_name@ by {
            assert(cfg.pattern_presets@[j].name@ != cue.preset_name@);
        }
        crate::lookup::lemma_no_occurrence(keys, cue.preset_name@);
    }
    // Then the effect table.
    let mut ei: usize = 0;
    while ei < cfg.effect_presets.len()
        invariant
            ei <= cfg.effect_presets@.len(),
            pattern_preset_names(*cfg).index_of_first(cue.preset_name@) is None,
            forall|j: int| 0 <= j < ei
                ==> #[trigger] cfg.effect_presets@[j].name@ != cue.preset_name@,
        decreases cfg.effect_presets@.len() - ei,
    {
        let preset = &cfg.effect_presets[ei];
        if string_eq(&preset.name, &cue.preset_name) {
            proof {
                let keys = effect_preset_names(*cfg);
                assert forall|j: int| 0 <= j < ei implies keys[j] != cue.preset_name@ by {
                    assert(cfg.effect_presets@[j].name@ != cue.preset_name@);
                }
                assert(keys[ei as int] == cue.preset_name@);
                crate::lookup::lemma_first_occurrence_at(keys, cue.preset_name@, ei as int);
            }
            let type_text = preset.effect_type.as_str();
            let effect_type = match EffectType::from_str(type_text) {
                Ok(t) => t,
                Err(_) => {
                    proof {
                        assert(type_text.spec_bytes()
                            == vstd::utf8::encode_utf8(preset.effect_type@));
                    }
                    return None;
                },
            };
            proof {
                assert(type_text.spec_bytes()
                    == vstd::utf8::encode_utf8(preset.effect_type@));
                assert(bpm as int * cue.sync_rate_milli as int
                    <= 0xffff_ffff * 0xffff_ffff) by (nonlinear_arith)
                    requires bpm <= 0xffff_ffffu32
                        && cue.sync_rate_milli <= 0xffff_ffffu32;
            }
            let bpm_milli: u64 = (bpm as u64) * (cue.sync_rate_milli as u64);
            return Some(ScheduledCue {
                fire_at_ms,
                label: cue.label.clone(),
                cue_type: CueType::Effect {
                    config: EffectConfig {
                        effect_type,
                        bpm_milli,
                        color: preset.color,
                    },
                    boards: board_targets_of(online),
                },
            });
        }
        ei = ei + 1;
    }
    proof {
        let keys = effect_preset_names(*cfg);
        assert forall|j: int| 0 <= j < keys.len() implies keys[j] != cue.preset_name@ by {
            assert(cfg.effect_presets@[j].name@ != cue.preset_name@);
        }
        crate::lookup::lemma_no_occurrence(keys, cue.preset_name@);
    }
    None
}

/// One step of the stop protocol, in the order the engine performs it.
pub enum StopAction {
    /// Raise the scheduler's cancellation flag.
    StopScheduler,
    /// Stop the pattern renderer.
    PatternStop,
    /// Black out one active target with a solid-black start.
    Blackout(EngineCommand),
    /// Stop the effects renderer.
    EffectsStop,
    /// Tell the audio host to stop the track.
    AudioStop(String),
    /// Leave performance mode.
    PerformanceModeOff,
}

/// Plan the stop protocol: scheduler first, then the pattern renderer,
/// then one solid-black start per active target, then the effects
/// renderer, the audio stop, and the performance flag.  Every target
/// universe that was active receives its blackout before the renderers
/// go idle.
pub fn build_stop_plan(state: &PlaybackState) -> (r: Vec<StopAction>)
    ensures
        r@.len() == state.active_targets@.len() + 4
            + (if state.audio_track is Some { 1int } else { 0int }),
        r@[0] is StopScheduler,
        r@[1] is PatternStop,
        forall|k: int| 0 <= k < state.active_targets@.len() ==> {
            &&& (#[trigger] r@[2 + k]) matches StopAction::Blackout(c)
            &&& (c matches EngineCommand::Start { config, boards }
                && config.effect_type == EffectType::Solid
                && config.bpm_milli == 0
                && config.color == [0u8, 0u8, 0u8]
                && boards@ == state.active_targets@[k].boards@)
        },
        r@[2 + state.active_targets@.len() as int] is EffectsStop,
        r@.last() is PerformanceModeOff,
{
    let mut r: Vec<StopAction> = Vec::new();
    r.push(StopAction::StopScheduler);
    r.push(StopAction::PatternStop);
    let mut k: usize = 0;
    while k < state.active_targets.len()
        invariant
            k <= state.active_targets@.len(),
            r@.len() == k + 2,
            r@[0] is StopScheduler,
            r@[1] is PatternStop,
            forall|j: int| 0 <= j < k ==> {
                &&& (#[trigger] r@[2 + j]) matches StopAction::Blackout(c)
                &&& (c matches EngineCommand::Start { config, boards }
                    && config.effect_type == EffectType::Solid
                    && config.bpm_milli == 0
                    && config.color == [0u8, 0u8, 0u8]
                    && boards@ == state.active_targets@[j].boards@)
            },
        decreases state.active_targets@.len() - k,
    {
        let target = &state.active_targets[k];
        r.push(StopAction::Blackout(EngineCommand::Start {
            config: EffectConfig {
                effect_type: EffectType::Solid,
                bpm_milli: 0,
                color: [0, 0, 0],
            },
            boards: crate::effects_engine::clone_targets(&target.boards),
        }));
        k = k + 1;
    }
    r.push(StopAction::EffectsStop);
    match &state.audio_track {
        Some(track) => {
            r.push(StopAction::AudioStop(track.clone()));
        },
        None => {},
    }
    r.push(StopAction::PerformanceModeOff);
    r
}

} // verus!
