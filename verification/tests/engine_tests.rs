use ledshow::config::{
    BoardConfig, Config, EffectPreset, GroupConfig, LoopyProConfig, PatternPreset,
};
use ledshow::effects::EffectType;
use ledshow::engine::{anchor_delays, build_play_plan, build_stop_plan, ActiveTarget,
    PlaybackState, StopAction};
use ledshow::effects_engine::{BoardTarget, EngineCommand};
use ledshow::pattern::PatternType;
use ledshow::program::{Cue, Program};
use ledshow::scheduler::CueType;

fn board(id: &str, ip: &str, universe: u16) -> BoardConfig {
    BoardConfig {
        id: id.to_string(),
        ip: ip.to_string(),
        universe: Some(universe),
        led_count: Some(60),
        transition: None,
    }
}

fn test_config(delay_ms: i64) -> Config {
    Config {
        boards: vec![
            board("b1", "10.0.0.1", 7),
            board("b2", "10.0.0.2", 7),
        ],
        groups: vec![GroupConfig {
            id: "grp".to_string(),
            members: vec!["b1".to_string(), "b2".to_string()],
            universe: Some(7),
        }],
        loopy_pro: LoopyProConfig {
            ip: "10.0.0.9".to_string(),
            port: 9595,
            audio_sync_delay_ms: delay_ms,
        },
        effect_presets: vec![EffectPreset {
            name: "strobe_red".to_string(),
            effect_type: "strobe".to_string(),
            color: [255, 0, 0],
        }],
        pattern_presets: vec![PatternPreset {
            name: "wave_red".to_string(),
            pattern: PatternType::Wave,
            colour: [255, 0, 0],
        }],
    }
}

fn cue(time_ms: u64, label: &str, target: &str, preset: &str) -> Cue {
    Cue {
        time_ms,
        label: label.to_string(),
        targets: vec![target.to_string()],
        preset_name: preset.to_string(),
        sync_rate_milli: 1000,
    }
}

fn test_program(cues: Vec<Cue>) -> Program {
    Program {
        id: "p1".to_string(),
        song_name: "song".to_string(),
        loopy_pro_track: "track-3".to_string(),
        file_name: "song.wav".to_string(),
        audio_file: Some("p1.wav".to_string()),
        bpm: 120,
        cues,
        created_at: "t0".to_string(),
    }
}

fn all_online() -> Vec<String> {
    vec!["10.0.0.1".to_string(), "10.0.0.2".to_string()]
}

#[test]
fn play_plan_resolves_group_wave() {
    let program = test_program(vec![cue(0, "a", "grp", "wave_red")]);
    let plan = build_play_plan(&program, 0, &test_config(0), &all_online());
    assert_eq!(plan.audio_track, "track-3");
    assert_eq!(plan.cues.len(), 1);
    assert_eq!(plan.cues[0].fire_at_ms, 0);
    assert_eq!(plan.cues[0].label, "a");
    match &plan.cues[0].cue_type {
        CueType::Pattern(p) => {
            assert_eq!(p.pattern_type, PatternType::Wave);
            assert_eq!(p.color, [255, 0, 0]);
            assert_eq!(p.member_ids, vec!["b1".to_string(), "b2".to_string()]);
            assert_eq!(p.bpm, 120);
            assert_eq!(p.sync_rate_milli, 1000);
        },
        _ => panic!("a pattern preset must build a pattern cue"),
    }
    assert_eq!(plan.blackout_targets.len(), 1);
    assert_eq!(plan.blackout_targets[0].boards.len(), 2);
}

#[test]
fn play_plan_shifts_fire_offsets() {
    let program = test_program(vec![
        cue(1000, "early", "b1", "strobe_red"),
        cue(3000, "late", "b1", "strobe_red"),
    ]);
    let plan = build_play_plan(&program, 2000, &test_config(0), &all_online());
    // The early cue is gone; the late one fires a second in.
    assert_eq!(plan.cues.len(), 1);
    assert_eq!(plan.cues[0].fire_at_ms, 1000);
    assert_eq!(plan.cues[0].label, "late");
}

#[test]
fn start_past_last_cue_still_blacks_out_and_plays_audio() {
    let program = test_program(vec![cue(500, "only", "grp", "wave_red")]);
    let plan = build_play_plan(&program, 10_000, &test_config(0), &all_online());
    assert_eq!(plan.cues.len(), 0);
    assert_eq!(plan.blackout_targets.len(), 1);
    assert_eq!(plan.audio_track, "track-3");
}

#[test]
fn offline_boards_are_filtered_out() {
    let program = test_program(vec![cue(0, "a", "grp", "wave_red")]);
    let online = vec!["10.0.0.2".to_string()];
    let plan = build_play_plan(&program, 0, &test_config(0), &online);
    match &plan.cues[0].cue_type {
        CueType::Pattern(p) => {
            assert_eq!(p.member_ids, vec!["b2".to_string()]);
        },
        _ => panic!("expected a pattern cue"),
    }
    assert_eq!(plan.blackout_targets[0].boards.len(), 1);
    assert_eq!(plan.blackout_targets[0].boards[0].ip, "10.0.0.2");
}

#[test]
fn unknown_presets_are_skipped() {
    let program = test_program(vec![cue(0, "a", "grp", "nonsense")]);
    let plan = build_play_plan(&program, 0, &test_config(0), &all_online());
    assert_eq!(plan.cues.len(), 0);
}

#[test]
fn audio_sync_minus_100_delays_lights() {
    assert_eq!(anchor_delays(-100), (100, 0));
    assert_eq!(anchor_delays(100), (0, 100));
    assert_eq!(anchor_delays(0), (0, 0));
    let program = test_program(vec![]);
    let plan = build_play_plan(&program, 0, &test_config(-100), &all_online());
    assert_eq!(plan.lights_delay_ms, 100);
    assert_eq!(plan.audio_delay_ms, 0);
}

#[test]
fn stop_plan_blacks_out_every_active_target() {
    let state = PlaybackState {
        audio_track: Some("track-3".to_string()),
        active_targets: vec![
            ActiveTarget {
                boards: vec![BoardTarget {
                    ip: "10.0.0.1".to_string(),
                    universe: 7,
                    led_count: 60,
                }],
            },
            ActiveTarget {
                boards: vec![BoardTarget {
                    ip: "10.0.0.2".to_string(),
                    universe: 8,
                    led_count: 30,
                }],
            },
        ],
    };
    let plan = build_stop_plan(&state);
    assert!(matches!(plan[0], StopAction::StopScheduler));
    assert!(matches!(plan[1], StopAction::PatternStop));
    for k in 0..2 {
        match &plan[2 + k] {
            StopAction::Blackout(EngineCommand::Start { config, boards }) => {
                assert_eq!(config.effect_type, EffectType::Solid);
                assert_eq!(config.bpm_milli, 0);
                assert_eq!(config.color, [0, 0, 0]);
                assert_eq!(boards.len(), 1);
            },
            _ => panic!("each active target gets a blackout"),
        }
    }
    assert!(matches!(plan[4], StopAction::EffectsStop));
    match &plan[5] {
        StopAction::AudioStop(track) => assert_eq!(track, "track-3"),
        _ => panic!("audio stops after the renderers"),
    }
    assert!(matches!(plan[6], StopAction::PerformanceModeOff));
}
