use ledshow::effects::EffectType;
use ledshow::effects_engine::{BoardTarget, EffectConfig, EngineCommand};
use ledshow::pattern::PatternType;
use ledshow::pattern_engine::PatternCommand;
use ledshow::scheduler::{
    dispatch_directives, sleep_action, sleep_duration_ms, sort_cues, CueType,
    EngineDirective, PatternCueConfig, ScheduledCue, SleepAction,
};

fn effect_cue(fire_at_ms: u64, label: &str) -> ScheduledCue {
    ScheduledCue {
        fire_at_ms,
        label: label.to_string(),
        cue_type: CueType::Effect {
            config: EffectConfig {
                effect_type: EffectType::Strobe,
                bpm_milli: 120_000,
                color: [255, 0, 0],
            },
            boards: vec![BoardTarget { ip: "10.0.0.2".to_string(), universe: 7, led_count: 60 }],
        },
    }
}

fn pattern_cue(fire_at_ms: u64, label: &str) -> ScheduledCue {
    ScheduledCue {
        fire_at_ms,
        label: label.to_string(),
        cue_type: CueType::Pattern(PatternCueConfig {
            pattern_type: PatternType::Wave,
            color: [0, 255, 0],
            member_ids: vec!["b1".to_string(), "b2".to_string()],
            board_info: Vec::new(),
            bpm: 120,
            sync_rate_milli: 1000,
        }),
    }
}

#[test]
fn sort_orders_by_fire_offset() {
    let cues = vec![
        effect_cue(300, "c"),
        effect_cue(100, "a"),
        effect_cue(200, "b"),
        effect_cue(100, "a2"),
    ];
    let sorted = sort_cues(cues);
    let offsets: Vec<u64> = sorted.iter().map(|c| c.fire_at_ms).collect();
    assert_eq!(offsets, vec![100, 100, 200, 300]);
    assert_eq!(sorted.len(), 4);
}

#[test]
fn pattern_cue_stops_effects_first() {
    let directives = dispatch_directives(&pattern_cue(0, "wave"));
    assert_eq!(directives.len(), 2);
    assert!(matches!(
        directives[0],
        EngineDirective::Effects(EngineCommand::Stop)
    ));
    match &directives[1] {
        EngineDirective::Pattern(PatternCommand::Start { sequence, color, is_random, is_ping_pong, .. }) => {
            assert_eq!(sequence.total_duration_ms, 500);
            assert_eq!(sequence.steps.len(), 2);
            assert_eq!(*color, [0, 255, 0]);
            assert!(!is_random);
            assert!(!is_ping_pong);
        },
        _ => panic!("second directive must start the pattern"),
    }
}

#[test]
fn effect_cue_stops_pattern_first() {
    let directives = dispatch_directives(&effect_cue(1000, "strobe"));
    assert_eq!(directives.len(), 2);
    assert!(matches!(
        directives[0],
        EngineDirective::Pattern(PatternCommand::Stop)
    ));
    match &directives[1] {
        EngineDirective::Effects(EngineCommand::Start { config, boards }) => {
            assert_eq!(config.effect_type, EffectType::Strobe);
            assert_eq!(config.bpm_milli, 120_000);
            assert_eq!(boards.len(), 1);
            assert_eq!(boards[0].universe, 7);
        },
        _ => panic!("second directive must start the effect"),
    }
}

#[test]
fn sleep_ladder_thresholds() {
    assert_eq!(sleep_action(5000), SleepAction::Coarse);
    assert_eq!(sleep_action(101), SleepAction::Coarse);
    assert_eq!(sleep_action(100), SleepAction::Fine);
    assert_eq!(sleep_action(11), SleepAction::Fine);
    assert_eq!(sleep_action(10), SleepAction::Spin);
    assert_eq!(sleep_action(0), SleepAction::Spin);
}

#[test]
fn sleep_durations() {
    assert_eq!(sleep_duration_ms(SleepAction::Coarse), 50);
    assert_eq!(sleep_duration_ms(SleepAction::Fine), 5);
    assert_eq!(sleep_duration_ms(SleepAction::Spin), 0);
}
