use ledshow::board::{aggregate_group_state, BoardState};
use ledshow::config::{BoardConfig, Config, GroupConfig, LoopyProConfig};
use ledshow::history::{end_session, start_session};
use ledshow::metrics::{DriftSource, TimingMetrics};
use ledshow::osc::{play_address, stop_address};
use ledshow::types::{PresetState, WledPreset};

fn config() -> Config {
    Config {
        boards: vec![
            BoardConfig {
                id: "b1".to_string(),
                ip: "10.0.0.1".to_string(),
                universe: Some(7),
                led_count: Some(60),
                transition: None,
            },
            BoardConfig {
                id: "b2".to_string(),
                ip: "10.0.0.2".to_string(),
                universe: Some(8),
                led_count: Some(30),
                transition: Some(2),
            },
        ],
        groups: vec![GroupConfig {
            id: "grp".to_string(),
            members: vec!["b2".to_string(), "b1".to_string(), "ghost".to_string()],
            universe: Some(7),
        }],
        loopy_pro: LoopyProConfig {
            ip: "10.0.0.9".to_string(),
            port: 9595,
            audio_sync_delay_ms: 0,
        },
        effect_presets: Vec::new(),
        pattern_presets: Vec::new(),
    }
}

#[test]
fn target_resolution_prefers_boards() {
    let cfg = config();
    let one = cfg.get_target_boards(&"b1".to_string());
    assert_eq!(one.len(), 1);
    assert_eq!(one[0].ip, "10.0.0.1");
    // Groups resolve in member order and drop unknown members.
    let grp = cfg.get_target_boards(&"grp".to_string());
    assert_eq!(grp.len(), 2);
    assert_eq!(grp[0].id, "b2");
    assert_eq!(grp[1].id, "b1");
    // Unknown targets resolve to nothing.
    assert!(cfg.get_target_boards(&"nope".to_string()).is_empty());
}

#[test]
fn group_lookup() {
    let cfg = config();
    let g = cfg.find_group(&"grp".to_string()).unwrap();
    assert_eq!(g.universe, Some(7));
    assert!(cfg.find_group(&"b1".to_string()).is_none());
}

#[test]
fn board_state_defaults() {
    let s = BoardState::new("b1".to_string(), "10.0.0.1".to_string());
    assert_eq!(s.id, "b1");
    assert_eq!(s.brightness, 128);
    assert_eq!(s.color, [255, 255, 255]);
    assert!(!s.connected);
    assert!(s.preset.is_none());
}

#[test]
fn group_state_aggregates_members() {
    let mut on_member = BoardState::new("b1".to_string(), "10.0.0.1".to_string());
    on_member.on = true;
    on_member.color = [9, 8, 7];
    let off_member = BoardState::new("b2".to_string(), "10.0.0.2".to_string());
    let members = vec!["b1".to_string(), "b2".to_string()];
    let g = aggregate_group_state("grp".to_string(), members.clone(),
        &vec![on_member, off_member]);
    assert_eq!(g.id, "grp");
    assert!(g.on);
    assert!(!g.connected);
    assert_eq!(g.color, [9, 8, 7]);
    assert_eq!(g.is_group, Some(true));
    assert_eq!(g.member_ids, Some(members.clone()));
    // An empty group reports defaults.
    let empty = aggregate_group_state("grp".to_string(), members, &Vec::new());
    assert!(!empty.on);
    assert_eq!(empty.brightness, 128);
}

#[test]
fn firmware_bodies() {
    let p = WledPreset {
        id: "x".to_string(),
        name: "warm".to_string(),
        wled_slot: 4,
        description: None,
        state: PresetState {
            on: true,
            brightness: 200,
            color: [255, 160, 0],
            effect: 1,
            speed: 2,
            intensity: 3,
            transition: None,
        },
        created_at: "t0".to_string(),
    };
    assert_eq!(
        ledshow::wled::preset_save_json(&p),
        "{\"on\":true,\"bri\":200,\"seg\":[{\"col\":[[255,160,0]],\"fx\":1,\"sx\":2,\"ix\":3}],\"psave\":4,\"n\":\"warm\"}"
    );
    assert_eq!(
        ledshow::wled::live_config_json(7),
        "{\"if\":{\"live\":{\"en\":true,\"mc\":false,\"dmx\":{\"uni\":7,\"mode\":6,\"addr\":1},\"timeout\":65535}}}"
    );
    assert_eq!(ledshow::wled::reboot_json(), "{\"rb\":true}");
}

#[test]
fn osc_addresses() {
    assert_eq!(play_address("track-3"), "/Play/0:track-3");
    assert_eq!(stop_address("track-3"), "/Stop/0:track-3");
}

#[test]
fn metrics_track_drift() {
    let mut m = TimingMetrics::new();
    m.record_cue_drift(1_500, "a".to_string(), 10);
    m.record_cue_drift(12_000, "b".to_string(), 20);
    assert_eq!(m.cue_count, 2);
    assert_eq!(m.cue_drift_max_us, 12_000);
    // Only the sample over the 10 ms threshold is kept.
    assert_eq!(m.events.len(), 1);
    assert_eq!(m.events[0].drift_us, 12_000);
    assert_eq!(m.events[0].source, DriftSource::Cue);
    m.record_packet_ok();
    m.record_packet_wouldblock();
    m.record_packet_err();
    let snap = m.snapshot();
    assert_eq!(snap.packets_ok, 1);
    assert_eq!(snap.packets_wouldblock, 1);
    assert_eq!(snap.packets_err, 1);
    m.reset();
    assert_eq!(m.cue_count, 0);
    assert_eq!(m.events.len(), 0);
}

#[test]
fn session_averages() {
    let mut m = TimingMetrics::new();
    m.record_cue_drift(1_000, "a".to_string(), 0);
    m.record_cue_drift(3_000, "b".to_string(), 0);
    let mut session = start_session(
        "s1".to_string(),
        "p1".to_string(),
        "song".to_string(),
        1_000,
    );
    assert_eq!(session.started_at, 1_000);
    assert!(session.ended_at.is_none());
    end_session(&mut session, &m.snapshot(), 6_000, true);
    assert_eq!(session.ended_at, Some(6_000));
    assert_eq!(session.duration_ms, 5_000);
    assert_eq!(session.cue_count, 2);
    assert_eq!(session.cue_drift_avg_us, 2_000);
    assert!(session.completed);
}
