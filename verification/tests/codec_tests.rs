use ledshow::codec::{board_json, config_toml, cue_json, preset_json, program_json};
use ledshow::config::{BoardConfig, Config, EffectPreset, GroupConfig, LoopyProConfig, PatternPreset};
use ledshow::pattern::PatternType;
use ledshow::program::{Cue, Program};
use ledshow::types::{PresetState, WledPreset};

fn preset() -> WledPreset {
    WledPreset {
        id: "id-1".to_string(),
        name: "war\"m".to_string(),
        wled_slot: 4,
        description: None,
        state: PresetState {
            on: true,
            brightness: 200,
            color: [255, 160, 0],
            effect: 0,
            speed: 128,
            intensity: 128,
            transition: Some(2),
        },
        created_at: "t0".to_string(),
    }
}

#[test]
fn preset_document_text() {
    assert_eq!(
        preset_json(&preset()),
        "{\"id\":\"id-1\",\"name\":\"war\\\"m\",\"wled_slot\":4,\"description\":null,\
         \"on\":true,\"brightness\":200,\"color\":[255,160,0],\"effect\":0,\"speed\":128,\
         \"intensity\":128,\"transition\":2,\"created_at\":\"t0\"}"
    );
}

#[test]
fn preset_document_round_trips_through_a_json_reader() {
    let p = preset();
    let text = preset_json(&p);
    let v: serde_json::Value = serde_json::from_str(&text).expect("valid JSON");
    assert_eq!(v["id"], "id-1");
    assert_eq!(v["name"], "war\"m");
    assert_eq!(v["wled_slot"], 4);
    assert!(v["description"].is_null());
    assert_eq!(v["on"], true);
    assert_eq!(v["brightness"], 200);
    assert_eq!(v["color"][0], 255);
    assert_eq!(v["color"][1], 160);
    assert_eq!(v["color"][2], 0);
    assert_eq!(v["transition"], 2);
    assert_eq!(v["created_at"], "t0");
}

#[test]
fn cue_document_text() {
    let c = Cue {
        time_ms: 1500,
        label: "drop".to_string(),
        targets: vec!["grp".to_string(), "b9".to_string()],
        preset_name: "wave_red".to_string(),
        sync_rate_milli: 500,
    };
    assert_eq!(
        cue_json(&c),
        "{\"time_ms\":1500,\"label\":\"drop\",\"targets\":[\"grp\",\"b9\"],\
         \"preset_name\":\"wave_red\",\"sync_rate_milli\":500}"
    );
}

#[test]
fn program_document_round_trips_through_a_json_reader() {
    let program = Program {
        id: "p1".to_string(),
        song_name: "line\nbreak".to_string(),
        loopy_pro_track: "track-3".to_string(),
        file_name: "song.wav".to_string(),
        audio_file: None,
        bpm: 120,
        cues: vec![
            Cue {
                time_ms: 0,
                label: "a".to_string(),
                targets: vec!["grp".to_string()],
                preset_name: "wave_red".to_string(),
                sync_rate_milli: 1000,
            },
            Cue {
                time_ms: 500,
                label: "b".to_string(),
                targets: vec![],
                preset_name: "strobe_red".to_string(),
                sync_rate_milli: 1000,
            },
        ],
        created_at: "t0".to_string(),
    };
    let text = program_json(&program);
    let v: serde_json::Value = serde_json::from_str(&text).expect("valid JSON");
    assert_eq!(v["id"], "p1");
    assert_eq!(v["song_name"], "line\nbreak");
    assert!(v["audio_file"].is_null());
    assert_eq!(v["bpm"], 120);
    assert_eq!(v["cues"].as_array().unwrap().len(), 2);
    assert_eq!(v["cues"][0]["time_ms"], 0);
    assert_eq!(v["cues"][0]["targets"][0], "grp");
    assert_eq!(v["cues"][1]["targets"].as_array().unwrap().len(), 0);
    assert_eq!(v["cues"][1]["preset_name"], "strobe_red");
    assert_eq!(v["created_at"], "t0");
}

#[test]
fn board_document_text() {
    let b = BoardConfig {
        id: "b1".to_string(),
        ip: "10.0.0.1".to_string(),
        universe: Some(7),
        led_count: None,
        transition: Some(0),
    };
    assert_eq!(
        board_json(&b),
        "{\"id\":\"b1\",\"ip\":\"10.0.0.1\",\"universe\":7,\"led_count\":null,\
         \"transition\":0}"
    );
}

fn small_config() -> Config {
    Config {
        boards: vec![BoardConfig {
            id: "b1".to_string(),
            ip: "10.0.0.7".to_string(),
            universe: Some(1),
            led_count: Some(60),
            transition: None,
        }],
        groups: vec![GroupConfig {
            id: "g1".to_string(),
            members: vec!["b1".to_string()],
            universe: Some(7),
        }],
        loopy_pro: LoopyProConfig {
            ip: "192.168.1.242".to_string(),
            port: 9595,
            audio_sync_delay_ms: -5,
        },
        effect_presets: vec![EffectPreset {
            name: "warm".to_string(),
            effect_type: "pulse".to_string(),
            color: [255, 160, 0],
        }],
        pattern_presets: vec![PatternPreset {
            name: "sweep".to_string(),
            pattern: PatternType::WaveReverse,
            colour: [0, 10, 255],
        }],
    }
}

#[test]
fn config_document_text() {
    assert_eq!(
        config_toml(&small_config()),
        "[loopy_pro]\nip = \"192.168.1.242\"\nport = 9595\naudio_sync_delay_ms = -5\n\
         # boards\n[[boards]]\nid = \"b1\"\nip = \"10.0.0.7\"\nuniverse = 1\nled_count = 60\n\
         # groups\n[[groups]]\nid = \"g1\"\nmembers = [\"b1\"]\nuniverse = 7\n\
         # effect_presets\n[[effect_presets]]\nname = \"warm\"\neffect_type = \"pulse\"\n\
         color = [255,160,0]\n\
         # pattern_presets\n[[pattern_presets]]\nname = \"sweep\"\npattern = \"wave_reverse\"\n\
         colour = [0,10,255]\n# end\n"
    );
}

#[test]
fn config_document_round_trips_through_a_toml_reader() {
    let text = config_toml(&small_config());
    let v: toml::Value = toml::from_str(&text).expect("valid TOML");
    assert_eq!(v["loopy_pro"]["ip"].as_str(), Some("192.168.1.242"));
    assert_eq!(v["loopy_pro"]["port"].as_integer(), Some(9595));
    assert_eq!(v["loopy_pro"]["audio_sync_delay_ms"].as_integer(), Some(-5));
    let boards = v["boards"].as_array().expect("board list");
    assert_eq!(boards.len(), 1);
    assert_eq!(boards[0]["id"].as_str(), Some("b1"));
    assert_eq!(boards[0]["ip"].as_str(), Some("10.0.0.7"));
    assert_eq!(boards[0]["universe"].as_integer(), Some(1));
    assert_eq!(boards[0]["led_count"].as_integer(), Some(60));
    assert!(boards[0].get("transition").is_none());
    let groups = v["groups"].as_array().expect("group list");
    assert_eq!(groups[0]["members"][0].as_str(), Some("b1"));
    assert_eq!(groups[0]["universe"].as_integer(), Some(7));
    let effects = v["effect_presets"].as_array().expect("effect preset list");
    assert_eq!(effects[0]["name"].as_str(), Some("warm"));
    assert_eq!(effects[0]["color"][0].as_integer(), Some(255));
    let patterns = v["pattern_presets"].as_array().expect("pattern preset list");
    assert_eq!(patterns[0]["pattern"].as_str(), Some("wave_reverse"));
    assert_eq!(patterns[0]["colour"][2].as_integer(), Some(255));
}
