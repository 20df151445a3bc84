use ledshow::preset::{
    add_preset, create_preset, delete_by_id, delete_by_slot, default_preset_state,
    find_by_id, find_by_slot, slot_used, update_preset, PresetError,
};
use ledshow::types::{PresetState, WledPreset};

fn state(bri: u8) -> PresetState {
    PresetState {
        on: true,
        brightness: bri,
        color: [255, 255, 255],
        effect: 0,
        speed: 128,
        intensity: 128,
        transition: None,
    }
}

fn add(presets: &mut Vec<WledPreset>, name: &str, slot: u8) -> Result<WledPreset, PresetError> {
    add_preset(
        presets,
        name.to_string(),
        slot,
        None,
        Some(state(200)),
        format!("id-{}", name),
        "t0".to_string(),
    )
}

#[test]
fn slots_stay_injective() {
    let mut presets: Vec<WledPreset> = Vec::new();
    add(&mut presets, "red", 4).unwrap();
    add(&mut presets, "blue", 7).unwrap();
    // A taken slot is a conflict, and the table is unchanged.
    assert_eq!(add(&mut presets, "green", 4).unwrap_err(), PresetError::Conflict);
    assert_eq!(presets.len(), 2);
    // Every pair of stored slots differs.
    for i in 0..presets.len() {
        for j in 0..presets.len() {
            if i != j {
                assert_ne!(presets[i].wled_slot, presets[j].wled_slot);
            }
        }
    }
}

#[test]
fn slot_zero_auto_assigns_smallest_free() {
    let mut presets: Vec<WledPreset> = Vec::new();
    add(&mut presets, "one", 1).unwrap();
    add(&mut presets, "two", 2).unwrap();
    add(&mut presets, "four", 4).unwrap();
    let p = add(&mut presets, "auto", 0).unwrap();
    assert_eq!(p.wled_slot, 3);
}

#[test]
fn slot_out_of_range_is_refused() {
    let mut presets: Vec<WledPreset> = Vec::new();
    assert_eq!(add(&mut presets, "big", 251).unwrap_err(), PresetError::BadRequest);
    assert!(presets.is_empty());
}

#[test]
fn lookups_find_what_was_stored() {
    let mut presets: Vec<WledPreset> = Vec::new();
    add(&mut presets, "red", 4).unwrap();
    add(&mut presets, "blue", 7).unwrap();
    assert!(slot_used(&presets, 4));
    assert!(!slot_used(&presets, 5));
    let found = find_by_slot(&presets, 7).unwrap();
    assert_eq!(found.name, "blue");
    let found = find_by_id(&presets, &"id-red".to_string()).unwrap();
    assert_eq!(found.wled_slot, 4);
    assert!(find_by_id(&presets, &"id-missing".to_string()).is_none());
}

#[test]
fn update_keeps_identity_and_slot() {
    let mut presets: Vec<WledPreset> = Vec::new();
    add(&mut presets, "red", 4).unwrap();
    let updated = update_preset(
        &mut presets,
        4,
        "crimson".to_string(),
        Some("darker".to_string()),
        Some(state(10)),
    )
    .unwrap();
    assert_eq!(updated.name, "crimson");
    assert_eq!(updated.wled_slot, 4);
    assert_eq!(updated.id, "id-red");
    assert_eq!(updated.state.brightness, 10);
    assert_eq!(
        update_preset(&mut presets, 9, "x".to_string(), None, None).unwrap_err(),
        PresetError::NotFound
    );
}

#[test]
fn deletes_remove_exactly_one() {
    let mut presets: Vec<WledPreset> = Vec::new();
    add(&mut presets, "red", 4).unwrap();
    add(&mut presets, "blue", 7).unwrap();
    delete_by_slot(&mut presets, 4).unwrap();
    assert_eq!(presets.len(), 1);
    assert_eq!(presets[0].name, "blue");
    assert_eq!(delete_by_slot(&mut presets, 4), Err(PresetError::NotFound));
    delete_by_id(&mut presets, &"id-blue".to_string()).unwrap();
    assert!(presets.is_empty());
}

#[test]
fn created_presets_get_a_fresh_identifier() {
    let mut presets: Vec<WledPreset> = Vec::new();
    let p = create_preset(
        &mut presets,
        "fresh".to_string(),
        0,
        None,
        None,
        "t1".to_string(),
    )
    .unwrap();
    assert_eq!(p.id.len(), 36);
    assert_eq!(p.wled_slot, 1);
    // The default render state fills in when the request has none.
    let d = default_preset_state();
    assert_eq!(p.state.brightness, d.brightness);
}
