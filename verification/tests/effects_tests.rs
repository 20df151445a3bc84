use ledshow::effects::{
    beat_index, beat_phase_milli, pulse_brightness, strobe_threshold, EffectRunner,
    EffectType, Flash, Pulse, Solid, Strobe,
};
use ledshow::e131::DMX_PAYLOAD_LEN;

#[test]
fn effect_names_parse_case_insensitively() {
    assert_eq!(EffectType::from_str("strobe"), Ok(EffectType::Strobe));
    assert_eq!(EffectType::from_str("STROBE"), Ok(EffectType::Strobe));
    assert_eq!(EffectType::from_str("Wipe_Up"), Ok(EffectType::WipeUp));
    assert_eq!(EffectType::from_str("wipe_center"), Ok(EffectType::WipeCenter));
    assert_eq!(EffectType::from_str("lightning"), Ok(EffectType::Lightning));
    assert_eq!(EffectType::from_str("puddles"), Ok(EffectType::Puddles));
    assert_eq!(EffectType::from_str("sparkle"), Ok(EffectType::Sparkle));
    assert_eq!(EffectType::from_str("solid"), Ok(EffectType::Solid));
    assert_eq!(EffectType::from_str("pulse"), Ok(EffectType::Pulse));
    assert_eq!(EffectType::from_str("bursts"), Ok(EffectType::Bursts));
    assert!(EffectType::from_str("disco").is_err());
}

#[test]
fn beat_math_and_the_zero_bpm_sentinel() {
    // 120 BPM = 500 ms beats.
    assert_eq!(beat_phase_milli(0, 120_000), Some(0));
    assert_eq!(beat_phase_milli(250, 120_000), Some(500));
    assert_eq!(beat_index(1250, 120_000), 2);
    // Zero BPM has no beat: no phase, no temporal variation.
    assert_eq!(beat_phase_milli(1234, 0), None);
    assert_eq!(beat_index(1234, 0), 0);
    assert_eq!(pulse_brightness(None), 255);
}

#[test]
fn solid_sends_once_per_universe() {
    let mut s = Solid::new([10, 20, 30]);
    let first = s.tick(7, 3).expect("first tick sends");
    assert_eq!(first.len(), DMX_PAYLOAD_LEN);
    assert_eq!(&first[0..4], &[10, 20, 30, 0]);
    assert!(s.tick(7, 3).is_none());
    // Another universe still gets its frame.
    assert!(s.tick(8, 3).is_some());
    assert!(s.tick(8, 3).is_none());
}

#[test]
fn flash_envelope() {
    let mut f = Flash::new([200, 100, 50]);
    // Full-on inside the first 30 ms.
    let frame = f.tick(0, 1, 2).unwrap();
    assert_eq!(&frame[0..3], &[200, 100, 50]);
    // Fading after 30 ms, darker than full.
    let frame = f.tick(130, 1, 2).unwrap();
    assert!(frame[0] < 200);
    // One final zero frame, then silence.
    let frame = f.tick(300, 1, 2).unwrap();
    assert!(frame.iter().all(|b| *b == 0));
    assert!(f.tick(301, 1, 2).is_none());
}

#[test]
fn pulse_skips_unchanged_brightness() {
    let mut p = Pulse::new([255, 255, 255], 120_000);
    // Phase zero renders full brightness, which a fresh universe is
    // assumed to show already: no frame.
    assert!(p.tick(0, 1, 2).is_none());
    // Later in the beat the brightness dropped: a frame goes out.
    let frame = p.tick(250, 1, 2).expect("decayed brightness must send");
    assert!(frame[0] < 255);
    // The same instant again: no change, no frame.
    assert!(p.tick(250, 1, 2).is_none());
}

#[test]
fn strobe_sends_three_frames_per_edge() {
    let mut s = Strobe::new([255, 0, 0], 120_000);
    // At phase zero the strobe is lit; a fresh universe is dark, so
    // this is an edge: three identical bright frames.
    let frames = s.tick(0, 1, 2);
    assert_eq!(frames.len(), 3);
    for f in &frames {
        assert_eq!(&f[0..4], &[255, 0, 0, 0]);
    }
    // Still lit: no edge, nothing sent.
    assert_eq!(s.tick(1, 1, 2).len(), 0);
    // Far into the beat the strobe is dark: an edge of black frames.
    let frames = s.tick(400, 1, 2);
    assert_eq!(frames.len(), 3);
    assert!(frames[0].iter().all(|b| *b == 0));
}

#[test]
fn strobe_threshold_clamps() {
    // 120 BPM: 25 ms of 500 ms is 5%, the lower clamp.
    assert_eq!(strobe_threshold(120_000), 50);
    // Very fast beats push the ratio above the upper clamp.
    assert_eq!(strobe_threshold(3_000_000), 150);
    // The sentinel keeps the lower clamp.
    assert_eq!(strobe_threshold(0), 50);
}

#[test]
fn every_runner_emits_full_payloads() {
    let types = [
        EffectType::Strobe,
        EffectType::Solid,
        EffectType::Pulse,
        EffectType::Bursts,
        EffectType::Flash,
        EffectType::WipeUp,
        EffectType::WipeCenter,
        EffectType::Lightning,
        EffectType::Puddles,
        EffectType::Sparkle,
    ];
    for t in types {
        let mut runner = t.create([120, 60, 30], 120_000);
        for step in 0..8u64 {
            let (next, frames) = runner.tick(step * 25, 7, 60);
            runner = next;
            assert!(frames.len() <= 3);
            for f in &frames {
                assert_eq!(f.len(), DMX_PAYLOAD_LEN, "type {:?}", t);
            }
        }
    }
}

#[test]
fn wipe_rests_dark_at_phase_zero() {
    let runner = EffectType::WipeUp.create([255, 255, 255], 120_000);
    let (_, frames) = runner.tick(0, 1, 60);
    assert_eq!(frames.len(), 1);
    assert!(frames[0].iter().all(|b| *b == 0));
}
