use ledshow::pattern::{
    generate_sequence, step_interval_ms, total_duration_ms, transform_board_order,
    PatternType,
};
use ledshow::pattern_engine::{plan_cycle, plan_random_beat};

fn members(n: usize) -> Vec<String> {
    (0..n).map(|i| format!("b{}", i + 1)).collect()
}

#[test]
fn wave_order_is_member_order() {
    let m = members(3);
    let steps = transform_board_order(&m, &PatternType::Wave);
    assert_eq!(steps, vec![vec!["b1".to_string()], vec!["b2".to_string()],
        vec!["b3".to_string()]]);
}

#[test]
fn wave_reverse_is_reverse_of_wave() {
    let m = members(4);
    let wave = transform_board_order(&m, &PatternType::Wave);
    let mut reversed = wave.clone();
    reversed.reverse();
    assert_eq!(transform_board_order(&m, &PatternType::WaveReverse), reversed);
}

#[test]
fn center_out_is_reverse_of_outside_in() {
    for n in 1..=6 {
        let m = members(n);
        let outside = transform_board_order(&m, &PatternType::OutsideIn);
        let mut reversed = outside.clone();
        reversed.reverse();
        assert_eq!(transform_board_order(&m, &PatternType::CenterOut), reversed);
    }
}

#[test]
fn alternate_splits_even_and_odd() {
    let m = members(5);
    let steps = transform_board_order(&m, &PatternType::Alternate);
    assert_eq!(steps.len(), 2);
    assert_eq!(steps[0], vec!["b1".to_string(), "b3".to_string(), "b5".to_string()]);
    assert_eq!(steps[1], vec!["b2".to_string(), "b4".to_string()]);
}

#[test]
fn outside_in_pairs_collapse() {
    let m = members(5);
    let steps = transform_board_order(&m, &PatternType::OutsideIn);
    assert_eq!(steps, vec![
        vec!["b1".to_string(), "b5".to_string()],
        vec!["b2".to_string(), "b4".to_string()],
        vec!["b3".to_string()],
    ]);
}

#[test]
fn ping_pong_uses_wave_steps() {
    let m = members(3);
    assert_eq!(
        transform_board_order(&m, &PatternType::PingPong),
        transform_board_order(&m, &PatternType::Wave)
    );
}

#[test]
fn random_is_a_permutation_of_wave() {
    let m = members(6);
    let mut steps = transform_board_order(&m, &PatternType::Random);
    assert_eq!(steps.len(), 6);
    steps.sort();
    let mut wave = transform_board_order(&m, &PatternType::Wave);
    wave.sort();
    assert_eq!(steps, wave);
}

#[test]
fn two_board_wave_timing() {
    // A two-board wave at 120 BPM: one 500 ms cycle, the second board
    // 250 ms after the first.
    let m = members(2);
    let seq = generate_sequence(&m, &PatternType::Wave, 120, 1000);
    assert_eq!(seq.total_duration_ms, 500);
    assert_eq!(seq.steps.len(), 2);
    assert_eq!(seq.steps[0].board_ids, vec!["b1".to_string()]);
    assert_eq!(seq.steps[1].board_ids, vec!["b2".to_string()]);
    assert_eq!(step_interval_ms(500, 2), 250);

    let plan = plan_cycle(&seq, [255, 0, 0], 0, false);
    assert_eq!(plan.total_ms, 500);
    // The head frame of each step: b1 at 0 ms, b2 at 250 ms, full colour.
    assert!(plan.ops.iter().any(|op| op.at_ms == 0
        && op.board_ids == vec!["b1".to_string()] && op.rgb == [255, 0, 0]));
    assert!(plan.ops.iter().any(|op| op.at_ms == 250
        && op.board_ids == vec!["b2".to_string()] && op.rgb == [255, 0, 0]));
    // Times never decrease and the cycle ends dark over every board.
    for w in plan.ops.windows(2) {
        assert!(w[0].at_ms <= w[1].at_ms);
    }
    let last = plan.ops.last().unwrap();
    assert_eq!(last.rgb, [0, 0, 0]);
    assert_eq!(last.board_ids, vec!["b1".to_string(), "b2".to_string()]);
}

#[test]
fn zero_bpm_is_the_no_beat_sentinel() {
    assert_eq!(total_duration_ms(0, 1000), u64::MAX);
    assert_eq!(total_duration_ms(120, 0), u64::MAX);
    assert_eq!(total_duration_ms(120, 1000), 500);
    assert_eq!(total_duration_ms(60, 500), 2000);
}

#[test]
fn ping_pong_reverses_odd_cycles() {
    let m = members(3);
    let seq = generate_sequence(&m, &PatternType::PingPong, 120, 1000);
    let forward = plan_cycle(&seq, [0, 0, 255], 0, true);
    let backward = plan_cycle(&seq, [0, 0, 255], 1, true);
    assert_eq!(forward.ops[0].board_ids, vec!["b1".to_string()]);
    assert_eq!(backward.ops[0].board_ids, vec!["b3".to_string()]);
}

#[test]
fn random_beat_avoids_repeat_and_ends_dark() {
    let m = members(3);
    let seq = generate_sequence(&m, &PatternType::Random, 120, 1000);
    let (plan, chosen) = plan_random_beat(&seq, [9, 9, 9], &m, Some(1));
    assert!(chosen < 3);
    assert_ne!(chosen, 1);
    assert_eq!(plan.ops[0].at_ms, 0);
    assert_eq!(plan.ops[0].rgb, [0, 0, 0]);
    assert_eq!(plan.ops[1].rgb, [9, 9, 9]);
    assert_eq!(plan.ops[1].board_ids, vec![m[chosen].clone()]);
    let last = plan.ops.last().unwrap();
    assert_eq!(last.rgb, [0, 0, 0]);
    assert_eq!(last.board_ids, m);
}
