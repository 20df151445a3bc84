use ledshow::board::{BoardCommand, GroupCommand};
use ledshow::e131::{
    build_packet, frame_blackout, frame_led_buffer, frame_raw_leds, frame_solid_color,
    Packetizer, DMX_PAYLOAD_LEN, PACKET_LEN, PAYLOAD_OFFSET, SEQ_OFFSET,
};
use ledshow::group::{plan_group_command, GroupPlan};

#[test]
fn packet_layout() {
    let payload = vec![7u8; DMX_PAYLOAD_LEN];
    let p = build_packet(1234, 42, &payload);
    assert_eq!(p.len(), PACKET_LEN);
    // Root layer.
    assert_eq!(&p[0..4], &[0x00, 0x10, 0x00, 0x00]);
    assert_eq!(&p[4..16], b"ASC-E1.17\0\0\0");
    assert_eq!(&p[16..18], &[0x72, 0x6e]);
    // Source name.
    assert_eq!(&p[44..60], b"WLED Rust Server");
    assert_eq!(p[108], 100);
    // Sequence, universe, start code.
    assert_eq!(p[SEQ_OFFSET], 42);
    assert_eq!(p[113], (1234u16 >> 8) as u8);
    assert_eq!(p[114], (1234u16 & 0xff) as u8);
    assert_eq!(p[125], 0x00);
    // Payload.
    assert!(p[PAYLOAD_OFFSET..].iter().all(|b| *b == 7));
}

#[test]
fn sequence_advances_and_header_stays() {
    let mut tx = Packetizer::new(7);
    let payload = vec![0u8; DMX_PAYLOAD_LEN];
    let first = tx.next_packet(&payload);
    let second = tx.next_packet(&payload);
    assert_eq!(first[SEQ_OFFSET], 0);
    assert_eq!(second[SEQ_OFFSET], 1);
    for i in 0..PAYLOAD_OFFSET {
        if i != SEQ_OFFSET {
            assert_eq!(first[i], second[i], "header byte {} changed", i);
        }
    }
}

#[test]
fn sequence_wraps_at_256() {
    let mut tx = Packetizer::new(1);
    let payload = vec![0u8; DMX_PAYLOAD_LEN];
    let mut last = 0u8;
    for _ in 0..257 {
        let p = tx.next_packet(&payload);
        last = p[SEQ_OFFSET];
    }
    assert_eq!(last, 0);
}

#[test]
fn zero_led_count_gives_all_zero_payload() {
    let f = frame_raw_leds(0, 200, 100, 50);
    assert_eq!(f.len(), DMX_PAYLOAD_LEN);
    assert!(f.iter().all(|b| *b == 0));
}

#[test]
fn led_count_clamps_at_128() {
    let f = frame_raw_leds(300, 9, 8, 7);
    assert_eq!(f.len(), DMX_PAYLOAD_LEN);
    // Slot 127 is the last lit slot.
    assert_eq!(&f[127 * 4..127 * 4 + 4], &[9, 8, 7, 0]);
    assert_eq!(&f[0..4], &[9, 8, 7, 0]);
}

#[test]
fn raw_frame_is_rgbw() {
    let f = frame_raw_leds(2, 1, 2, 3);
    assert_eq!(&f[0..8], &[1, 2, 3, 0, 1, 2, 3, 0]);
    assert!(f[8..].iter().all(|b| *b == 0));
}

#[test]
fn blackout_is_zero() {
    let f = frame_blackout(60);
    assert!(f.iter().all(|b| *b == 0));
}

#[test]
fn buffer_frame_copies_colours() {
    let f = frame_led_buffer(&vec![[10, 20, 30], [40, 50, 60]]);
    assert_eq!(&f[0..8], &[10, 20, 30, 0, 40, 50, 60, 0]);
    assert!(f[8..].iter().all(|b| *b == 0));
}

#[test]
fn solid_color_scales_by_brightness() {
    let f = frame_solid_color(1, 200, 100, 50, 128);
    assert_eq!(f[0], (200u16 * 128 / 255) as u8);
    assert_eq!(f[1], (100u16 * 128 / 255) as u8);
    assert_eq!(f[2], (50u16 * 128 / 255) as u8);
}

#[test]
fn group_fast_path_single_packet() {
    let members = vec!["b1".to_string(), "b2".to_string(), "b3".to_string()];
    let plan = plan_group_command(&GroupCommand::SetPreset(4, 0), &members, [200, 100, 50], 255);
    match plan {
        GroupPlan::Fast { frame, syncs } => {
            // Exactly one frame whatever the member count.
            assert_eq!(frame.len(), DMX_PAYLOAD_LEN);
            assert_eq!(frame[0], (200u16 * 255 / 255) as u8);
            assert_eq!(frame[1], (100u16 * 255 / 255) as u8);
            assert_eq!(frame[2], (50u16 * 255 / 255) as u8);
            assert_eq!(syncs.len(), 3);
            for (i, (id, cmd)) in syncs.iter().enumerate() {
                assert_eq!(id, &members[i]);
                assert_eq!(*cmd, BoardCommand::SyncPresetState(4));
            }
        },
        GroupPlan::PerBoard(_) => panic!("preset must ride the fast path"),
    }
}

#[test]
fn group_power_off_blacks_out() {
    let members = vec!["b1".to_string()];
    let plan = plan_group_command(&GroupCommand::SetPower(false, 0), &members, [9, 9, 9], 77);
    match plan {
        GroupPlan::Fast { frame, syncs } => {
            assert!(frame.iter().all(|b| *b == 0));
            assert_eq!(syncs[0].1, BoardCommand::SyncPowerState(false));
        },
        GroupPlan::PerBoard(_) => panic!("power must ride the fast path"),
    }
}

#[test]
fn group_color_falls_back_to_fanout() {
    let members = vec!["b1".to_string(), "b2".to_string()];
    let plan = plan_group_command(
        &GroupCommand::SetColor { r: 1, g: 2, b: 3, transition: 5 },
        &members,
        [0, 0, 0],
        0,
    );
    match plan {
        GroupPlan::Fast { .. } => panic!("colour cannot ride the fast path"),
        GroupPlan::PerBoard(cmds) => {
            assert_eq!(cmds.len(), 2);
            assert_eq!(
                cmds[0].1,
                BoardCommand::SetColor { r: 1, g: 2, b: 3, transition: 5 }
            );
        },
    }
}
