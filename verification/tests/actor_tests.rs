use ledshow::actor::{ActorAction, BoardActor, InboundFields};
use ledshow::board::BoardCommand;
use ledshow::sse::SseEvent;

fn actor() -> BoardActor {
    BoardActor::new("b1".to_string(), "10.0.0.1".to_string())
}

fn no_fields() -> InboundFields {
    InboundFields {
        on: None,
        bri: None,
        color: None,
        fx: None,
        sx: None,
        ix: None,
        stop: None,
        max_leds: None,
    }
}

fn sent_text(a: &ActorAction) -> &str {
    match a {
        ActorAction::SendWs(m) => m.as_str(),
        _ => panic!("expected a wire message"),
    }
}

#[test]
fn wire_messages_match_the_firmware_forms() {
    let mut a = actor();
    let acts = a.handle_command_connected(&BoardCommand::SetPower(true, 0));
    assert_eq!(sent_text(&acts[0]), "{\"on\":true,\"tt\":0}");
    let acts = a.handle_command_connected(&BoardCommand::SetBrightness(128, 0));
    assert_eq!(sent_text(&acts[0]), "{\"bri\":128,\"tt\":0}");
    let acts = a.handle_command_connected(&BoardCommand::SetColor {
        r: 255,
        g: 0,
        b: 30,
        transition: 2,
    });
    assert_eq!(sent_text(&acts[0]), "{\"seg\":[{\"col\":[[255,0,30]]}],\"tt\":2}");
    let acts = a.handle_command_connected(&BoardCommand::SetEffect(9, 0));
    assert_eq!(sent_text(&acts[0]), "{\"seg\":[{\"fx\":9}],\"tt\":0}");
    let acts = a.handle_command_connected(&BoardCommand::SetSpeed(100, 0));
    assert_eq!(sent_text(&acts[0]), "{\"seg\":[{\"sx\":100}],\"tt\":0}");
    let acts = a.handle_command_connected(&BoardCommand::SetIntensity(77, 0));
    assert_eq!(sent_text(&acts[0]), "{\"seg\":[{\"ix\":77}],\"tt\":0}");
    let acts = a.handle_command_connected(&BoardCommand::SetPreset(4, 0));
    assert_eq!(sent_text(&acts[0]), "{\"ps\":4,\"tt\":0}");
    let acts = a.handle_command_connected(&BoardCommand::SetLedCount(144));
    assert_eq!(sent_text(&acts[0]), "{\"seg\":[{\"len\":144}]}");
    let acts = a.handle_command_connected(&BoardCommand::ResetSegment);
    assert_eq!(
        sent_text(&acts[0]),
        "{\"seg\":[{\"id\":0,\"grp\":1,\"spc\":0,\"of\":0}]}"
    );
    let acts = a.handle_command_connected(&BoardCommand::SetTransition(3));
    assert_eq!(sent_text(&acts[0]), "{\"tt\":3,\"transition\":3}");
}

#[test]
fn connect_emits_transition_init() {
    let mut a = actor();
    let acts = a.on_connected(Some(no_fields()));
    assert_eq!(sent_text(&acts[0]), "{\"tt\":0,\"transition\":0}");
    assert!(a.state.connected);
}

#[test]
fn sync_commands_touch_no_wire() {
    let mut a = actor();
    for cmd in [
        BoardCommand::SyncPowerState(true),
        BoardCommand::SyncBrightnessState(200),
        BoardCommand::SyncPresetState(4),
    ] {
        let acts = a.handle_command_connected(&cmd);
        assert!(acts
            .iter()
            .all(|x| !matches!(x, ActorAction::SendWs(_))));
    }
    assert!(a.state.on);
    assert_eq!(a.state.brightness, 200);
    assert_eq!(a.state.preset, Some(4));
}

#[test]
fn actor_broadcasts_only_its_own_id() {
    let mut a = actor();
    let mut all: Vec<ActorAction> = Vec::new();
    all.extend(a.on_connect_failed());
    all.extend(a.on_connected(Some(no_fields())));
    all.extend(a.handle_command_connected(&BoardCommand::SetPower(true, 0)));
    all.extend(a.on_inbound(&no_fields()));
    all.extend(a.on_connection_lost());
    all.extend(a.handle_command_disconnected(&BoardCommand::SetBrightness(1, 0)));
    for act in &all {
        if let ActorAction::Broadcast(e) = act {
            match e {
                SseEvent::StateUpdate { board_id, .. } => assert_eq!(board_id, "b1"),
                SseEvent::ConnectionStatus { board_id, .. } => assert_eq!(board_id, "b1"),
                SseEvent::Connected { .. } => {},
            }
        }
    }
}

#[test]
fn disconnected_commands_are_cached_silently() {
    let mut a = actor();
    let acts = a.handle_command_disconnected(&BoardCommand::SetColor {
        r: 1,
        g: 2,
        b: 3,
        transition: 0,
    });
    assert!(acts.iter().all(|x| !matches!(x, ActorAction::SendWs(_))));
    assert_eq!(a.state.color, [1, 2, 3]);
    let acts = a.handle_command_disconnected(&BoardCommand::GetState);
    assert!(matches!(acts[0], ActorAction::Reply(_)));
    let acts = a.handle_command_disconnected(&BoardCommand::Shutdown);
    assert!(matches!(acts[0], ActorAction::Terminate));
}

#[test]
fn inbound_fields_update_the_cache() {
    let mut a = actor();
    let fields = InboundFields {
        on: Some(true),
        bri: Some(42),
        color: Some([9, 8, 7]),
        fx: Some(3),
        sx: Some(4),
        ix: Some(5),
        stop: Some(60),
        max_leds: Some(300),
    };
    a.on_inbound(&fields);
    assert!(a.state.on);
    assert_eq!(a.state.brightness, 42);
    assert_eq!(a.state.color, [9, 8, 7]);
    assert_eq!(a.state.effect, 3);
    assert_eq!(a.state.speed, 4);
    assert_eq!(a.state.intensity, 5);
    assert_eq!(a.state.led_count, Some(60));
    assert_eq!(a.state.max_leds, Some(300));
}

#[test]
fn backoff_lengthens_in_performance_mode() {
    let a = actor();
    assert_eq!(a.backoff_ms(false), 3_000);
    assert_eq!(a.backoff_ms(true), 30_000);
}

#[test]
fn connection_status_json() {
    let e = SseEvent::ConnectionStatus {
        board_id: "b1".to_string(),
        connected: false,
    };
    assert_eq!(
        e.to_sse_message(),
        "{\"type\":\"connection_status\",\"board_id\":\"b1\",\"connected\":false}"
    );
}

#[test]
fn state_update_json_escapes_the_id() {
    let mut a = BoardActor::new("b\"1".to_string(), "10.0.0.1".to_string());
    let acts = a.on_inbound(&no_fields());
    match &acts[0] {
        ActorAction::Broadcast(e) => {
            let text = e.to_sse_message();
            assert!(text.starts_with(
                "{\"type\":\"state_update\",\"board_id\":\"b\\\"1\",\"state\":{\"id\":\"b\\\"1\""
            ));
            assert!(text.contains("\"connected\":false"));
        },
        _ => panic!("inbound state must broadcast"),
    }
}
