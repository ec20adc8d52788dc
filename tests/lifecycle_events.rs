use rbx_studio_mcp::lifecycle::{on_event, Phase, StudioAction, StudioEvent};
use rbx_studio_mcp::server_state::{AppState, RegistrationMessage, RunCommandResponse, SessionState};
use rbx_studio_mcp::value::Value;

fn registration() -> RegistrationMessage {
    RegistrationMessage {
        msg_type: "register".to_string(),
        place_id: 111,
        place_name: "Baseplate".to_string(),
        game_id: 1,
        job_id: "j".to_string(),
        place_version: 1,
        creator_id: 2,
        creator_type: "Group".to_string(),
    }
}

#[test]
fn handshake_then_response_then_close() {
    let mut state: AppState<u8, &'static str> = AppState::new();
    let (phase, action) = on_event(
        &mut state,
        Phase::Handshaking,
        StudioEvent::Registration { registration: registration(), sender: 1, connected_at: "now".to_string() },
    );
    let id = match (phase, action) {
        (Phase::Registered(id), StudioAction::Acknowledge(ack)) => {
            assert_eq!(id, ack);
            id
        }
        _ => panic!("expected registration"),
    };
    assert_eq!(state.studio_count(), 1);

    let session = SessionState { selected_studio_id: None };
    assert_eq!(state.begin_dispatch_with_id(&session, 1, "first").ok(), Some(id));
    assert_eq!(state.begin_dispatch_with_id(&session, 2, "second").ok(), Some(id));

    let reply = RunCommandResponse { success: true, response: Value::Boolean(true), id: 1 };
    match on_event(&mut state, Phase::Registered(id), StudioEvent::Response(reply)) {
        (Phase::Registered(p), StudioAction::Complete(c, outcome)) => {
            assert_eq!(p, id);
            assert_eq!(c, "first");
            assert_eq!(outcome, Ok("true".to_string()));
        }
        _ => panic!("expected a completion"),
    }
    let unknown = RunCommandResponse { success: true, response: Value::Nil, id: 99 };
    assert!(matches!(
        on_event(&mut state, Phase::Registered(id), StudioEvent::Response(unknown)),
        (Phase::Registered(_), StudioAction::Ignore)
    ));
    assert!(matches!(
        on_event(&mut state, Phase::Registered(id), StudioEvent::Undecodable),
        (Phase::Registered(_), StudioAction::Ignore)
    ));
    match on_event(&mut state, Phase::Registered(id), StudioEvent::Closed) {
        (Phase::Closed, StudioAction::FailPending(failed)) => assert_eq!(failed, vec!["second"]),
        _ => panic!("expected teardown"),
    }
    assert_eq!(state.studio_count(), 0);
    assert_eq!(state.pending_count(), 0);
}

#[test]
fn invalid_handshake_registers_nothing() {
    let mut state: AppState<u8, u8> = AppState::new();
    assert!(matches!(
        on_event(&mut state, Phase::Handshaking, StudioEvent::InvalidHandshake),
        (Phase::Closed, StudioAction::Abort)
    ));
    assert!(matches!(
        on_event(&mut state, Phase::Handshaking, StudioEvent::Closed),
        (Phase::Closed, StudioAction::Abort)
    ));
    assert_eq!(state.studio_count(), 0);
    assert!(matches!(
        on_event(&mut state, Phase::Closed, StudioEvent::Undecodable),
        (Phase::Closed, StudioAction::Ignore)
    ));
}
