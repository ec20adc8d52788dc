use rbx_studio_mcp::reply::{completion_reply, disconnect_notice, dispatch_error_reply};
use rbx_studio_mcp::server_state::{
    get_or_create_session, set_studio, AppState, DispatchError, RegistrationMessage, ResolveError,
    RunCommandResponse, SelectError, SessionState, StudioSelection,
};
use rbx_studio_mcp::value::Value;

const ID_TEXT: &str = "550e8400-e29b-41d4-a716-446655440000";
const ID: u128 = 0x550e8400_e29b_41d4_a716_446655440000;
const OTHER: u128 = 0x6f9619ff_8b86_d011_b42d_00cf4fc964ff;

fn registration(place_id: u64, name: &str) -> RegistrationMessage {
    RegistrationMessage {
        msg_type: "register".to_string(),
        place_id,
        place_name: name.to_string(),
        game_id: 9,
        job_id: "job-1".to_string(),
        place_version: 3,
        creator_id: 77,
        creator_type: "User".to_string(),
    }
}

type State = AppState<&'static str, &'static str>;

fn response(id: u128, success: bool, v: Value) -> RunCommandResponse {
    RunCommandResponse { success, response: v, id }
}

#[test]
fn one_instance_routes_automatically() {
    let mut state: State = AppState::new();
    let studio = state.register(registration(111, "Baseplate"), "queue-a", "2024-01-01T00:00:00+00:00".to_string()).unwrap();
    let listing = state.list_studios();
    assert_eq!(listing.len(), 1);
    assert_eq!(listing[0].place_id, 111);
    assert_eq!(listing[0].place_name, "Baseplate");
    assert_eq!(listing[0].studio_id, uuid::Uuid::from_u128(studio).to_string());
    assert_eq!(listing[0].connected_at, "2024-01-01T00:00:00+00:00");

    let session = get_or_create_session(&mut state, "session-1");
    assert_eq!(session.selected_studio_id, None);
    let (request, target) = state.begin_dispatch(&session, "done-1").ok().unwrap();
    assert_eq!(target, studio);
    assert_eq!(state.sender_of(target), Some(&"queue-a"));
    assert!(state.is_pending(request));

    let (done, outcome) = state
        .deliver_response(response(request, true, Value::Text(Some("printed".to_string()))))
        .unwrap();
    assert_eq!(done, "done-1");
    let reply = completion_reply(Some(outcome));
    assert!(!reply.is_error);
    assert_eq!(reply.text, "printed");
    assert_eq!(state.pending_count(), 0);
}

#[test]
fn explicit_binding_routes_only_to_it() {
    let mut state: State = AppState::new();
    assert!(state.register_with_id(OTHER, registration(1, "A"), "queue-a", "t0".to_string()));
    assert!(state.register_with_id(ID, registration(2, "B"), "queue-b", "t1".to_string()));
    let bound = set_studio(&mut state, "s", Some(ID_TEXT)).ok().unwrap().unwrap();
    assert_eq!(bound.studio_id, ID_TEXT);
    match state.get_studio("s") {
        StudioSelection::Selected(info) => {
            assert_eq!(info.studio_id, ID_TEXT);
            assert_eq!(info.place_name, "B");
            assert_eq!(info.place_id, 2);
        }
        _ => panic!("expected a selection"),
    }
    let session = get_or_create_session(&mut state, "s");
    assert_eq!(session.selected_studio_id, Some(ID));
    for k in 0..3u128 {
        assert_eq!(state.begin_dispatch_with_id(&session, k, "c").ok(), Some(ID));
    }
    assert_eq!(state.pending_count(), 3);
}

#[test]
fn disconnect_fails_only_its_requests() {
    let mut state: State = AppState::new();
    assert!(state.register_with_id(OTHER, registration(1, "A"), "queue-a", "t0".to_string()));
    assert!(state.register_with_id(ID, registration(2, "B"), "queue-b", "t1".to_string()));
    let to_a = SessionState { selected_studio_id: Some(OTHER) };
    let to_b = SessionState { selected_studio_id: Some(ID) };
    assert_eq!(state.begin_dispatch_with_id(&to_b, 10, "b-first").ok(), Some(ID));
    assert_eq!(state.begin_dispatch_with_id(&to_a, 11, "a-only").ok(), Some(OTHER));
    assert_eq!(state.begin_dispatch_with_id(&to_b, 12, "b-second").ok(), Some(ID));

    let failed = state.disconnect(ID);
    assert_eq!(failed, vec!["b-first", "b-second"]);
    assert_eq!(disconnect_notice(), "Studio disconnected");
    assert_eq!(state.studio_count(), 1);
    assert!(!state.is_pending(10));
    assert!(!state.is_pending(12));
    assert!(state.is_pending(11));
    assert!(state.deliver_response(response(12, true, Value::Nil)).is_none());
    let (done, outcome) = state.deliver_response(response(11, false, Value::Integer(5))).unwrap();
    assert_eq!(done, "a-only");
    assert_eq!(outcome, Err("5".to_string()));
    assert_eq!(state.pending_count(), 0);

    match state.begin_dispatch_with_id(&to_b, 13, "late") {
        Err(DispatchError::Resolve(ResolveError::StaleSelection(id))) => assert_eq!(id, ID),
        _ => panic!("expected a stale selection"),
    }
    assert!(matches!(state.get_studio("nobody"), StudioSelection::NoneSelected));
}

#[test]
fn none_connected_sends_nothing() {
    let mut state: State = AppState::new();
    let session = get_or_create_session(&mut state, "s");
    let err = state.begin_dispatch(&session, "c").err().unwrap();
    assert!(matches!(err, DispatchError::Resolve(ResolveError::NoneConnected)));
    assert_eq!(state.pending_count(), 0);
    let reply = dispatch_error_reply(&err);
    assert!(reply.is_error);
    assert_eq!(
        reply.text,
        "No Studio instances connected. Open Roblox Studio with the MCP plugin enabled."
    );
}

#[test]
fn two_unbound_instances_are_ambiguous() {
    let mut state: State = AppState::new();
    assert!(state.register_with_id(OTHER, registration(1, "Alpha"), "queue-a", "t0".to_string()));
    assert!(state.register_with_id(ID, registration(2, "Beta"), "queue-b", "t1".to_string()));
    let session = SessionState { selected_studio_id: None };
    match state.resolve_studio_id(&session) {
        Err(ResolveError::Ambiguous(cs)) => {
            assert_eq!(cs.len(), 2);
            assert_eq!(cs[0].studio_id, OTHER);
            assert_eq!(cs[0].place_name, "Alpha");
            assert_eq!(cs[1].studio_id, ID);
            assert_eq!(cs[1].place_name, "Beta");
        }
        _ => panic!("expected an ambiguous resolution"),
    }
    let err = state.begin_dispatch_with_id(&session, 1, "c").err().unwrap();
    assert_eq!(
        err.message(),
        "Multiple studios connected. Call `set_studio` with one of these studio_ids first:\n  6f9619ff-8b86-d011-b42d-00cf4fc964ff - Alpha\n  550e8400-e29b-41d4-a716-446655440000 - Beta"
    );
    assert_eq!(state.pending_count(), 0);
}

#[test]
fn single_instance_is_auto_selected() {
    let mut state: State = AppState::new();
    assert!(state.register_with_id(ID, registration(5, "Solo"), "q", "t".to_string()));
    let session = SessionState { selected_studio_id: None };
    assert_eq!(state.resolve_studio_id(&session).ok(), Some(ID));
}

#[test]
fn stale_selection_message() {
    let e = ResolveError::StaleSelection(ID);
    assert_eq!(
        e.message(),
        "Selected studio 550e8400-e29b-41d4-a716-446655440000 is no longer connected. Call `list_studios` to see available studios, then `set_studio` to select one."
    );
}

#[test]
fn duplicate_request_identity_is_refused() {
    let mut state: State = AppState::new();
    assert!(state.register_with_id(ID, registration(5, "Solo"), "q", "t".to_string()));
    let session = SessionState { selected_studio_id: None };
    assert_eq!(state.begin_dispatch_with_id(&session, 4, "first").ok(), Some(ID));
    assert!(matches!(
        state.begin_dispatch_with_id(&session, 4, "second"),
        Err(DispatchError::DuplicateId)
    ));
    assert_eq!(state.pending_count(), 1);
    assert!(state.complete(4).is_some());
    assert!(state.complete(4).is_none());
    assert_eq!(state.pending_count(), 0);
}

#[test]
fn same_identity_cannot_register_twice() {
    let mut state: State = AppState::new();
    assert!(state.register_with_id(ID, registration(5, "Solo"), "q", "t".to_string()));
    assert!(!state.register_with_id(ID, registration(6, "Again"), "q2", "t".to_string()));
    assert_eq!(state.studio_count(), 1);
    assert_eq!(state.list_studios()[0].place_name, "Solo");
}

#[test]
fn binding_refusals() {
    let mut state: State = AppState::new();
    assert!(state.register_with_id(OTHER, registration(1, "Alpha"), "queue-a", "t0".to_string()));
    match set_studio(&mut state, "s", Some("not-an-id")) {
        Err(e) => {
            assert!(matches!(e, SelectError::InvalidId(_)));
            assert_eq!(e.message(), "Invalid studio_id: not-an-id");
        }
        Ok(_) => panic!("expected a refusal"),
    }
    match set_studio(&mut state, "s", Some(ID_TEXT)) {
        Err(e) => {
            assert_eq!(
                e.message(),
                "No studio with studio_id 550e8400-e29b-41d4-a716-446655440000.\nAvailable:\n  6f9619ff-8b86-d011-b42d-00cf4fc964ff - Alpha"
            );
        }
        Ok(_) => panic!("expected a refusal"),
    }
    assert!(matches!(state.get_studio("s"), StudioSelection::NoneSelected));
}

#[test]
fn clearing_and_stale_binding() {
    let mut state: State = AppState::new();
    assert!(state.register_with_id(ID, registration(1, "Alpha"), "queue-a", "t0".to_string()));
    assert!(set_studio(&mut state, "s", Some(ID_TEXT)).is_ok());
    state.disconnect(ID);
    assert!(matches!(state.get_studio("s"), StudioSelection::Disconnected(id) if id == ID));
    assert!(matches!(set_studio(&mut state, "s", None), Ok(None)));
    assert!(matches!(state.get_studio("s"), StudioSelection::NoneSelected));
    assert!(state.bind("s", Some(OTHER)).is_err());
}

#[test]
fn dropped_completion_reads_as_disconnection() {
    let reply = completion_reply(None);
    assert!(reply.is_error);
    assert_eq!(
        reply.text,
        "Studio disconnected while waiting for response. Call `list_studios` to see available studios."
    );
    let failed = completion_reply(Some(Err("boom".to_string())));
    assert!(failed.is_error);
    assert_eq!(failed.text, "boom");
}

#[test]
fn minted_request_identities_stay_distinct() {
    let mut state: State = AppState::new();
    assert!(state.register_with_id(ID, registration(5, "Solo"), "q", "t".to_string()));
    let session = SessionState { selected_studio_id: None };
    let mut ids = Vec::new();
    for _ in 0..50 {
        let (request, target) = state.begin_dispatch(&session, "c").ok().unwrap();
        assert_eq!(target, ID);
        ids.push(request);
    }
    assert_eq!(state.pending_count(), 50);
    ids.sort();
    ids.dedup();
    assert_eq!(ids.len(), 50);
    for id in ids {
        assert!(state.is_pending(id));
    }
}

#[test]
fn repeated_session_lookup_changes_nothing() {
    let mut state: State = AppState::new();
    assert!(state.register_with_id(ID, registration(1, "Alpha"), "queue-a", "t0".to_string()));
    assert!(set_studio(&mut state, "s", Some(ID_TEXT)).is_ok());
    let first = get_or_create_session(&mut state, "s");
    let second = get_or_create_session(&mut state, "s");
    assert_eq!(first, second);
    assert_eq!(second.selected_studio_id, Some(ID));
    let fresh = get_or_create_session(&mut state, "other");
    assert_eq!(fresh.selected_studio_id, None);
    assert_eq!(state.studio_count(), 1);
    assert_eq!(state.pending_count(), 0);
}
