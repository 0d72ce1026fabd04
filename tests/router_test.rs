use nok::app::legacy_state::LegacyState;
use nok::app::matrix_state::MatrixState;
use nok::app::state::{ConnectionStatus, LogState};
use nok::app::state_manager::{Backend, CommunicationMode, ModeTransition, Outgoing, StateManager};
use nok::matrix::MatrixConfig;
use nok::util::error::NokError;

fn config() -> MatrixConfig {
    MatrixConfig {
        homeserver_url: "http://localhost:8008".to_string(),
        server_name: "nok.local".to_string(),
        device_name: "nok-client".to_string(),
        state_store_path: "matrix_state.db".to_string(),
        store_path: "matrix_state.db".to_string(),
    }
}

fn manager() -> StateManager {
    StateManager::new(MatrixState::new(config()), LegacyState::new())
}

fn connect_both(m: &mut StateManager) {
    m.matrix.set_client();
    m.matrix.login().unwrap();
    m.matrix.finish_login(Ok("@me:nok.local".to_string())).unwrap();
    m.legacy.connect(Ok(())).unwrap();
}

#[test]
fn hybrid_prefers_target_then_falls_back_to_legacy() {
    let mut m = manager();
    m.set_mode(CommunicationMode::Hybrid);
    connect_both(&mut m);
    match m.send_message("!room:nok.local", "hello") {
        Ok(Outgoing::MatrixRoomMessage { room, text }) => {
            assert_eq!(room.as_deref(), Some("!room:nok.local"));
            assert_eq!(text, "hello");
        }
        other => panic!("unexpected {:?}", other),
    }
    m.matrix.disable();
    match m.send_message("lobby", "again") {
        Ok(Outgoing::LegacyRoomMessage { room, text }) => {
            assert_eq!(room, "lobby");
            assert_eq!(text, "again");
        }
        other => panic!("unexpected {:?}", other),
    }
    m.legacy.disconnect();
    assert!(matches!(m.send_message("lobby", "x"), Err(NokError::AllBackendsUnavailable)));
}

#[test]
fn single_modes_route_exclusively() {
    let mut m = manager();
    m.set_mode(CommunicationMode::Legacy);
    assert!(matches!(m.send_knock("bob"), Err(NokError::BackendUnavailable(Backend::Legacy))));
    m.legacy.connect(Ok(())).unwrap();
    match m.send_knock("bob") {
        Ok(Outgoing::LegacyKnock { target }) => assert_eq!(target, "bob"),
        other => panic!("unexpected {:?}", other),
    }
    m.set_mode(CommunicationMode::Matrix);
    assert!(matches!(m.send_message("r", "t"), Err(NokError::BackendUnavailable(Backend::Matrix))));
    m.matrix.set_client();
    m.matrix.login().unwrap();
    m.matrix.finish_login(Ok("@me:nok.local".to_string())).unwrap();
    match m.send_knock("bob") {
        Ok(Outgoing::MatrixRoomMessage { room, text }) => {
            assert!(room.is_none());
            assert_eq!(text, "\u{1F6AA} *knock knock* for bob");
        }
        other => panic!("unexpected {:?}", other),
    }
}

#[test]
fn set_mode_toggles_flags() {
    let mut m = manager();
    m.set_mode(CommunicationMode::Hybrid);
    assert!(m.matrix.is_enabled());
    assert!(m.legacy.is_enabled());
    m.set_mode(CommunicationMode::Legacy);
    assert!(!m.matrix.is_enabled());
    assert!(m.legacy.is_enabled());
    m.set_mode(CommunicationMode::Matrix);
    assert!(m.matrix.is_enabled());
    assert!(!m.legacy.is_enabled());
    assert_eq!(m.get_mode(), CommunicationMode::Matrix);
}

#[test]
fn hybrid_presence_fans_out_and_aggregates() {
    let mut m = manager();
    m.set_mode(CommunicationMode::Hybrid);
    m.legacy.connect(Ok(())).unwrap();
    let plan = m.set_presence().unwrap();
    assert_eq!(plan.targets, vec![Backend::Legacy]);
    assert_eq!(plan.errors, vec!["Matrix presence error: not connected".to_string()]);
    match plan.finish(vec!["Legacy presence error: timeout".to_string()]) {
        Err(NokError::InternalError(msg)) => assert_eq!(
            msg,
            "Matrix presence error: not connected; Legacy presence error: timeout"
        ),
        other => panic!("unexpected {:?}", other),
    }
    connect_both(&mut m);
    let plan = m.set_presence().unwrap();
    assert_eq!(plan.targets, vec![Backend::Matrix, Backend::Legacy]);
    assert!(plan.errors.is_empty());
    assert!(plan.finish(Vec::new()).is_ok());
}

#[test]
fn presence_in_single_mode_routes() {
    let mut m = manager();
    m.set_mode(CommunicationMode::Legacy);
    assert!(matches!(m.set_presence(), Err(NokError::BackendUnavailable(Backend::Legacy))));
    m.legacy.connect(Ok(())).unwrap();
    let plan = m.set_presence().unwrap();
    assert_eq!(plan.targets, vec![Backend::Legacy]);
}

#[test]
fn initialize_and_record_connect() {
    let mut m = manager();
    let mut logs = LogState::new();
    m.set_mode(CommunicationMode::Hybrid);
    assert_eq!(m.initialize(), vec![Backend::Matrix, Backend::Legacy]);
    assert!(m.record_connect(Backend::Matrix, Err("unreachable".to_string()), &mut logs).is_ok());
    assert_eq!(logs.debug_logs.len(), 1);
    assert!(logs.debug_logs[0].ends_with("] Matrix connection failed: unreachable"));
    assert!(m.record_connect(Backend::Legacy, Ok(()), &mut logs).is_ok());
    assert_eq!(logs.debug_logs.len(), 1);
    assert!(m.legacy.is_connected());
    assert!(matches!(m.get_connection_status(), ConnectionStatus::Connected));

    m.set_mode(CommunicationMode::Legacy);
    assert_eq!(m.initialize(), vec![Backend::Legacy]);
    match m.record_connect(Backend::Legacy, Err("refused".to_string()), &mut logs) {
        Err(NokError::ConnectionFailed(reason)) => assert_eq!(reason, "refused"),
        other => panic!("unexpected {:?}", other),
    }
    match m.get_connection_status() {
        ConnectionStatus::Error(reason) => assert_eq!(reason, "refused"),
        other => panic!("unexpected {:?}", other),
    }
}

#[test]
fn status_and_shutdown() {
    let mut m = manager();
    m.set_mode(CommunicationMode::Matrix);
    assert!(matches!(m.get_connection_status(), ConnectionStatus::Connecting));
    m.set_mode(CommunicationMode::Hybrid);
    assert!(matches!(m.get_connection_status(), ConnectionStatus::Disconnected));
    connect_both(&mut m);
    assert_eq!(m.shutdown(), vec![Backend::Matrix, Backend::Legacy]);
    assert!(!m.legacy.is_connected());
}

#[test]
fn optimal_mode_and_transitions() {
    assert_eq!(ModeTransition::determine_optimal_mode(true, true, None), CommunicationMode::Hybrid);
    assert_eq!(ModeTransition::determine_optimal_mode(true, false, None), CommunicationMode::Matrix);
    assert_eq!(ModeTransition::determine_optimal_mode(false, true, None), CommunicationMode::Legacy);
    assert_eq!(ModeTransition::determine_optimal_mode(false, false, None), CommunicationMode::Matrix);
    assert_eq!(
        ModeTransition::determine_optimal_mode(true, true, Some(CommunicationMode::Legacy)),
        CommunicationMode::Legacy
    );
    let matrix = MatrixState::new(config());
    let legacy = LegacyState::new();
    assert_eq!(
        ModeTransition::validate_mode_transition(CommunicationMode::Legacy, CommunicationMode::Matrix, &matrix, &legacy),
        Err("Matrix client not initialized".to_string())
    );
    assert_eq!(
        ModeTransition::validate_mode_transition(CommunicationMode::Matrix, CommunicationMode::Legacy, &matrix, &legacy),
        Err("Not connected to legacy server".to_string())
    );
    assert!(ModeTransition::validate_mode_transition(
        CommunicationMode::Matrix,
        CommunicationMode::Hybrid,
        &matrix,
        &legacy
    )
    .is_ok());
}

#[test]
fn backend_checks() {
    let mut legacy = LegacyState::new();
    assert!(matches!(legacy.send_knock("x"), Err(NokError::ConnectionFailed(_))));
    legacy.disable();
    assert!(matches!(legacy.connect(Ok(())), Err(NokError::InternalError(_))));
    assert!(!legacy.is_connected());
    legacy.enable();
    match legacy.connect(Err("refused".to_string())) {
        Err(NokError::ConnectionFailed(r)) => assert_eq!(r, "refused"),
        other => panic!("unexpected {:?}", other),
    }
    assert!(matches!(legacy.get_connection_status(), ConnectionStatus::Error(r) if r == "refused"));
    assert!(legacy.connect(Ok(())).is_ok());
    assert!(legacy.is_connected());
    let mut matrix = MatrixState::new(config());
    assert!(matches!(matrix.login(), Err(NokError::InternalError(_))));
    matrix.enable();
    assert!(matches!(matrix.login(), Err(NokError::MatrixClientNotInitialized)));
    assert!(matches!(matrix.start_sync(), Err(NokError::MatrixClientNotInitialized)));
    matrix.set_client();
    assert!(matrix.login().is_ok());
    assert!(matrix.login.is_logging_in);
    match matrix.finish_login(Err("bad password".to_string())) {
        Err(NokError::MatrixLoginFailed(reason)) => assert_eq!(reason, "bad password"),
        other => panic!("unexpected {:?}", other),
    }
    assert!(!matrix.is_logged_in());
    assert!(matrix.user_id().is_none());
}

#[test]
fn error_classification() {
    assert!(NokError::ConnectionTimeout.should_retry());
    assert!(NokError::ConnectionTimeout.is_recoverable());
    assert!(NokError::AllBackendsUnavailable.is_recoverable());
    assert!(!NokError::AllBackendsUnavailable.should_retry());
    assert!(!NokError::ConfigFileNotFound.is_recoverable());
    assert_eq!(NokError::InternalError("x".to_string()).severity().label(), "CRITICAL");
    assert_eq!(NokError::InvalidInput("x".to_string()).severity().label(), "WARN");
    assert_eq!(NokError::ConfigFileNotFound.severity().label(), "ERROR");
}

#[test]
fn set_mode_keeps_sessions() {
    let mut m = manager();
    m.set_mode(CommunicationMode::Hybrid);
    connect_both(&mut m);
    m.set_mode(CommunicationMode::Legacy);
    assert!(!m.matrix.is_enabled());
    assert!(m.matrix.is_logged_in());
    assert!(m.legacy.is_connected());
    m.set_mode(CommunicationMode::Hybrid);
    assert!(matches!(m.send_message("r", "t"), Ok(Outgoing::MatrixRoomMessage { .. })));
}

#[test]
fn target_connect_builds_a_fresh_client() {
    let mut m = manager();
    let mut logs = LogState::new();
    m.set_mode(CommunicationMode::Matrix);
    assert!(m.record_connect(Backend::Matrix, Ok(()), &mut logs).is_ok());
    assert!(m.matrix.is_initialized());
    assert!(!m.matrix.is_logged_in());
    assert!(m.matrix.is_enabled());
    assert!(logs.debug_logs.is_empty());
}
