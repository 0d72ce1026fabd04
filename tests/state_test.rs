use nok::api::client::{ApiMessage, ApiRoom, ApiUser};
use nok::app::config::Config;
use nok::app::matrix_state::{LoginField, LoginState};
use nok::app::message::Message;
use nok::app::room::Room;
use nok::app::state::{AppCore, AppState, DataState, LogState, NetworkState, PaneIdentifier, UiState};
use nok::app::user::{extract_username_from_matrix_id, User, UserStatus};
use nok::ui::TabView;
use nok::util::validation::ValidationError;

#[test]
fn room_membership_and_info() {
    let mut room = Room::new("Lobby".to_string());
    assert_eq!(room.info_string(), "Lobby");
    room.add_user("alice".to_string());
    room.add_user("bob".to_string());
    room.add_user("alice".to_string());
    assert_eq!(room.users, vec!["alice".to_string(), "bob".to_string()]);
    assert_eq!(room.member_count, 2);
    assert!(room.has_user("bob"));
    assert!(!room.has_user("carol"));
    room.set_encrypted(true);
    assert_eq!(room.info_string(), "\u{1F512}Lobby (2 members)");
    room.remove_user("alice");
    assert_eq!(room.users, vec!["bob".to_string()]);
    assert_eq!(room.member_count, 1);
    room.set_member_count(12);
    room.set_encrypted(false);
    assert_eq!(room.info_string(), "Lobby (12 members)");
    let r = Room::from_matrix_room("!abc:nok.local".to_string(), "Dev".to_string());
    assert_eq!(r.matrix_id(), Some("!abc:nok.local"));
    assert_eq!(r.display_name(), "Dev");
}

#[test]
fn user_from_matrix_id() {
    assert_eq!(extract_username_from_matrix_id("@alice:nok.local"), "alice");
    assert_eq!(extract_username_from_matrix_id("@@bob"), "bob");
    assert_eq!(extract_username_from_matrix_id("carol"), "carol");
    let u = User::from_matrix_id("@dave:nok.local".to_string());
    assert_eq!(u.display_name(), "dave");
    assert_eq!(u.matrix_id(), Some("@dave:nok.local"));
    assert_eq!(u.to_matrix_id("other"), "@dave:nok.local");
    let mut v = User::new("erin".to_string());
    assert!(v.last_active > 1_600_000_000);
    assert_eq!(v.to_matrix_id("nok.local"), "@erin:nok.local");
    assert!(v.is_available());
    v.update_status(UserStatus::Busy);
    assert!(!v.is_available());
    v.update_status(UserStatus::Away);
    assert!(v.is_available());
}

#[test]
fn user_room_names() {
    let mut a = Room::new("Main".to_string());
    a.id = Some("r1".to_string());
    let mut b = Room::new("Dev".to_string());
    b.id = Some("r2".to_string());
    let mut u = User::new("alice".to_string());
    u.rooms = vec!["r2".to_string(), "missing".to_string(), "r1".to_string()];
    assert_eq!(u.get_room_names(&[a, b]), vec!["Dev".to_string(), "Main".to_string()]);
}

#[test]
fn message_age_text() {
    let m = Message::with_timestamp("a".to_string(), "hi".to_string(), "r".to_string(), 1_000_000);
    assert_eq!(m.message_type, "text");
    assert_eq!(m.formatted_time_at(1_000_030), "now");
    assert_eq!(m.formatted_time_at(1_000_000 + 150), "2m ago");
    assert_eq!(m.formatted_time_at(1_000_000 + 7200), "2h ago");
    assert_eq!(m.formatted_time_at(1_000_000 + 3 * 86400 + 5), "3d ago");
    assert_eq!(m.formatted_time_at(10), "now");
    let fresh = Message::new("a".to_string(), "hi".to_string(), "r".to_string());
    assert!(fresh.timestamp > 1_600_000_000);
    assert_eq!(fresh.formatted_time(), "now");
}

#[test]
fn login_form() {
    let mut form = LoginState::new();
    assert_eq!(form.validate_input(), Some(ValidationError::EmptyUsername));
    form.set_username("alice".to_string());
    assert_eq!(form.validate_input(), None);
    assert!(!form.is_form_valid());
    form.set_password("short".to_string());
    assert_eq!(form.validate_input(), Some(ValidationError::PasswordTooShort));
    form.set_password("password123".to_string());
    assert!(form.is_form_valid());
    assert!(form.can_submit());
    form.set_logging_in(true);
    assert!(!form.can_submit());
    form.set_error("boom".to_string());
    form.set_username("bob".to_string());
    assert!(form.error.is_none());
    assert_eq!(form.field_focus, LoginField::Username);
    form.next_field();
    assert_eq!(form.field_focus, LoginField::Password);
    form.next_field();
    assert_eq!(form.field_focus, LoginField::Username);
    form.clear_credentials();
    assert!(form.username.is_empty() && form.password.is_empty());
}

#[test]
fn debug_log_is_bounded() {
    let mut logs = LogState::new();
    assert_eq!(logs.max_debug_logs, 100);
    logs.max_debug_logs = 2;
    logs.add_debug_log("one".to_string());
    logs.add_debug_log("two".to_string());
    logs.add_debug_log("three".to_string());
    assert_eq!(logs.debug_logs.len(), 2);
    assert!(logs.debug_logs[0].starts_with('['));
    assert!(logs.debug_logs[0].ends_with("] two"));
    assert!(logs.debug_logs[1].ends_with("] three"));
    logs.add_settings_log("saved".to_string());
    assert!(logs.settings_logs[0].ends_with("] saved"));
    assert_eq!(logs.settings_logs[0].len(), "[12:34:56] saved".len());
    logs.clear_debug_logs();
    logs.clear_settings_logs();
    assert!(logs.debug_logs.is_empty() && logs.settings_logs.is_empty());
}

#[test]
fn core_ui_data_and_network_state() {
    let mut core = AppCore::new(Config::new("id-1".to_string(), "alice".to_string()));
    assert_eq!(core.state, AppState::Normal);
    assert_eq!(core.view, TabView::Rooms);
    assert_eq!(core.focused_pane, PaneIdentifier::Rooms);
    assert!(!core.should_quit());
    core.set_error("e".to_string());
    core.set_notification("n".to_string());
    assert_eq!(core.error.as_deref(), Some("e"));
    core.clear_error();
    core.clear_notification();
    assert!(core.error.is_none() && core.notification.is_none());

    let mut ui = UiState::new();
    ui.input.push_str("typing");
    ui.selected_user = Some(3);
    ui.selected_room_idx = 2;
    ui.clear_input();
    ui.reset_selections();
    assert!(ui.input.is_empty());
    assert_eq!(ui.selected_user, None);
    assert_eq!(ui.selected_room_idx, 0);

    let mut data = DataState::new(User::new("me".to_string()));
    assert!(data.get_current_room().is_none());
    data.add_room(Room::new("A".to_string()));
    data.add_room(Room::new("B".to_string()));
    data.add_user(User::new("bob".to_string()));
    data.add_message(Message::with_timestamp("bob".to_string(), "hi".to_string(), "A".to_string(), 5));
    data.set_current_room_idx(1);
    assert_eq!(data.get_current_room().map(|r| r.display_name()), Some("B"));
    data.set_current_room_idx(7);
    assert_eq!(data.current_room, 1);
    if let Some(room) = data.get_current_room_mut() {
        room.set_topic(Some("planning".to_string()));
    }
    assert_eq!(data.rooms[1].topic.as_deref(), Some("planning"));
    assert!(data.rooms[0].topic.is_none());
    assert_eq!(data.get_selected_user(Some(0)).map(|u| u.display_name()), Some("bob"));
    assert!(data.get_selected_user(Some(4)).is_none());
    assert!(data.get_selected_user(None).is_none());
    assert_eq!(data.messages.len(), 1);

    let mut net = NetworkState::new();
    assert!(!net.is_connected());
    net.request_reconnect();
    assert!(net.needs_reconnect());
    net.set_connecting();
    net.set_connected();
    assert!(net.is_connected());
    assert!(!net.needs_reconnect());
    net.set_error("down".to_string());
    assert!(!net.is_connected());
    net.set_disconnected();
    assert!(!net.is_connected());
}

#[test]
fn records_from_the_legacy_server() {
    let u = User::from_api(ApiUser {
        id: "u1".to_string(),
        name: "alice".to_string(),
        status: "busy".to_string(),
        created_at: "2024-01-01".to_string(),
    });
    assert_eq!(u.id.as_deref(), Some("u1"));
    assert_eq!(u.display_name(), "alice");
    assert_eq!(u.status, UserStatus::Busy);
    let r = Room::from_api(ApiRoom {
        id: "r1".to_string(),
        name: "Lobby".to_string(),
        description: Some("main".to_string()),
        is_public: true,
        created_at: "2024-01-01".to_string(),
        member_count: Some(3),
    });
    assert_eq!(r.id.as_deref(), Some("r1"));
    assert_eq!(r.description.as_deref(), Some("main"));
    assert_eq!(r.member_count, 0);
    let m = Message::from_api(ApiMessage {
        id: "m1".to_string(),
        content: "hello".to_string(),
        message_type: "knock".to_string(),
        sender_id: "u1".to_string(),
        sender_name: None,
        room_id: None,
        target_user_id: Some("u2".to_string()),
        created_at: "2024-01-01".to_string(),
    });
    assert_eq!(m.sender, "Unknown");
    assert_eq!(m.room, "Direct Message");
    assert_eq!(m.message_type, "knock");
    assert_eq!(m.id.as_deref(), Some("m1"));
}
