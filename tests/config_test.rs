use nok::app::state_manager::CommunicationMode;
use nok::app::unified_config::UnifiedConfig;
use nok::app::user::UserStatus;
use nok::matrix::presence::{PresenceManager, PresenceState};
use nok::matrix::MatrixConfig;
use nok::migration::config::{ConfigMigrator, LegacyConfig};

fn config() -> UnifiedConfig {
    UnifiedConfig::with_user("id-1".to_string(), "alice".to_string(), "0.1.0".to_string())
}

#[test]
fn default_config_is_valid() {
    let c = config();
    assert!(c.validate().is_ok());
    assert_eq!(c.app.communication_mode, CommunicationMode::Matrix);
    assert_eq!(c.matrix.server_name, "nok.local");
    assert_eq!(c.network.connection_timeout_ms, 10000);
}

#[test]
fn validate_lists_every_problem_in_order() {
    let mut c = config();
    c.matrix.server_name.clear();
    c.user.user_id.clear();
    c.network.connection_timeout_ms = 0;
    assert_eq!(
        c.validate(),
        Err(vec![
            "Matrix server name cannot be empty".to_string(),
            "User ID cannot be empty".to_string(),
            "Connection timeout must be greater than 0".to_string(),
        ])
    );
}

#[test]
fn summary_and_version() {
    let mut c = config();
    c.app.communication_mode = CommunicationMode::Hybrid;
    c.logging.enable_debug = true;
    assert_eq!(
        c.summary(),
        "nok Configuration Summary:\n  Version: 0.1.0\n  Communication Mode: Hybrid\n  Username: alice\n  Matrix Server: http://localhost:6167\n  Legacy Server: ws://localhost:8001\n  UI Theme: default\n  Debug Enabled: true"
    );
    let c = UnifiedConfig::migrate_if_needed(c, "0.2.0".to_string());
    assert_eq!(c.app.version, "0.2.0");
    assert_eq!(c.user.username, "alice");
}

#[test]
fn matrix_settings_round_trip() {
    let mut c = config();
    let m = c.to_matrix_config();
    assert_eq!(m.store_path, "/tmp/nok_matrix_store");
    assert_eq!(m.state_store_path, m.store_path);
    let other = MatrixConfig {
        homeserver_url: "https://example.org".to_string(),
        server_name: "example.org".to_string(),
        device_name: "laptop".to_string(),
        state_store_path: "s.db".to_string(),
        store_path: "s.db".to_string(),
    };
    c.update_from_matrix_config(&other);
    assert_eq!(c.matrix.homeserver_url, "https://example.org");
    assert_eq!(c.matrix.server_name, "example.org");
    assert_eq!(c.matrix.device_name, "laptop");
    assert_eq!(c.matrix.store_path, "s.db");
    assert_eq!(other.duplicate().server_name, "example.org");
}

#[test]
fn legacy_settings_convert() {
    let migrator = ConfigMigrator::new("old.json", "new.json");
    let legacy = LegacyConfig {
        user_id: "0e06fba5".to_string(),
        username: "alice".to_string(),
        server_url: None,
        auto_connect: Some(false),
        theme: None,
    };
    let m = migrator.convert_to_matrix_config(&legacy, "@alice:nok.local");
    assert_eq!(m.matrix_user_id, "@alice:nok.local");
    assert_eq!(m.display_name, "alice");
    assert_eq!(m.theme, "default");
    assert!(!m.auto_login);
    assert_eq!(m.legacy_user_id.as_deref(), Some("0e06fba5"));
    assert_eq!(m.server_name, "nok.local");
    assert!(m.migrated_at.len() >= 20);
}

#[test]
fn presence_mapping() {
    assert_eq!(PresenceManager::presence_to_user_status(&PresenceState::Online), UserStatus::Online);
    assert_eq!(PresenceManager::presence_to_user_status(&PresenceState::Unavailable), UserStatus::Away);
    assert_eq!(PresenceManager::presence_to_user_status(&PresenceState::Offline), UserStatus::Offline);
    assert_eq!(PresenceManager::user_status_to_presence(&UserStatus::Busy), PresenceState::Unavailable);
    assert_eq!(PresenceManager::user_status_to_presence(&UserStatus::Away), PresenceState::Unavailable);
    assert_eq!(PresenceManager::user_status_to_presence(&UserStatus::Online), PresenceState::Online);
}
