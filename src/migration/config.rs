//! Moving the legacy client's settings to the target-protocol client.
use vstd::prelude::*;
use crate::util::clock::{unix_now_secs, utc_rfc3339};

verus! {

/// Settings of the legacy client.
pub struct LegacyConfig {
    pub user_id: String,
    pub username: String,
    pub server_url: Option<String>,
    pub auto_connect: Option<bool>,
    pub theme: Option<String>,
}

/// Settings of the target-protocol client after migration.
pub struct MatrixConfig {
    /// User id, `@localpart:domain`.
    pub matrix_user_id: String,
    pub display_name: String,
    pub homeserver_url: String,
    /// The domain part of user ids.
    pub server_name: String,
    pub state_store_path: String,
    pub auto_login: bool,
    /// Kept from the legacy settings.
    pub theme: String,
    /// The legacy user id, for reference.
    pub legacy_user_id: Option<String>,
    /// When the settings were migrated (RFC 3339).
    pub migrated_at: String,
}

impl Default for MatrixConfig {
    /// Local server defaults, stamped with the current time.
    fn default() -> (r: MatrixConfig)
        ensures
            r.matrix_user_id@.len() == 0,
            r.display_name@.len() == 0,
            r.homeserver_url@ == "http://nok.local:6167"@,
            r.server_name@ == "nok.local"@,
            r.state_store_path@ == "matrix_state.db"@,
            r.auto_login,
            r.theme@ == "default"@,
            r.legacy_user_id is None,
    {
        MatrixConfig {
            matrix_user_id: String::new(),
            display_name: String::new(),
            homeserver_url: String::from_str("http://nok.local:6167"),
            server_name: String::from_str("nok.local"),
            state_store_path: String::from_str("matrix_state.db"),
            auto_login: true,
            theme: String::from_str("default"),
            legacy_user_id: None,
            migrated_at: utc_rfc3339(unix_now_secs()),
        }
    }
}

/// Converts settings between the two clients; the files are read and written
/// by the application shell.
pub struct ConfigMigrator {
    pub legacy_config_path: String,
    pub new_config_path: String,
}

impl ConfigMigrator {
    pub fn new(legacy_config_path: &str, new_config_path: &str) -> (r: ConfigMigrator)
        ensures
            r.legacy_config_path@ == legacy_config_path@,
            r.new_config_path@ == new_config_path@,
    {
        ConfigMigrator {
            legacy_config_path: legacy_config_path.to_owned(),
            new_config_path: new_config_path.to_owned(),
        }
    }

    /// The target-protocol settings for a legacy user: the legacy name as
    /// display name, the legacy theme and auto-connect choice (default theme and
    /// auto-login when unset), and the legacy id kept for reference.
    pub fn convert_to_matrix_config(&self, legacy_config: &LegacyConfig, matrix_user_id: &str) -> (r:
        MatrixConfig)
        ensures
            r.matrix_user_id@ == matrix_user_id@,
            r.display_name == legacy_config.username,
            r.theme@ == match legacy_config.theme {
                Some(t) => t@,
                None => "default"@,
            },
            r.auto_login == match legacy_config.auto_connect {
                Some(b) => b,
                None => true,
            },
            r.legacy_user_id == Some(legacy_config.user_id),
            r.homeserver_url@ == "http://nok.local:6167"@,
            r.server_name@ == "nok.local"@,
    {
        let mut matrix_config = MatrixConfig::default();
        matrix_config.matrix_user_id = matrix_user_id.to_owned();
        matrix_config.display_name = legacy_config.username.clone();
        matrix_config.theme = match &legacy_config.theme {
            Some(t) => t.clone(),
            None => String::from_str("default"),
        };
        matrix_config.auto_login = match legacy_config.auto_connect {
            Some(b) => b,
            None => true,
        };
        matrix_config.legacy_user_id = Some(legacy_config.user_id.clone());
        matrix_config
    }
}

} // verus!
