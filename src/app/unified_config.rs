//! The client's unified settings: application, user, both backends, interface,
//! logging and network. Reading and writing the settings file is done by the
//! application shell.
use vstd::prelude::*;
use crate::app::state_manager::CommunicationMode;
use crate::matrix::MatrixConfig;
use crate::text::push_str;

verus! {

pub struct UnifiedConfig {
    pub app: AppConfig,
    pub user: UserConfig,
    pub matrix: MatrixConfigExt,
    pub legacy: LegacyConfig,
    pub ui: UiConfig,
    pub logging: LoggingConfig,
    pub network: NetworkConfig,
}

pub struct AppConfig {
    pub version: String,
    pub communication_mode: CommunicationMode,
    pub auto_start_mode: bool,
    pub enable_sounds: bool,
    pub enable_notifications: bool,
}

pub struct UserConfig {
    pub user_id: String,
    pub username: String,
    pub display_name: Option<String>,
    pub avatar_url: Option<String>,
    pub default_status: String,
}

pub struct MatrixConfigExt {
    pub homeserver_url: String,
    pub server_name: String,
    pub device_name: String,
    pub store_path: String,
    pub auto_login: bool,
    pub enable_encryption: bool,
    pub sync_timeout_ms: u64,
    pub presence_enabled: bool,
}

pub struct LegacyConfig {
    pub server_url: String,
    pub api_endpoint: String,
    pub websocket_endpoint: String,
    pub timeout_ms: u64,
    pub reconnect_attempts: u32,
    pub enable_fallback: bool,
}

pub struct UiConfig {
    pub theme: String,
    pub default_tab: String,
    pub show_ascii_art: bool,
    pub compact_mode: bool,
    pub show_timestamps: bool,
    pub max_message_history: usize,
}

pub struct LoggingConfig {
    pub level: String,
    pub enable_debug: bool,
    pub max_log_entries: usize,
    pub log_to_file: bool,
    pub log_file_path: Option<String>,
}

pub struct NetworkConfig {
    pub connection_timeout_ms: u64,
    pub retry_attempts: u32,
    pub retry_delay_ms: u64,
    pub enable_proxy: bool,
    pub proxy_url: Option<String>,
}

/// `msg` when `bad`, nothing otherwise.
pub open spec fn problem_if(bad: bool, msg: Seq<char>) -> Seq<Seq<char>> {
    if bad {
        seq![msg]
    } else {
        Seq::empty()
    }
}

/// The problems of a configuration, in the order they are checked.
pub open spec fn config_problems(c: UnifiedConfig) -> Seq<Seq<char>> {
    problem_if(c.matrix.homeserver_url@.len() == 0, "Matrix homeserver URL cannot be empty"@)
        + problem_if(c.matrix.server_name@.len() == 0, "Matrix server name cannot be empty"@)
        + problem_if(c.user.username@.len() == 0, "Username cannot be empty"@) + problem_if(
        c.user.user_id@.len() == 0,
        "User ID cannot be empty"@,
    ) + problem_if(
        c.network.connection_timeout_ms == 0,
        "Connection timeout must be greater than 0"@,
    )
}

pub open spec fn mode_name(m: CommunicationMode) -> Seq<char> {
    match m {
        CommunicationMode::Matrix => "Matrix"@,
        CommunicationMode::Legacy => "Legacy"@,
        CommunicationMode::Hybrid => "Hybrid"@,
    }
}

pub open spec fn bool_text(b: bool) -> Seq<char> {
    if b {
        "true"@
    } else {
        "false"@
    }
}

pub open spec fn summary_text(c: UnifiedConfig) -> Seq<char> {
    "nok Configuration Summary:\n  Version: "@ + c.app.version@ + "\n  Communication Mode: "@
        + mode_name(c.app.communication_mode) + "\n  Username: "@ + c.user.username@
        + "\n  Matrix Server: "@ + c.matrix.homeserver_url@ + "\n  Legacy Server: "@
        + c.legacy.server_url@ + "\n  UI Theme: "@ + c.ui.theme@ + "\n  Debug Enabled: "@
        + bool_text(c.logging.enable_debug)
}

pub open spec fn views(v: Seq<String>) -> Seq<Seq<char>> {
    v.map_values(|s: String| s@)
}

impl AppConfig {
    /// Target-protocol mode, everything switched on, for the given version.
    pub fn new(version: String) -> (r: AppConfig)
        ensures
            r.version == version,
            r.communication_mode == CommunicationMode::Matrix,
            r.auto_start_mode && r.enable_sounds && r.enable_notifications,
    {
        AppConfig {
            version,
            communication_mode: CommunicationMode::Matrix,
            auto_start_mode: true,
            enable_sounds: true,
            enable_notifications: true,
        }
    }
}

impl UserConfig {
    /// A user with no display name or avatar, online by default.
    pub fn new(user_id: String, username: String) -> (r: UserConfig)
        ensures
            r.user_id == user_id,
            r.username == username,
            r.display_name is None,
            r.avatar_url is None,
            r.default_status@ == "online"@,
    {
        UserConfig {
            user_id,
            username,
            display_name: None,
            avatar_url: None,
            default_status: String::from_str("online"),
        }
    }
}

impl Default for MatrixConfigExt {
    fn default() -> (r: MatrixConfigExt)
        ensures
            r.homeserver_url@ == "http://localhost:6167"@,
            r.server_name@ == "nok.local"@,
            r.sync_timeout_ms == 30000,
            !r.auto_login,
    {
        MatrixConfigExt {
            homeserver_url: String::from_str("http://localhost:6167"),
            server_name: String::from_str("nok.local"),
            device_name: String::from_str("nok-client"),
            store_path: String::from_str("/tmp/nok_matrix_store"),
            auto_login: false,
            enable_encryption: true,
            sync_timeout_ms: 30000,
            presence_enabled: true,
        }
    }
}

impl Default for LegacyConfig {
    fn default() -> (r: LegacyConfig)
        ensures
            r.server_url@ == "ws://localhost:8001"@,
            r.timeout_ms == 10000,
            r.reconnect_attempts == 3,
            r.enable_fallback,
    {
        LegacyConfig {
            server_url: String::from_str("ws://localhost:8001"),
            api_endpoint: String::from_str("http://localhost:8001/api"),
            websocket_endpoint: String::from_str("ws://localhost:8001/ws"),
            timeout_ms: 10000,
            reconnect_attempts: 3,
            enable_fallback: true,
        }
    }
}

impl Default for UiConfig {
    fn default() -> (r: UiConfig)
        ensures
            r.theme@ == "default"@,
            r.default_tab@ == "rooms"@,
            r.max_message_history == 1000,
    {
        UiConfig {
            theme: String::from_str("default"),
            default_tab: String::from_str("rooms"),
            show_ascii_art: true,
            compact_mode: false,
            show_timestamps: true,
            max_message_history: 1000,
        }
    }
}

impl Default for LoggingConfig {
    fn default() -> (r: LoggingConfig)
        ensures
            r.level@ == "info"@,
            !r.enable_debug,
            r.max_log_entries == 1000,
            !r.log_to_file,
            r.log_file_path is None,
    {
        LoggingConfig {
            level: String::from_str("info"),
            enable_debug: false,
            max_log_entries: 1000,
            log_to_file: false,
            log_file_path: None,
        }
    }
}

impl Default for NetworkConfig {
    fn default() -> (r: NetworkConfig)
        ensures
            r.connection_timeout_ms == 10000,
            r.retry_attempts == 3,
            r.retry_delay_ms == 1000,
            !r.enable_proxy,
            r.proxy_url is None,
    {
        NetworkConfig {
            connection_timeout_ms: 10000,
            retry_attempts: 3,
            retry_delay_ms: 1000,
            enable_proxy: false,
            proxy_url: None,
        }
    }
}

impl UnifiedConfig {
    /// Default settings for the given user and application version.
    pub fn with_user(user_id: String, username: String, version: String) -> (r: UnifiedConfig)
        ensures
            r.user.user_id == user_id,
            r.user.username == username,
            r.app.version == version,
            r.app.communication_mode == CommunicationMode::Matrix,
            r.network.connection_timeout_ms == 10000,
            r.matrix.homeserver_url@ == "http://localhost:6167"@,
            r.matrix.server_name@ == "nok.local"@,
    {
        UnifiedConfig {
            app: AppConfig::new(version),
            user: UserConfig::new(user_id, username),
            matrix: MatrixConfigExt::default(),
            legacy: LegacyConfig::default(),
            ui: UiConfig::default(),
            logging: LoggingConfig::default(),
            network: NetworkConfig::default(),
        }
    }

    /// Brings settings read from an older file up to the running version.
    pub fn migrate_if_needed(config: UnifiedConfig, version: String) -> (r: UnifiedConfig)
        ensures
            r == (UnifiedConfig { app: AppConfig { version, ..config.app }, ..config }),
    {
        let mut config = config;
        config.app.version = version;
        config
    }

    /// The target-protocol client's settings.
    pub fn to_matrix_config(&self) -> (r: MatrixConfig)
        ensures
            r.homeserver_url == self.matrix.homeserver_url,
            r.server_name == self.matrix.server_name,
            r.device_name == self.matrix.device_name,
            r.state_store_path == self.matrix.store_path,
            r.store_path == self.matrix.store_path,
    {
        MatrixConfig {
            homeserver_url: self.matrix.homeserver_url.clone(),
            server_name: self.matrix.server_name.clone(),
            device_name: self.matrix.device_name.clone(),
            state_store_path: self.matrix.store_path.clone(),
            store_path: self.matrix.store_path.clone(),
        }
    }

    /// Takes over the target-protocol client's settings.
    pub fn update_from_matrix_config(&mut self, matrix_config: &MatrixConfig)
        ensures
            final(self).matrix.homeserver_url == matrix_config.homeserver_url,
            final(self).matrix.server_name == matrix_config.server_name,
            final(self).matrix.device_name == matrix_config.device_name,
            final(self).matrix.store_path == matrix_config.store_path,
            final(self).user == old(self).user,
            final(self).network == old(self).network,
            final(self).app == old(self).app,
    {
        self.matrix.homeserver_url = matrix_config.homeserver_url.clone();
        self.matrix.server_name = matrix_config.server_name.clone();
        self.matrix.device_name = matrix_config.device_name.clone();
        self.matrix.store_path = matrix_config.store_path.clone();
    }

    /// Every problem of the settings, or success when there is none.
    pub fn validate(&self) -> (r: Result<(), Vec<String>>)
        ensures
            r is Ok <==> config_problems(*self).len() == 0,
            r matches Err(list) ==> views(list@) == config_problems(*self),
    {
        let mut errors: Vec<String> = Vec::new();
        let ghost c = *self;
        if self.matrix.homeserver_url.as_str().is_empty() {
            errors.push(String::from_str("Matrix homeserver URL cannot be empty"));
        }
        let ghost e1 = views(errors@);
        assert(e1 =~= problem_if(c.matrix.homeserver_url@.len() == 0, "Matrix homeserver URL cannot be empty"@));
        if self.matrix.server_name.as_str().is_empty() {
            errors.push(String::from_str("Matrix server name cannot be empty"));
        }
        let ghost e2 = views(errors@);
        assert(e2 =~= e1 + problem_if(c.matrix.server_name@.len() == 0, "Matrix server name cannot be empty"@));
        if self.user.username.as_str().is_empty() {
            errors.push(String::from_str("Username cannot be empty"));
        }
        let ghost e3 = views(errors@);
        assert(e3 =~= e2 + problem_if(c.user.username@.len() == 0, "Username cannot be empty"@));
        if self.user.user_id.as_str().is_empty() {
            errors.push(String::from_str("User ID cannot be empty"));
        }
        let ghost e4 = views(errors@);
        assert(e4 =~= e3 + problem_if(c.user.user_id@.len() == 0, "User ID cannot be empty"@));
        if self.network.connection_timeout_ms == 0 {
            errors.push(String::from_str("Connection timeout must be greater than 0"));
        }
        assert(views(errors@) =~= e4 + problem_if(
            c.network.connection_timeout_ms == 0,
            "Connection timeout must be greater than 0"@,
        ));
        assert(views(errors@) =~= config_problems(c));
        if errors.len() == 0 {
            Ok(())
        } else {
            Err(errors)
        }
    }

    /// A multi-line description of the main settings.
    pub fn summary(&self) -> (r: String)
        ensures
            r@ == summary_text(*self),
    {
        let mut out = String::from_str("nok Configuration Summary:\n  Version: ");
        push_str(&mut out, self.app.version.as_str());
        push_str(&mut out, "\n  Communication Mode: ");
        push_str(&mut out, match self.app.communication_mode {
            CommunicationMode::Matrix => "Matrix",
            CommunicationMode::Legacy => "Legacy",
            CommunicationMode::Hybrid => "Hybrid",
        });
        push_str(&mut out, "\n  Username: ");
        push_str(&mut out, self.user.username.as_str());
        push_str(&mut out, "\n  Matrix Server: ");
        push_str(&mut out, self.matrix.homeserver_url.as_str());
        push_str(&mut out, "\n  Legacy Server: ");
        push_str(&mut out, self.legacy.server_url.as_str());
        push_str(&mut out, "\n  UI Theme: ");
        push_str(&mut out, self.ui.theme.as_str());
        push_str(&mut out, "\n  Debug Enabled: ");
        push_str(&mut out, if self.logging.enable_debug {
            "true"
        } else {
            "false"
        });
        assert(out@ =~= summary_text(*self));
        out
    }
}

} // verus!
