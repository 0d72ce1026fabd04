//! The client's error taxonomy.
use vstd::prelude::*;
use crate::app::state_manager::Backend;
use crate::util::validation::{ValidationError, error_text};

verus! {

/// Errors of the client. Failures reported by outside libraries are carried
/// as their message.
#[derive(Debug)]
pub enum NokError {
    MatrixError(String),
    MatrixClientNotInitialized,
    MatrixSyncError(String),
    MatrixLoginFailed(String),
    ValidationError(ValidationError),
    AuthenticationFailed(String),
    NetworkError(String),
    ConnectionTimeout,
    ConnectionFailed(String),
    ConfigError(String),
    ConfigFileNotFound,
    ConfigParseError(String),
    /// A persisted mapping file that is not laid out as written.
    MappingError(String),
    DatabaseError(String),
    DataMigrationError(String),
    FileSystemError(String),
    FileNotFound(String),
    PermissionDenied(String),
    UIError(String),
    InvalidInput(String),
    InternalError(String),
    NotImplemented(String),
    /// The backend that the current mode routes to is not usable.
    BackendUnavailable(Backend),
    /// No backend is usable.
    AllBackendsUnavailable,
    /// The backend has no open session.
    NotConnected(Backend),
}

#[derive(Clone, Copy, PartialEq, Eq, Structural, Debug)]
pub enum ErrorSeverity {
    Info,
    Warning,
    Error,
    Critical,
}

impl ErrorSeverity {
    /// The label used in logs.
    pub fn label(&self) -> (r: String)
        ensures
            r@ == match *self {
                ErrorSeverity::Info => "INFO"@,
                ErrorSeverity::Warning => "WARN"@,
                ErrorSeverity::Error => "ERROR"@,
                ErrorSeverity::Critical => "CRITICAL"@,
            },
    {
        match self {
            ErrorSeverity::Info => String::from_str("INFO"),
            ErrorSeverity::Warning => String::from_str("WARN"),
            ErrorSeverity::Error => String::from_str("ERROR"),
            ErrorSeverity::Critical => String::from_str("CRITICAL"),
        }
    }
}

pub open spec fn recoverable(e: NokError) -> bool {
    match e {
        NokError::NetworkError(_) | NokError::ConnectionTimeout | NokError::ConnectionFailed(_)
        | NokError::MatrixSyncError(_) | NokError::BackendUnavailable(_)
        | NokError::AllBackendsUnavailable | NokError::NotConnected(_) => true,
        _ => false,
    }
}

pub open spec fn retryable(e: NokError) -> bool {
    match e {
        NokError::NetworkError(_) | NokError::ConnectionTimeout => true,
        _ => false,
    }
}

pub open spec fn severity_of(e: NokError) -> ErrorSeverity {
    match e {
        NokError::ValidationError(_) | NokError::InvalidInput(_) => ErrorSeverity::Warning,
        NokError::NetworkError(_) | NokError::ConnectionTimeout => ErrorSeverity::Warning,
        NokError::MatrixLoginFailed(_) | NokError::AuthenticationFailed(_) => ErrorSeverity::Error,
        NokError::InternalError(_) | NokError::DatabaseError(_) => ErrorSeverity::Critical,
        _ => ErrorSeverity::Error,
    }
}

pub open spec fn user_message_text(e: NokError) -> Seq<char> {
    match e {
        NokError::MatrixLoginFailed(_) => "ログインに失敗しました。ユーザー名とパスワードを確認してください。"@,
        NokError::NetworkError(_) | NokError::ConnectionTimeout => "ネットワーク接続に問題があります。インターネット接続を確認してください。"@,
        NokError::ValidationError(v) => error_text(v),
        NokError::ConfigFileNotFound => "設定ファイルが見つかりません。初回起動時は自動作成されます。"@,
        _ => "予期しないエラーが発生しました。"@,
    }
}

impl NokError {
    /// Network problems and unreachable backends may go away by themselves.
    pub fn is_recoverable(&self) -> (r: bool)
        ensures
            r == recoverable(*self),
    {
        match self {
            NokError::NetworkError(_) | NokError::ConnectionTimeout | NokError::ConnectionFailed(_)
            | NokError::MatrixSyncError(_) | NokError::BackendUnavailable(_)
            | NokError::AllBackendsUnavailable | NokError::NotConnected(_) => true,
            _ => false,
        }
    }

    /// Network errors and timeouts are retried automatically.
    pub fn should_retry(&self) -> (r: bool)
        ensures
            r == retryable(*self),
    {
        match self {
            NokError::NetworkError(_) | NokError::ConnectionTimeout => true,
            _ => false,
        }
    }

    pub fn severity(&self) -> (r: ErrorSeverity)
        ensures
            r == severity_of(*self),
    {
        match self {
            NokError::ValidationError(_) | NokError::InvalidInput(_) => ErrorSeverity::Warning,
            NokError::NetworkError(_) | NokError::ConnectionTimeout => ErrorSeverity::Warning,
            NokError::MatrixLoginFailed(_) | NokError::AuthenticationFailed(_) => ErrorSeverity::Error,
            NokError::InternalError(_) | NokError::DatabaseError(_) => ErrorSeverity::Critical,
            _ => ErrorSeverity::Error,
        }
    }

    /// A message for the user interface.
    pub fn user_message(&self) -> (r: String)
        ensures
            r@ == user_message_text(*self),
    {
        match self {
            NokError::MatrixLoginFailed(_) => String::from_str(
                "ログインに失敗しました。ユーザー名とパスワードを確認してください。",
            ),
            NokError::NetworkError(_) | NokError::ConnectionTimeout => String::from_str(
                "ネットワーク接続に問題があります。インターネット接続を確認してください。",
            ),
            NokError::ValidationError(e) => e.message(),
            NokError::ConfigFileNotFound => String::from_str(
                "設定ファイルが見つかりません。初回起動時は自動作成されます。",
            ),
            _ => String::from_str("予期しないエラーが発生しました。"),
        }
    }
}

} // verus!
