//! State of the legacy backend.
use vstd::prelude::*;
use crate::app::state::ConnectionStatus;
use crate::util::error::NokError;

verus! {

/// The legacy backend as the router sees it. Its socket and REST clients are
/// held by the application shell.
pub struct LegacyState {
    pub connection_status: ConnectionStatus,
    pub enabled: bool,
}

/// Connected and enabled.
pub open spec fn legacy_ready(l: LegacyState) -> bool {
    l.enabled && l.connection_status is Connected
}

impl LegacyState {
    /// Enabled and disconnected.
    pub fn new() -> (r: LegacyState)
        ensures
            r.connection_status is Disconnected,
            r.enabled,
    {
        LegacyState { connection_status: ConnectionStatus::Disconnected, enabled: true }
    }

    pub fn enable(&mut self)
        ensures
            *final(self) == (LegacyState { enabled: true, ..*old(self) }),
    {
        self.enabled = true;
    }

    pub fn disable(&mut self)
        ensures
            *final(self) == (LegacyState { enabled: false, ..*old(self) }),
    {
        self.enabled = false;
    }

    pub fn is_enabled(&self) -> (r: bool)
        ensures
            r == self.enabled,
    {
        self.enabled
    }

    pub fn is_connected(&self) -> (r: bool)
        ensures
            r == (self.connection_status is Connected),
    {
        self.connection_status.is_connected()
    }

    pub fn set_connected(&mut self)
        ensures
            *final(self) == (LegacyState { connection_status: ConnectionStatus::Connected, ..*old(self) }),
    {
        self.connection_status = ConnectionStatus::Connected;
    }

    pub fn set_connecting(&mut self)
        ensures
            final(self).connection_status is Connecting,
            final(self).enabled == old(self).enabled,
    {
        self.connection_status = ConnectionStatus::Connecting;
    }

    pub fn set_disconnected(&mut self)
        ensures
            final(self).connection_status is Disconnected,
            final(self).enabled == old(self).enabled,
    {
        self.connection_status = ConnectionStatus::Disconnected;
    }

    pub fn set_error(&mut self, error: String)
        ensures
            *final(self) == (LegacyState { connection_status: ConnectionStatus::Error(error), ..*old(self) }),
    {
        self.connection_status = ConnectionStatus::Error(error);
    }

    /// Ends a connection attempt with the transport's outcome: refused while
    /// disabled (status unchanged); otherwise `Connected` on success and
    /// `Error(reason)` on failure.
    pub fn connect(&mut self, outcome: Result<(), String>) -> (r: Result<(), NokError>)
        ensures
            !old(self).enabled ==> (r matches Err(NokError::InternalError(_))
                && final(self).connection_status == old(self).connection_status),
            old(self).enabled && outcome is Ok ==> r is Ok && final(self).connection_status is Connected,
            old(self).enabled && outcome is Err ==> r == Err::<(), NokError>(
                NokError::ConnectionFailed(outcome->Err_0),
            ) && final(self).connection_status == ConnectionStatus::Error(outcome->Err_0),
            final(self).enabled == old(self).enabled,
    {
        if !self.enabled {
            return Err(NokError::InternalError(String::from_str("Legacy mode is disabled")));
        }
        match outcome {
            Ok(()) => {
                self.set_connected();
                Ok(())
            },
            Err(reason) => {
                self.set_error(reason.clone());
                Err(NokError::ConnectionFailed(reason))
            },
        }
    }

    /// Disconnected, whatever the status was.
    pub fn disconnect(&mut self)
        ensures
            final(self).connection_status is Disconnected,
            final(self).enabled == old(self).enabled,
    {
        self.set_disconnected();
    }

    /// Whether a knock may be sent: only when enabled and connected.
    pub fn send_knock(&self, target_user_id: &str) -> (r: Result<(), NokError>)
        ensures
            r is Ok <==> legacy_ready(*self),
            r matches Err(e) ==> e is ConnectionFailed,
    {
        if !self.enabled || !self.is_connected() {
            return Err(NokError::ConnectionFailed(String::from_str("Not connected to legacy server")));
        }
        Ok(())
    }

    pub fn get_connection_status(&self) -> (r: &ConnectionStatus)
        ensures
            *r == self.connection_status,
    {
        &self.connection_status
    }
}

/// Checks around moving data from the legacy system.
pub struct LegacyToMatrixMigration;

impl LegacyToMatrixMigration {
    /// Whether legacy data is waiting to be moved. The legacy store is read
    /// only by the migration command, so the client never asks for it.
    pub fn needs_migration() -> (r: bool)
        ensures
            !r,
    {
        false
    }
}

} // verus!
