//! State of the target-protocol backend and of its login form.
use vstd::prelude::*;
use crate::matrix::MatrixConfig;
use crate::util::error::NokError;
use crate::util::validation::{LoginValidator, ValidationError, username_check, password_check};

verus! {

/// The target-protocol backend as the router sees it. The client itself is
/// held by the application shell; this records what it has reported.
pub struct MatrixState {
    /// A client has been built.
    pub client_ready: bool,
    /// The user id the client is logged in as.
    pub user_id: Option<String>,
    pub config: MatrixConfig,
    pub enabled: bool,
    pub login: LoginState,
}

/// Login form state.
pub struct LoginState {
    pub username: String,
    pub password: String,
    pub error: Option<String>,
    pub field_focus: LoginField,
    pub is_logging_in: bool,
}

#[derive(Clone, Copy, PartialEq, Eq, Structural, Debug)]
pub enum LoginField {
    Username,
    Password,
}

/// Logged in: a client exists and reported a user id.
pub open spec fn logged_in(m: MatrixState) -> bool {
    m.client_ready && m.user_id is Some
}

/// The first problem of the form: the user name's, else the password's when
/// one was typed.
pub open spec fn login_issue(username: Seq<char>, password: Seq<char>) -> Option<ValidationError> {
    match username_check(username) {
        Err(e) => Some(e),
        Ok(_) => if password.len() > 0 {
            match password_check(password) {
                Err(e) => Some(e),
                Ok(_) => None,
            }
        } else {
            None
        },
    }
}

pub open spec fn form_valid(username: Seq<char>, password: Seq<char>) -> bool {
    username_check(username) is Ok && password_check(password) is Ok
}

impl MatrixState {
    /// Disabled, with no client.
    pub fn new(config: MatrixConfig) -> (r: MatrixState)
        ensures
            !r.client_ready,
            r.user_id is None,
            r.config == config,
            !r.enabled,
            r.login.username@.len() == 0,
            r.login.password@.len() == 0,
    {
        MatrixState { client_ready: false, user_id: None, config, enabled: false, login: LoginState::new() }
    }

    pub fn enable(&mut self)
        ensures
            *final(self) == (MatrixState { enabled: true, ..*old(self) }),
    {
        self.enabled = true;
    }

    /// Disables the backend and drops its client.
    pub fn disable(&mut self)
        ensures
            *final(self) == (MatrixState { enabled: false, client_ready: false, user_id: None, ..*old(self) }),
    {
        self.enabled = false;
        self.client_ready = false;
        self.user_id = None;
    }

    pub fn is_enabled(&self) -> (r: bool)
        ensures
            r == self.enabled,
    {
        self.enabled
    }

    pub fn is_initialized(&self) -> (r: bool)
        ensures
            r == self.client_ready,
    {
        self.client_ready
    }

    pub fn is_logged_in(&self) -> (r: bool)
        ensures
            r == logged_in(*self),
    {
        self.client_ready && self.user_id.is_some()
    }

    /// Records that a client was built.
    pub fn set_client(&mut self)
        ensures
            *final(self) == (MatrixState { client_ready: true, user_id: None, ..*old(self) }),
    {
        self.client_ready = true;
        self.user_id = None;
    }

    /// Records that the client is gone.
    pub fn clear_client(&mut self)
        ensures
            !final(self).client_ready,
            final(self).user_id is None,
            final(self).enabled == old(self).enabled,
    {
        self.client_ready = false;
        self.user_id = None;
    }

    /// Whether a client may be built: only while enabled.
    pub fn initialize_client(&self) -> (r: Result<(), NokError>)
        ensures
            r is Ok <==> self.enabled,
            r matches Err(e) ==> e is InternalError,
    {
        if !self.enabled {
            return Err(NokError::InternalError(String::from_str("Matrix mode is disabled")));
        }
        Ok(())
    }

    /// Starts a login: requires the backend enabled and a client; marks the
    /// form as logging in.
    pub fn login(&mut self) -> (r: Result<(), NokError>)
        ensures
            r is Ok <==> old(self).enabled && old(self).client_ready,
            !old(self).enabled ==> r matches Err(NokError::InternalError(_)),
            old(self).enabled && !old(self).client_ready ==> r matches Err(
                NokError::MatrixClientNotInitialized,
            ),
            final(self).login.is_logging_in == (r is Ok || old(self).login.is_logging_in),
            final(self).enabled == old(self).enabled,
            final(self).client_ready == old(self).client_ready,
            final(self).user_id == old(self).user_id,
    {
        if !self.enabled {
            return Err(NokError::InternalError(String::from_str("Matrix mode is disabled")));
        }
        if !self.client_ready {
            return Err(NokError::MatrixClientNotInitialized);
        }
        self.login.set_logging_in(true);
        Ok(())
    }

    /// Ends a login with what the server answered: the user id, or the reason
    /// of the refusal. A success clears the form.
    pub fn finish_login(&mut self, outcome: Result<String, String>) -> (r: Result<(), NokError>)
        ensures
            !final(self).login.is_logging_in,
            match outcome {
                Ok(id) => r is Ok && final(self).user_id == Some(id) && final(self).login.username@.len() == 0 && final(self).login.password@.len() == 0
                    && final(self).login.error is None,
                Err(reason) => r == Err::<(), NokError>(NokError::MatrixLoginFailed(reason))
                    && final(self).user_id == old(self).user_id,
            },
            final(self).enabled == old(self).enabled,
            final(self).client_ready == old(self).client_ready,
    {
        self.login.set_logging_in(false);
        match outcome {
            Ok(id) => {
                self.user_id = Some(id);
                self.login.clear_credentials();
                self.login.clear_error();
                Ok(())
            },
            Err(reason) => Err(NokError::MatrixLoginFailed(reason)),
        }
    }

    /// Whether sync may start: only with a client.
    pub fn start_sync(&self) -> (r: Result<(), NokError>)
        ensures
            r is Ok <==> self.client_ready,
            r matches Err(e) ==> e is MatrixClientNotInitialized,
    {
        if !self.client_ready {
            return Err(NokError::MatrixClientNotInitialized);
        }
        Ok(())
    }

    /// The logged-in user id, if any.
    pub fn user_id(&self) -> (r: Option<String>)
        ensures
            r == (if self.client_ready {
                self.user_id
            } else {
                None
            }),
    {
        if !self.client_ready {
            return None;
        }
        match &self.user_id {
            Some(id) => Some(id.clone()),
            None => None,
        }
    }
}

impl LoginState {
    /// Empty form, focus on the user name.
    pub fn new() -> (r: LoginState)
        ensures
            r.username@.len() == 0,
            r.password@.len() == 0,
            r.error is None,
            r.field_focus == LoginField::Username,
            !r.is_logging_in,
    {
        LoginState {
            username: String::new(),
            password: String::new(),
            error: None,
            field_focus: LoginField::Username,
            is_logging_in: false,
        }
    }

    /// Sets the user name and clears the error.
    pub fn set_username(&mut self, username: String)
        ensures
            final(self).username == username,
            final(self).error is None,
            final(self).password == old(self).password,
            final(self).field_focus == old(self).field_focus,
            final(self).is_logging_in == old(self).is_logging_in,
    {
        self.username = username;
        self.clear_error();
    }

    /// Sets the password and clears the error.
    pub fn set_password(&mut self, password: String)
        ensures
            final(self).password == password,
            final(self).error is None,
            final(self).username == old(self).username,
            final(self).field_focus == old(self).field_focus,
            final(self).is_logging_in == old(self).is_logging_in,
    {
        self.password = password;
        self.clear_error();
    }

    pub fn clear_username(&mut self)
        ensures
            final(self).username@.len() == 0,
            final(self).password == old(self).password,
            final(self).error == old(self).error,
    {
        self.username = String::new();
    }

    pub fn clear_password(&mut self)
        ensures
            final(self).password@.len() == 0,
            final(self).username == old(self).username,
            final(self).error == old(self).error,
    {
        self.password = String::new();
    }

    pub fn clear_credentials(&mut self)
        ensures
            final(self).username@.len() == 0,
            final(self).password@.len() == 0,
            final(self).error == old(self).error,
            final(self).field_focus == old(self).field_focus,
            final(self).is_logging_in == old(self).is_logging_in,
    {
        self.username = String::new();
        self.password = String::new();
    }

    pub fn set_error(&mut self, error: String)
        ensures
            final(self).error == Some(error),
            final(self).username == old(self).username,
            final(self).password == old(self).password,
    {
        self.error = Some(error);
    }

    pub fn clear_error(&mut self)
        ensures
            final(self).error is None,
            final(self).username == old(self).username,
            final(self).password == old(self).password,
            final(self).field_focus == old(self).field_focus,
            final(self).is_logging_in == old(self).is_logging_in,
    {
        self.error = None;
    }

    pub fn set_field_focus(&mut self, field: LoginField)
        ensures
            final(self).field_focus == field,
            final(self).username == old(self).username,
            final(self).password == old(self).password,
    {
        self.field_focus = field;
    }

    /// Moves the focus to the other field.
    pub fn next_field(&mut self)
        ensures
            final(self).field_focus == (if old(self).field_focus == LoginField::Username {
                LoginField::Password
            } else {
                LoginField::Username
            }),
            final(self).username == old(self).username,
            final(self).password == old(self).password,
    {
        self.field_focus = match self.field_focus {
            LoginField::Username => LoginField::Password,
            LoginField::Password => LoginField::Username,
        };
    }

    pub fn set_logging_in(&mut self, logging_in: bool)
        ensures
            final(self).is_logging_in == logging_in,
            final(self).username == old(self).username,
            final(self).password == old(self).password,
            final(self).error == old(self).error,
            final(self).field_focus == old(self).field_focus,
    {
        self.is_logging_in = logging_in;
    }

    /// The first problem of the form, if any; an empty password is not one yet.
    pub fn validate_input(&self) -> (r: Option<ValidationError>)
        ensures
            r == login_issue(self.username@, self.password@),
    {
        match LoginValidator::validate_username(self.username.as_str()) {
            Err(e) => {
                return Some(e);
            },
            Ok(_) => {},
        }
        if !self.password.as_str().is_empty() {
            match LoginValidator::validate_password(self.password.as_str()) {
                Err(e) => {
                    return Some(e);
                },
                Ok(_) => {},
            }
        }
        None
    }

    /// Both the user name and the password pass validation.
    pub fn is_form_valid(&self) -> (r: bool)
        ensures
            r == form_valid(self.username@, self.password@),
    {
        LoginValidator::validate_login_credentials(self.username.as_str(), self.password.as_str()).is_ok()
    }

    /// The form is valid and no login is under way.
    pub fn can_submit(&self) -> (r: bool)
        ensures
            r == (form_valid(self.username@, self.password@) && !self.is_logging_in),
    {
        self.is_form_valid() && !self.is_logging_in
    }
}

} // verus!
