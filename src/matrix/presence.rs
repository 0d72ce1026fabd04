//! Presence on the target protocol and the client's user status.
use vstd::prelude::*;
use crate::app::user::UserStatus;

verus! {

/// Presence states of the target protocol.
#[derive(Clone, Copy, PartialEq, Eq, Structural, Debug)]
pub enum PresenceState {
    Online,
    Offline,
    Unavailable,
}

pub open spec fn status_of_presence(p: PresenceState) -> UserStatus {
    match p {
        PresenceState::Online => UserStatus::Online,
        PresenceState::Offline => UserStatus::Offline,
        PresenceState::Unavailable => UserStatus::Away,
    }
}

pub open spec fn presence_of_status(s: UserStatus) -> PresenceState {
    match s {
        UserStatus::Online => PresenceState::Online,
        UserStatus::Away => PresenceState::Unavailable,
        UserStatus::Busy => PresenceState::Unavailable,
        UserStatus::Offline => PresenceState::Offline,
    }
}

/// Translation between presence states and user statuses.
pub struct PresenceManager;

impl PresenceManager {
    /// Online and offline keep their meaning; unavailable shows as away.
    pub fn presence_to_user_status(presence: &PresenceState) -> (r: UserStatus)
        ensures
            r == status_of_presence(*presence),
    {
        match presence {
            PresenceState::Online => UserStatus::Online,
            PresenceState::Offline => UserStatus::Offline,
            PresenceState::Unavailable => UserStatus::Away,
        }
    }

    /// Away and busy are both published as unavailable.
    pub fn user_status_to_presence(status: &UserStatus) -> (r: PresenceState)
        ensures
            r == presence_of_status(*status),
    {
        match status {
            UserStatus::Online => PresenceState::Online,
            UserStatus::Away => PresenceState::Unavailable,
            UserStatus::Busy => PresenceState::Unavailable,
            UserStatus::Offline => PresenceState::Offline,
        }
    }
}

/// Publishing a status and reading it back keeps online and offline, and
/// turns busy into away.
pub proof fn lemma_presence_round_trip(s: UserStatus)
    ensures
        status_of_presence(presence_of_status(s)) == (if s == UserStatus::Busy {
            UserStatus::Away
        } else {
            s
        }),
{
}

} // verus!
