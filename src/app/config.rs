//! The legacy client's settings.
use vstd::prelude::*;

verus! {

/// Settings of the legacy client.
pub struct Config {
    pub user_id: String,
    pub username: String,
    pub last_server_url: Option<String>,
}

impl Config {
    /// Settings for the given user; no server used yet.
    pub fn new(user_id: String, username: String) -> (r: Config)
        ensures
            r.user_id == user_id,
            r.username == username,
            r.last_server_url is None,
    {
        Config { user_id, username, last_server_url: None }
    }

    /// Replaces the user name.
    pub fn update_username(&mut self, username: String)
        ensures
            final(self).username == username,
            final(self).user_id == old(self).user_id,
            final(self).last_server_url == old(self).last_server_url,
    {
        self.username = username;
    }
}

} // verus!
