//! Settings of the target-protocol client.
pub mod presence;

use vstd::prelude::*;

verus! {

/// Connection settings for the target-protocol client.
#[derive(Debug)]
pub struct MatrixConfig {
    /// Homeserver URL, such as `http://localhost:8008`.
    pub homeserver_url: String,
    /// Server name, the domain part of user ids.
    pub server_name: String,
    pub device_name: String,
    /// Where the client keeps its state.
    pub state_store_path: String,
    /// Same as `state_store_path`.
    pub store_path: String,
}

impl MatrixConfig {
    /// A copy of the settings.
    pub fn duplicate(&self) -> (r: MatrixConfig)
        ensures
            r == *self,
    {
        MatrixConfig {
            homeserver_url: self.homeserver_url.clone(),
            server_name: self.server_name.clone(),
            device_name: self.device_name.clone(),
            state_store_path: self.state_store_path.clone(),
            store_path: self.store_path.clone(),
        }
    }
}

} // verus!
