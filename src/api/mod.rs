//! Records of the legacy server's REST interface.
pub mod client;
