//! Application state: users, rooms, messages and the communication router.
pub mod config;
pub mod state;
pub mod legacy_state;
pub mod matrix_state;
pub mod message;
pub mod room;
pub mod state_manager;
pub mod unified_config;
pub mod user;
