//! Identity mapping, login validation, dual-backend routing and migration
//! planning for a terminal chat client moving from a legacy protocol to a
//! federated one.
pub mod api;
pub mod app;
pub mod matrix;
pub mod migration;
pub mod text;
pub mod ui;
pub mod util;
