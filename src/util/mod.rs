//! Validation, errors and the clock.
pub mod clock;
pub mod error;
pub mod validation;
