//! The command and response of the UPDATE state.
pub mod command;
pub mod response;
