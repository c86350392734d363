//! The commands and responses of the AUTHORIZATION state.
pub mod command;
pub mod response;
