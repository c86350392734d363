//! The commands and responses of the TRANSACTION state.
pub mod command;
pub mod response;
