//! The records that the decoders return.
pub mod command;
pub mod response;

pub use crate::common::StatusIndicator;
pub use crate::types::response::{Greeting, OneLine, Quit};
