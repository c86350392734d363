//! Decoders for the commands and responses of the Post Office Protocol,
//! version 3 (RFC 1939).
//!
//! Every decoder is a pure function from a fully buffered byte span to a typed
//! record, or to `None` where the bytes do not match the grammar. Nothing is
//! read from a connection and nothing waits for more bytes: a line without
//! its CRLF, or a multi-line response without the line that holds a dot
//! alone, is no match. The records borrow their byte fields from the input.
//!
//! The commands and responses are sorted by the state of the session in which
//! they occur:
//!
//! ```text
//! AUTHORIZATION   USER name, PASS string, APOP name digest, QUIT
//! TRANSACTION     STAT, LIST [msg], RETR msg, DELE msg, NOOP, RSET,
//!                 TOP msg n, UIDL [msg]
//! UPDATE          QUIT
//! ```
//!
//! A command is decoded by the function of its name under `command`, a
//! response by the function of that name under `response`:
//!
//! ```text
//! transaction::command::top(b"TOP 1 10\r\n")
//!     == Some(Top { msg: 1, n: 10 })
//! transaction::response::stat(b"+OK 2 320\r\n")
//!     == Some(Stat { status_indicator: OK, number_of_messages: 2,
//!                    size_in_octets: 320, information: b"" })
//! ```
//!
//! Each decoder states what it returns over a grammar that is written as a
//! function on byte sequences, next to it. What holds of all of them is
//! stated and proved in [`laws`]. The four leaf parsers are those of `nom`;
//! [`primitives`] says what is taken for granted of them.
pub mod authorization;
pub mod transaction;
pub mod update;

pub mod common;
pub mod laws;
pub mod primitives;
pub mod types;
