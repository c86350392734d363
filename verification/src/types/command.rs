//! One record per client command.
use vstd::prelude::*;

verus! {

/// The STAT command.
#[derive(Debug, PartialEq)]
pub struct Stat;

/// The LIST \[*msg*\] command.
#[derive(Debug, PartialEq)]
pub struct List {
    /// A message-number (optional)
    pub msg: Option<usize>,
}

/// The RETR *msg* command.
#[derive(Debug, PartialEq)]
pub struct Retr {
    /// A message-number (required)
    pub msg: usize,
}

/// The DELE *msg* command.
#[derive(Debug, PartialEq)]
pub struct Dele {
    /// A message-number (required)
    pub msg: usize,
}

/// The NOOP command.
#[derive(Debug, PartialEq)]
pub struct Noop;

/// The RSET command.
#[derive(Debug, PartialEq)]
pub struct Rset;

/// The QUIT command.
#[derive(Debug, PartialEq)]
pub struct Quit;

/// The TOP *msg* *n* command.
#[derive(Debug, PartialEq)]
pub struct Top {
    /// A message-number (required)
    pub msg: usize,
    /// A non-negative number of lines (required)
    pub n: usize,
}

/// The UIDL \[*msg*\] command.
#[derive(Debug, PartialEq)]
pub struct Uidl {
    /// A message-number (optional)
    pub msg: Option<usize>,
}

/// The USER *name* command.
#[derive(Debug, PartialEq)]
pub struct User<'a> {
    /// A string identifying a mailbox (required)
    pub name: &'a [u8],
}

/// The PASS *string* command.
#[derive(Debug, PartialEq)]
pub struct Pass<'a> {
    /// A server/mailbox-specific password (required)
    pub string: &'a [u8],
}

/// The APOP *name* *digest* command.
#[derive(Debug, PartialEq)]
pub struct Apop<'a> {
    /// A string identifying a mailbox (required)
    pub name: &'a [u8],
    /// A MD5 digest string (required)
    pub digest: &'a [u8],
}

} // verus!
