//! The decoder for the command of the UPDATE state.
use crate::common::{bare_command, spec_bare_command};
use crate::types::command::Quit;
use vstd::prelude::*;

verus! {

/// The keyword `QUIT`.
pub const QUIT: [u8; 4] = ['Q' as u8, 'U' as u8, 'I' as u8, 'T' as u8];

/// The QUIT command: `QUIT`, in either case of its letters, and CRLF. Gives
/// the count of bytes that the line takes.
pub open spec fn spec_quit(s: Seq<u8>) -> Option<int> {
    spec_bare_command(QUIT@, s)
}

/// QUIT
///
/// Arguments: none
///
/// Examples:
///
///     C: QUIT
pub fn quit(s: &[u8]) -> (r: Option<Quit>)
    ensures
        r is Some <==> spec_quit(s@) is Some,
{
    match quit_parser(s) {
        Some((_, x)) => Some(x),
        None => None,
    }
}

/// Decodes QUIT at the head of `s`; gives what follows the line, and the
/// record.
pub fn quit_parser<'a>(s: &'a [u8]) -> (r: Option<(&'a [u8], Quit)>)
    ensures
        match spec_quit(s@) {
            Some(n) => r matches Some((rest, _)) && rest@ == s@.skip(n),
            None => r is None,
        },
{
    match bare_command(QUIT.as_slice(), s) {
        Some(rest) => Some((rest, Quit)),
        None => None,
    }
}

} // verus!
