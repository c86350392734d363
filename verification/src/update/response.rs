//! The decoder for the response of the UPDATE state.
use crate::common::{one_line_response_two_parts_parser, spec_one_line};
use crate::types::response::Quit;
use vstd::prelude::*;

verus! {

/// QUIT
///
/// Possible Responses:
///
///     +OK
///     -ERR some deleted messages not removed
pub fn quit<'a>(s: &'a [u8]) -> (r: Option<Quit<'a>>)
    ensures
        match spec_one_line(s@) {
            Some((_, status, text)) => {
                &&& r matches Some(x)
                &&& x.status_indicator == status
                &&& x.information@ == text
            },
            None => r is None,
        },
{
    match quit_parser(s) {
        Some((_, x)) => Some(x),
        None => None,
    }
}

/// Decodes the response at the head of `s`; gives what follows the line, and
/// the record.
pub fn quit_parser<'a>(s: &'a [u8]) -> (r: Option<(&'a [u8], Quit<'a>)>)
    ensures
        match spec_one_line(s@) {
            Some((n, status, text)) => {
                &&& r matches Some((rest, x))
                &&& rest@ == s@.skip(n)
                &&& x.status_indicator == status
                &&& x.information@ == text
            },
            None => r is None,
        },
{
    one_line_response_two_parts_parser::<Quit>(s)
}

} // verus!
