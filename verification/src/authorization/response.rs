//! Decoders for the responses of the AUTHORIZATION state.
use crate::common::{one_line_response_two_parts_parser, spec_one_line};
use crate::types::response::{Apop, Greeting, Pass, Quit, User};
use vstd::prelude::*;

verus! {

/// Greeting
///
/// Once the TCP connection has been opened by a POP3 client, the POP3
/// server issues a one line greeting.
pub fn greeting<'a>(s: &'a [u8]) -> (r: Option<Greeting<'a>>)
    ensures
        match spec_one_line(s@) {
            Some((_, status, text)) => {
                &&& r matches Some(x)
                &&& x.status_indicator == status
                &&& x.information@ == text
            },
            None => r is None,
        },
{
    match greeting_parser(s) {
        Some((_, x)) => Some(x),
        None => None,
    }
}

/// Decodes the response at the head of `s`; gives what follows the line, and
/// the record.
pub fn greeting_parser<'a>(s: &'a [u8]) -> (r: Option<(&'a [u8], Greeting<'a>)>)
    ensures
        match spec_one_line(s@) {
            Some((n, status, text)) => {
                &&& r matches Some((rest, x))
                &&& rest@ == s@.skip(n)
                &&& x.status_indicator == status
                &&& x.information@ == text
            },
            None => r is None,
        },
{
    one_line_response_two_parts_parser::<Greeting>(s)
}

/// QUIT
///
/// The QUIT command when used in the AUTHORIZATION state
pub fn quit<'a>(s: &'a [u8]) -> (r: Option<Quit<'a>>)
    ensures
        match spec_one_line(s@) {
            Some((_, status, text)) => {
                &&& r matches Some(x)
                &&& x.status_indicator == status
                &&& x.information@ == text
            },
            None => r is None,
        },
{
    match quit_parser(s) {
        Some((_, x)) => Some(x),
        None => None,
    }
}

/// Decodes the response at the head of `s`; gives what follows the line, and
/// the record.
pub fn quit_parser<'a>(s: &'a [u8]) -> (r: Option<(&'a [u8], Quit<'a>)>)
    ensures
        match spec_one_line(s@) {
            Some((n, status, text)) => {
                &&& r matches Some((rest, x))
                &&& rest@ == s@.skip(n)
                &&& x.status_indicator == status
                &&& x.information@ == text
            },
            None => r is None,
        },
{
    one_line_response_two_parts_parser::<Quit>(s)
}

/// USER name
///
/// Possible Responses:
///
///     +OK name is a valid mailbox
///     -ERR never heard of mailbox name
pub fn user<'a>(s: &'a [u8]) -> (r: Option<User<'a>>)
    ensures
        match spec_one_line(s@) {
            Some((_, status, text)) => {
                &&& r matches Some(x)
                &&& x.status_indicator == status
                &&& x.information@ == text
            },
            None => r is None,
        },
{
    match user_parser(s) {
        Some((_, x)) => Some(x),
        None => None,
    }
}

/// Decodes the response at the head of `s`; gives what follows the line, and
/// the record.
pub fn user_parser<'a>(s: &'a [u8]) -> (r: Option<(&'a [u8], User<'a>)>)
    ensures
        match spec_one_line(s@) {
            Some((n, status, text)) => {
                &&& r matches Some((rest, x))
                &&& rest@ == s@.skip(n)
                &&& x.status_indicator == status
                &&& x.information@ == text
            },
            None => r is None,
        },
{
    one_line_response_two_parts_parser::<User>(s)
}

/// PASS string
///
/// Possible Responses:
///
///     +OK maildrop locked and ready
///     -ERR invalid password
///     -ERR unable to lock maildrop
pub fn pass<'a>(s: &'a [u8]) -> (r: Option<Pass<'a>>)
    ensures
        match spec_one_line(s@) {
            Some((_, status, text)) => {
                &&& r matches Some(x)
                &&& x.status_indicator == status
                &&& x.information@ == text
            },
            None => r is None,
        },
{
    match pass_parser(s) {
        Some((_, x)) => Some(x),
        None => None,
    }
}

/// Decodes the response at the head of `s`; gives what follows the line, and
/// the record.
pub fn pass_parser<'a>(s: &'a [u8]) -> (r: Option<(&'a [u8], Pass<'a>)>)
    ensures
        match spec_one_line(s@) {
            Some((n, status, text)) => {
                &&& r matches Some((rest, x))
                &&& rest@ == s@.skip(n)
                &&& x.status_indicator == status
                &&& x.information@ == text
            },
            None => r is None,
        },
{
    one_line_response_two_parts_parser::<Pass>(s)
}

/// APOP name digest
///
/// Possible Responses:
///
///     +OK maildrop locked and ready
///     -ERR permission denied
pub fn apop<'a>(s: &'a [u8]) -> (r: Option<Apop<'a>>)
    ensures
        match spec_one_line(s@) {
            Some((_, status, text)) => {
                &&& r matches Some(x)
                &&& x.status_indicator == status
                &&& x.information@ == text
            },
            None => r is None,
        },
{
    match apop_parser(s) {
        Some((_, x)) => Some(x),
        None => None,
    }
}

/// Decodes the response at the head of `s`; gives what follows the line, and
/// the record.
pub fn apop_parser<'a>(s: &'a [u8]) -> (r: Option<(&'a [u8], Apop<'a>)>)
    ensures
        match spec_one_line(s@) {
            Some((n, status, text)) => {
                &&& r matches Some((rest, x))
                &&& rest@ == s@.skip(n)
                &&& x.status_indicator == status
                &&& x.information@ == text
            },
            None => r is None,
        },
{
    one_line_response_two_parts_parser::<Apop>(s)
}

} // verus!
