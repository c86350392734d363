//! Decoders for the commands of the TRANSACTION state.
use crate::common::{bare_command, number, spec_bare_command, spec_number};
use crate::primitives::{starts_with, starts_with_no_case, tag, tag_no_case, CRLF, SP};
use crate::types::command::{Dele, List, Noop, Retr, Rset, Stat, Top, Uidl};
use vstd::prelude::*;

verus! {

/// The keyword `STAT`.
pub const STAT: [u8; 4] = ['S' as u8, 'T' as u8, 'A' as u8, 'T' as u8];

/// The keyword `LIST`.
pub const LIST: [u8; 4] = ['L' as u8, 'I' as u8, 'S' as u8, 'T' as u8];

/// The keyword `RETR` and a space.
pub const RETR: [u8; 5] = ['R' as u8, 'E' as u8, 'T' as u8, 'R' as u8, ' ' as u8];

/// The keyword `DELE` and a space.
pub const DELE: [u8; 5] = ['D' as u8, 'E' as u8, 'L' as u8, 'E' as u8, ' ' as u8];

/// The keyword `NOOP`.
pub const NOOP: [u8; 4] = ['N' as u8, 'O' as u8, 'O' as u8, 'P' as u8];

/// The keyword `RSET`.
pub const RSET: [u8; 4] = ['R' as u8, 'S' as u8, 'E' as u8, 'T' as u8];

/// The keyword `TOP` and a space.
pub const TOP: [u8; 4] = ['T' as u8, 'O' as u8, 'P' as u8, ' ' as u8];

/// The keyword `UIDL`.
pub const UIDL: [u8; 4] = ['U' as u8, 'I' as u8, 'D' as u8, 'L' as u8];

/// A command with an optional message-number: the keyword, then either the
/// CRLF at once, or a space and a number before it. Gives the count of bytes
/// that the line takes, and the number where there is one.
pub open spec fn spec_optional_number_command(keyword: Seq<u8>, s: Seq<u8>) -> Option<
    (int, Option<usize>),
> {
    if starts_with_no_case(s, keyword) {
        let after = s.skip(keyword.len() as int);
        if starts_with(after, CRLF@) {
            Some((keyword.len() as int + 2, None))
        } else if starts_with(after, SP@) {
            match spec_number(after.skip(1)) {
                Some((n, msg)) => if starts_with(after.skip(1).skip(n), CRLF@) {
                    Some((keyword.len() + 1 + n + 2, Some(msg)))
                } else {
                    None
                },
                None => None,
            }
        } else {
            None
        }
    } else {
        None
    }
}

/// A command with one number: the keyword with its space, the number, and
/// the CRLF. Gives the count of bytes that the line takes, and the number.
pub open spec fn spec_number_command(keyword: Seq<u8>, s: Seq<u8>) -> Option<(int, usize)> {
    if starts_with_no_case(s, keyword) {
        let after = s.skip(keyword.len() as int);
        match spec_number(after) {
            Some((n, msg)) => if starts_with(after.skip(n), CRLF@) {
                Some((keyword.len() + n + 2, msg))
            } else {
                None
            },
            None => None,
        }
    } else {
        None
    }
}

/// A command with two numbers: the keyword with its space, a number, a
/// space, a number, and the CRLF. Gives the count of bytes that the line
/// takes, and the two numbers in their order.
pub open spec fn spec_two_numbers_command(keyword: Seq<u8>, s: Seq<u8>) -> Option<
    (int, usize, usize),
> {
    if starts_with_no_case(s, keyword) {
        let after = s.skip(keyword.len() as int);
        match spec_number(after) {
            Some((n, first)) => if starts_with(after.skip(n), SP@) {
                match spec_number(after.skip(n).skip(1)) {
                    Some((m, second)) => if starts_with(after.skip(n).skip(1).skip(m), CRLF@) {
                        Some((keyword.len() + n + 1 + m + 2, first, second))
                    } else {
                        None
                    },
                    None => None,
                }
            } else {
                None
            },
            None => None,
        }
    } else {
        None
    }
}

/// Decodes a command with an optional message-number; gives what follows the
/// line, and the number where there is one.
fn optional_number_command<'a>(keyword: &[u8], s: &'a [u8]) -> (r: Option<
    (&'a [u8], Option<usize>),
>)
    ensures
        match spec_optional_number_command(keyword@, s@) {
            Some((n, msg)) => r matches Some((rest, m)) && m == msg && rest@ == s@.skip(n),
            None => r is None,
        },
{
    let k = keyword.len();
    let after = match tag_no_case(keyword, s) {
        Some((after, _)) => after,
        None => {
            return None;
        },
    };
    match tag(CRLF.as_slice(), after) {
        Some((rest, _)) => {
            assert(s@.skip(k as int).skip(2) =~= s@.skip(k + 2));
            Some((rest, None))
        },
        None => {
            let digits = match tag(SP.as_slice(), after) {
                Some((digits, _)) => digits,
                None => {
                    return None;
                },
            };
            let (line_end, msg) = match number(digits) {
                Some(found) => found,
                None => {
                    return None;
                },
            };
            match tag(CRLF.as_slice(), line_end) {
                Some((rest, _)) => {
                    proof {
                        let n = digits@.len() - line_end@.len();
                        assert(s@.skip(k as int).skip(1).skip(n).skip(2) =~= s@.skip(
                            k + 1 + n + 2,
                        ));
                    }
                    Some((rest, Some(msg)))
                },
                None => None,
            }
        },
    }
}

/// Decodes a command with one number; gives what follows the line, and the
/// number.
fn number_command<'a>(keyword: &[u8], s: &'a [u8]) -> (r: Option<(&'a [u8], usize)>)
    ensures
        match spec_number_command(keyword@, s@) {
            Some((n, msg)) => r matches Some((rest, m)) && m == msg && rest@ == s@.skip(n),
            None => r is None,
        },
{
    let k = keyword.len();
    let digits = match tag_no_case(keyword, s) {
        Some((digits, _)) => digits,
        None => {
            return None;
        },
    };
    let (line_end, msg) = match number(digits) {
        Some(found) => found,
        None => {
            return None;
        },
    };
    match tag(CRLF.as_slice(), line_end) {
        Some((rest, _)) => {
            proof {
                let n = digits@.len() - line_end@.len();
                assert(s@.skip(k as int).skip(n).skip(2) =~= s@.skip(k + n + 2));
            }
            Some((rest, msg))
        },
        None => None,
    }
}

/// Decodes a command with two numbers; gives what follows the line, and the
/// numbers in their order.
fn two_numbers_command<'a>(keyword: &[u8], s: &'a [u8]) -> (r: Option<(&'a [u8], usize, usize)>)
    ensures
        match spec_two_numbers_command(keyword@, s@) {
            Some((n, first, second)) => {
                &&& r matches Some((rest, a, b))
                &&& a == first
                &&& b == second
                &&& rest@ == s@.skip(n)
            },
            None => r is None,
        },
{
    let k = keyword.len();
    let digits = match tag_no_case(keyword, s) {
        Some((digits, _)) => digits,
        None => {
            return None;
        },
    };
    let (separator, first) = match number(digits) {
        Some(found) => found,
        None => {
            return None;
        },
    };
    let more_digits = match tag(SP.as_slice(), separator) {
        Some((more_digits, _)) => more_digits,
        None => {
            return None;
        },
    };
    let (line_end, second) = match number(more_digits) {
        Some(found) => found,
        None => {
            return None;
        },
    };
    match tag(CRLF.as_slice(), line_end) {
        Some((rest, _)) => {
            proof {
                let n = digits@.len() - separator@.len();
                let m = more_digits@.len() - line_end@.len();
                assert(s@.skip(k as int).skip(n).skip(1).skip(m).skip(2) =~= s@.skip(
                    k + n + 1 + m + 2,
                ));
            }
            Some((rest, first, second))
        },
        None => None,
    }
}

/// The STAT command: `STAT` and CRLF. Gives the count of bytes that the line
/// takes.
pub open spec fn spec_stat(s: Seq<u8>) -> Option<int> {
    spec_bare_command(STAT@, s)
}

/// STAT
///
/// Arguments: none
///
/// Examples:
///
///     C: STAT
pub fn stat(s: &[u8]) -> (r: Option<Stat>)
    ensures
        r is Some <==> spec_stat(s@) is Some,
{
    match stat_parser(s) {
        Some((_, x)) => Some(x),
        None => None,
    }
}

/// Decodes STAT at the head of `s`; gives what follows the line, and the
/// record.
pub fn stat_parser<'a>(s: &'a [u8]) -> (r: Option<(&'a [u8], Stat)>)
    ensures
        match spec_stat(s@) {
            Some(n) => r matches Some((rest, _)) && rest@ == s@.skip(n),
            None => r is None,
        },
{
    match bare_command(STAT.as_slice(), s) {
        Some(rest) => Some((rest, Stat)),
        None => None,
    }
}

/// The LIST command: `LIST`, then CRLF, or a space, a message-number and CRLF.
/// Gives the count of bytes that the line takes, and the message-number where
/// there is one.
pub open spec fn spec_list(s: Seq<u8>) -> Option<(int, Option<usize>)> {
    spec_optional_number_command(LIST@, s)
}

/// LIST [msg]
///
/// Arguments:
///
///     A message-number (optional)
///
/// Examples:
///
///     C: LIST
///     C: LIST 2
pub fn list(s: &[u8]) -> (r: Option<List>)
    ensures
        match spec_list(s@) {
            Some((_, msg)) => r matches Some(x) && x.msg == msg,
            None => r is None,
        },
{
    match list_parser(s) {
        Some((_, x)) => Some(x),
        None => None,
    }
}

/// Decodes LIST at the head of `s`; gives what follows the line, and the
/// record.
pub fn list_parser<'a>(s: &'a [u8]) -> (r: Option<(&'a [u8], List)>)
    ensures
        match spec_list(s@) {
            Some((n, msg)) => r matches Some((rest, x)) && x.msg == msg && rest@ == s@.skip(n),
            None => r is None,
        },
{
    match optional_number_command(LIST.as_slice(), s) {
        Some((rest, msg)) => Some((rest, List { msg })),
        None => None,
    }
}

/// The RETR command: `RETR`, a space, the message-number, CRLF. Gives the
/// count of bytes that the line takes, and the message-number.
pub open spec fn spec_retr(s: Seq<u8>) -> Option<(int, usize)> {
    spec_number_command(RETR@, s)
}

/// RETR msg
///
/// Arguments:
///
///     a message-number (required)
///
/// Examples:
///
///     C: RETR 1
pub fn retr(s: &[u8]) -> (r: Option<Retr>)
    ensures
        match spec_retr(s@) {
            Some((_, msg)) => r matches Some(x) && x.msg == msg,
            None => r is None,
        },
{
    match retr_parser(s) {
        Some((_, x)) => Some(x),
        None => None,
    }
}

/// Decodes RETR at the head of `s`; gives what follows the line, and the
/// record.
pub fn retr_parser<'a>(s: &'a [u8]) -> (r: Option<(&'a [u8], Retr)>)
    ensures
        match spec_retr(s@) {
            Some((n, msg)) => r matches Some((rest, x)) && x.msg == msg && rest@ == s@.skip(n),
            None => r is None,
        },
{
    match number_command(RETR.as_slice(), s) {
        Some((rest, msg)) => Some((rest, Retr { msg })),
        None => None,
    }
}

/// The DELE command: `DELE`, a space, the message-number, CRLF. Gives the
/// count of bytes that the line takes, and the message-number.
pub open spec fn spec_dele(s: Seq<u8>) -> Option<(int, usize)> {
    spec_number_command(DELE@, s)
}

/// DELE msg
///
/// Arguments:
///
///     a message-number (required)
///
/// Examples:
///
///     C: DELE 1
pub fn dele(s: &[u8]) -> (r: Option<Dele>)
    ensures
        match spec_dele(s@) {
            Some((_, msg)) => r matches Some(x) && x.msg == msg,
            None => r is None,
        },
{
    match dele_parser(s) {
        Some((_, x)) => Some(x),
        None => None,
    }
}

/// Decodes DELE at the head of `s`; gives what follows the line, and the
/// record.
pub fn dele_parser<'a>(s: &'a [u8]) -> (r: Option<(&'a [u8], Dele)>)
    ensures
        match spec_dele(s@) {
            Some((n, msg)) => r matches Some((rest, x)) && x.msg == msg && rest@ == s@.skip(n),
            None => r is None,
        },
{
    match number_command(DELE.as_slice(), s) {
        Some((rest, msg)) => Some((rest, Dele { msg })),
        None => None,
    }
}

/// The NOOP command: `NOOP` and CRLF. Gives the count of bytes that the line
/// takes.
pub open spec fn spec_noop(s: Seq<u8>) -> Option<int> {
    spec_bare_command(NOOP@, s)
}

/// NOOP
///
/// Arguments: none
///
/// Examples:
///
///     C: NOOP
pub fn noop(s: &[u8]) -> (r: Option<Noop>)
    ensures
        r is Some <==> spec_noop(s@) is Some,
{
    match noop_parser(s) {
        Some((_, x)) => Some(x),
        None => None,
    }
}

/// Decodes NOOP at the head of `s`; gives what follows the line, and the
/// record.
pub fn noop_parser<'a>(s: &'a [u8]) -> (r: Option<(&'a [u8], Noop)>)
    ensures
        match spec_noop(s@) {
            Some(n) => r matches Some((rest, _)) && rest@ == s@.skip(n),
            None => r is None,
        },
{
    match bare_command(NOOP.as_slice(), s) {
        Some(rest) => Some((rest, Noop)),
        None => None,
    }
}

/// The RSET command: `RSET` and CRLF. Gives the count of bytes that the line
/// takes.
pub open spec fn spec_rset(s: Seq<u8>) -> Option<int> {
    spec_bare_command(RSET@, s)
}

/// RSET
///
/// Arguments: none
///
/// Examples:
///
///     C: RSET
pub fn rset(s: &[u8]) -> (r: Option<Rset>)
    ensures
        r is Some <==> spec_rset(s@) is Some,
{
    match rset_parser(s) {
        Some((_, x)) => Some(x),
        None => None,
    }
}

/// Decodes RSET at the head of `s`; gives what follows the line, and the
/// record.
pub fn rset_parser<'a>(s: &'a [u8]) -> (r: Option<(&'a [u8], Rset)>)
    ensures
        match spec_rset(s@) {
            Some(n) => r matches Some((rest, _)) && rest@ == s@.skip(n),
            None => r is None,
        },
{
    match bare_command(RSET.as_slice(), s) {
        Some(rest) => Some((rest, Rset)),
        None => None,
    }
}

/// The TOP command: `TOP`, a space, the message-number, a space, the number
/// of lines, CRLF. Gives the count of bytes that the line takes, the
/// message-number and the number of lines.
pub open spec fn spec_top(s: Seq<u8>) -> Option<(int, usize, usize)> {
    spec_two_numbers_command(TOP@, s)
}

/// TOP msg n
///
/// Arguments:
///
///     a message-number (required)
///     a non-negative number of lines (required)
///
/// Examples:
///
///     C: TOP 20 20
pub fn top(s: &[u8]) -> (r: Option<Top>)
    ensures
        match spec_top(s@) {
            Some((_, msg, n)) => r matches Some(x) && x.msg == msg && x.n == n,
            None => r is None,
        },
{
    match top_parser(s) {
        Some((_, x)) => Some(x),
        None => None,
    }
}

/// Decodes TOP at the head of `s`; gives what follows the line, and the
/// record.
pub fn top_parser<'a>(s: &'a [u8]) -> (r: Option<(&'a [u8], Top)>)
    ensures
        match spec_top(s@) {
            Some((k, msg, n)) => {
                &&& r matches Some((rest, x))
                &&& x.msg == msg
                &&& x.n == n
                &&& rest@ == s@.skip(k)
            },
            None => r is None,
        },
{
    match two_numbers_command(TOP.as_slice(), s) {
        Some((rest, msg, n)) => Some((rest, Top { msg, n })),
        None => None,
    }
}

/// The UIDL command: `UIDL`, then CRLF, or a space, a message-number and CRLF.
/// Gives the count of bytes that the line takes, and the message-number where
/// there is one.
pub open spec fn spec_uidl(s: Seq<u8>) -> Option<(int, Option<usize>)> {
    spec_optional_number_command(UIDL@, s)
}

/// UIDL [msg]
///
/// Arguments:
///
///     A message-number (optional)
///
/// Examples:
///
///     C: UIDL
///     C: UIDL 2
pub fn uidl(s: &[u8]) -> (r: Option<Uidl>)
    ensures
        match spec_uidl(s@) {
            Some((_, msg)) => r matches Some(x) && x.msg == msg,
            None => r is None,
        },
{
    match uidl_parser(s) {
        Some((_, x)) => Some(x),
        None => None,
    }
}

/// Decodes UIDL at the head of `s`; gives what follows the line, and the
/// record.
pub fn uidl_parser<'a>(s: &'a [u8]) -> (r: Option<(&'a [u8], Uidl)>)
    ensures
        match spec_uidl(s@) {
            Some((n, msg)) => r matches Some((rest, x)) && x.msg == msg && rest@ == s@.skip(n),
            None => r is None,
        },
{
    match optional_number_command(UIDL.as_slice(), s) {
        Some((rest, msg)) => Some((rest, Uidl { msg })),
        None => None,
    }
}

} // verus!
