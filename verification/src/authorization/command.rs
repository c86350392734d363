//! Decoders for the commands of the AUTHORIZATION state.
use crate::common::{spec_line, spec_until, take_until_crlf_consume_crlf, take_until_sp};
use crate::primitives::{lemma_first_occurrence_is_first, starts_with_no_case, tag, tag_no_case, SP};
use crate::types::command::{Apop, Pass, User};
use vstd::prelude::*;

verus! {

/// The keyword `USER` and a space.
pub const USER: [u8; 5] = ['U' as u8, 'S' as u8, 'E' as u8, 'R' as u8, ' ' as u8];

/// The keyword `PASS` and a space.
pub const PASS: [u8; 5] = ['P' as u8, 'A' as u8, 'S' as u8, 'S' as u8, ' ' as u8];

/// The keyword `APOP` and a space.
pub const APOP: [u8; 5] = ['A' as u8, 'P' as u8, 'O' as u8, 'P' as u8, ' ' as u8];

/// A command with one argument: the keyword with its space, in either case
/// of its letters, then the argument, which is the rest of the line, spaces
/// and all. Gives the count of bytes that the line takes with its CRLF, and
/// the argument.
pub open spec fn spec_argument_command(keyword: Seq<u8>, s: Seq<u8>) -> Option<(int, Seq<u8>)> {
    if starts_with_no_case(s, keyword) {
        match spec_line(s.skip(keyword.len() as int)) {
            Some((n, argument)) => Some((keyword.len() + n, argument)),
            None => None,
        }
    } else {
        None
    }
}

/// The USER command: `USER`, a space, the name of the mailbox, CRLF.
pub open spec fn spec_user(s: Seq<u8>) -> Option<(int, Seq<u8>)> {
    spec_argument_command(USER@, s)
}

/// The PASS command: `PASS`, a space, the password, CRLF. The password is
/// all of the line behind that space: it may hold spaces.
pub open spec fn spec_pass(s: Seq<u8>) -> Option<(int, Seq<u8>)> {
    spec_argument_command(PASS@, s)
}

/// The APOP command: `APOP`, a space, the name of the mailbox, a space, the
/// digest, CRLF. The name ends at the first space of the line, and the digest
/// is the rest of the line. Gives the count of bytes that the line takes with
/// its CRLF, the name and the digest.
pub open spec fn spec_apop(s: Seq<u8>) -> Option<(int, Seq<u8>, Seq<u8>)> {
    match spec_argument_command(APOP@, s) {
        Some((n, arguments)) => match spec_until(arguments, SP@) {
            Some((i, name)) => Some((n, name, arguments.skip(i + 1))),
            None => None,
        },
        None => None,
    }
}

/// Decodes a command with one argument; gives what follows the line, and the
/// argument.
fn argument_command<'a>(keyword: &[u8], s: &'a [u8]) -> (r: Option<(&'a [u8], &'a [u8])>)
    ensures
        match spec_argument_command(keyword@, s@) {
            Some((n, argument)) => r matches Some((rest, a)) && a@ == argument && rest@ == s@.skip(
                n,
            ),
            None => r is None,
        },
{
    let after = match tag_no_case(keyword, s) {
        Some((after, _)) => after,
        None => {
            return None;
        },
    };
    match take_until_crlf_consume_crlf(after) {
        Some((rest, argument)) => {
            proof {
                let k = keyword@.len() as int;
                let n = after@.len() - rest@.len();
                lemma_first_occurrence_is_first(after@, crate::primitives::CRLF@);
                assert(s@.skip(k).skip(n) =~= s@.skip(k + n));
            }
            Some((rest, argument))
        },
        None => None,
    }
}

/// USER *name*
///
/// **Arguments**
///
/// A string identifying a mailbox (required)
///
/// **Examples**
///
///     C: USER frated
pub fn user<'a>(s: &'a [u8]) -> (r: Option<User<'a>>)
    ensures
        match spec_user(s@) {
            Some((_, name)) => r matches Some(x) && x.name@ == name,
            None => r is None,
        },
{
    match user_parser(s) {
        Some((_, x)) => Some(x),
        None => None,
    }
}

/// Decodes USER at the head of `s`; gives what follows the line, and the
/// record.
pub fn user_parser<'a>(s: &'a [u8]) -> (r: Option<(&'a [u8], User<'a>)>)
    ensures
        match spec_user(s@) {
            Some((n, name)) => r matches Some((rest, x)) && x.name@ == name && rest@ == s@.skip(n),
            None => r is None,
        },
{
    match argument_command(USER.as_slice(), s) {
        Some((rest, name)) => Some((rest, User { name })),
        None => None,
    }
}

/// PASS *string*
///
/// **Arguments**
///
/// a server/mailbox-specific password (required)
///
/// **Examples**
///
///     C: PASS secret
pub fn pass<'a>(s: &'a [u8]) -> (r: Option<Pass<'a>>)
    ensures
        match spec_pass(s@) {
            Some((_, string)) => r matches Some(x) && x.string@ == string,
            None => r is None,
        },
{
    match pass_parser(s) {
        Some((_, x)) => Some(x),
        None => None,
    }
}

/// Decodes PASS at the head of `s`; gives what follows the line, and the
/// record.
pub fn pass_parser<'a>(s: &'a [u8]) -> (r: Option<(&'a [u8], Pass<'a>)>)
    ensures
        match spec_pass(s@) {
            Some((n, string)) => r matches Some((rest, x)) && x.string@ == string && rest@
                == s@.skip(n),
            None => r is None,
        },
{
    match argument_command(PASS.as_slice(), s) {
        Some((rest, string)) => Some((rest, Pass { string })),
        None => None,
    }
}

/// APOP *name* *digest*
///
/// **Arguments**
///
/// a string identifying a mailbox and a MD5 digest string
/// (both required)
///
/// **Examples**
///
///     C: APOP mrose c4c9334bac560ecc979e58001b3e22fb
pub fn apop<'a>(s: &'a [u8]) -> (r: Option<Apop<'a>>)
    ensures
        match spec_apop(s@) {
            Some((_, name, digest)) => r matches Some(x) && x.name@ == name && x.digest@ == digest,
            None => r is None,
        },
{
    match apop_parser(s) {
        Some((_, x)) => Some(x),
        None => None,
    }
}

/// Decodes APOP at the head of `s`; gives what follows the line, and the
/// record.
pub fn apop_parser<'a>(s: &'a [u8]) -> (r: Option<(&'a [u8], Apop<'a>)>)
    ensures
        match spec_apop(s@) {
            Some((n, name, digest)) => {
                &&& r matches Some((rest, x))
                &&& x.name@ == name
                &&& x.digest@ == digest
                &&& rest@ == s@.skip(n)
            },
            None => r is None,
        },
{
    let (rest, arguments) = match argument_command(APOP.as_slice(), s) {
        Some(found) => found,
        None => {
            return None;
        },
    };
    let (from_space, name) = match take_until_sp(arguments) {
        Some(found) => found,
        None => {
            return None;
        },
    };
    match tag(SP.as_slice(), from_space) {
        Some((digest, _)) => {
            proof {
                let i = name@.len() as int;
                lemma_first_occurrence_is_first(arguments@, SP@);
                assert(arguments@.skip(i).skip(1) =~= arguments@.skip(i + 1));
            }
            Some((rest, Apop { name, digest }))
        },
        None => {
            proof {
                let i = name@.len() as int;
                lemma_first_occurrence_is_first(arguments@, SP@);
                assert(from_space@.take(1) =~= arguments@.subrange(i, i + 1));
            }
            None
        },
    }
}

} // verus!
