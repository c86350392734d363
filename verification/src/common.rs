//! Decoders shared by the verbs: the lenient decimal parser, the line
//! extractors, the one-line response and the response with a message body.
use crate::primitives::{
    all_digits, decimal_value, digit1, digit_run, first_occurrence, is_digit,
    lemma_decimal_value_prefix, lemma_digit_run, lemma_first_occurrence_at,
    lemma_first_occurrence_none, starts_with, starts_with_no_case, tag, tag_no_case, take_until,
    CRLF, END_OF_MULTI_LINE, NEGATIVE, POSITIVE, SP,
};
use crate::types::response::{HaveMessageBody, OneLine};
use vstd::prelude::*;

verus! {

/// The leading marker of every server response: `+OK` or `-ERR`.
#[derive(Debug, Clone, Copy, PartialEq, Eq)]
pub enum StatusIndicator {
    OK,
    ERR,
}

/// The sign that may stand before the digits of a number.
pub const PLUS: u8 = '+' as u8;

/// What `parse_u8_slice_to_usize_or_0` makes of `s`: the number that `s`
/// writes in decimal digits, with or without a `+` before them, where there
/// is at least one digit and the number fits a `usize`; 0 for everything else.
pub open spec fn usize_or_0(s: Seq<u8>) -> usize {
    let digits = if s.len() > 0 && s[0] == PLUS {
        s.skip(1)
    } else {
        s
    };
    if digits.len() > 0 && all_digits(digits) && decimal_value(digits) <= usize::MAX {
        decimal_value(digits) as usize
    } else {
        0
    }
}

/// The lenient decimal parser: a failure to convert gives 0, never an error.
pub fn parse_u8_slice_to_usize_or_0(s: &[u8]) -> (n: usize)
    ensures
        n == usize_or_0(s@),
{
    let start: usize = if s.len() > 0 && s[0] == PLUS {
        1
    } else {
        0
    };
    let ghost digits = s@.skip(start as int);
    assert(s@.skip(0) =~= s@);
    if start == s.len() {
        return 0;
    }
    let mut value: usize = 0;
    let mut i: usize = start;
    while i < s.len()
        invariant
            start <= i <= s.len(),
            digits == s@.skip(start as int),
            digits.len() > 0,
            usize_or_0(s@) == if all_digits(digits) && decimal_value(digits) <= usize::MAX {
                decimal_value(digits) as usize
            } else {
                0
            },
            all_digits(digits.take(i - start)),
            value == decimal_value(digits.take(i - start)),
        decreases s.len() - i,
    {
        let b = s[i];
        if b < 0x30 || b > 0x39 {
            assert(!is_digit(digits[i - start]));
            return 0;
        }
        let ghost next = digits.take(i - start + 1);
        assert(next.drop_last() =~= digits.take(i - start));
        assert(next.last() == b);
        assert(all_digits(next)) by {
            assert forall|j: int| 0 <= j < next.len() implies is_digit(next[j]) by {
                if j < i - start {
                    assert(next[j] == digits.take(i - start)[j]);
                }
            }
        }
        proof {
            if all_digits(digits) {
                lemma_decimal_value_prefix(digits, i - start + 1);
            }
        }
        let shifted = match value.checked_mul(10) {
            Some(v) => v,
            None => {
                return 0;
            },
        };
        let sum = match shifted.checked_add((b - 0x30) as usize) {
            Some(v) => v,
            None => {
                return 0;
            },
        };
        value = sum;
        i = i + 1;
    }
    assert(digits.take(i - start) =~= digits);
    value
}

/// A number at the head of `s`: its leading digits, at least one, read
/// leniently. Gives the count of bytes that the digits take, and the number.
pub open spec fn spec_number(s: Seq<u8>) -> Option<(int, usize)> {
    let n = digit_run(s) as int;
    if n > 0 {
        Some((n, usize_or_0(s.take(n))))
    } else {
        None
    }
}

/// Reads the number at the head of `s`; gives what follows it, and the number.
pub fn number<'a>(s: &'a [u8]) -> (r: Option<(&'a [u8], usize)>)
    ensures
        match spec_number(s@) {
            Some((n, value)) => {
                &&& r matches Some((rest, v))
                &&& v == value
                &&& rest@ == s@.skip(n)
                &&& 0 < n <= s@.len()
            },
            None => r is None,
        },
{
    proof {
        lemma_digit_run(s@);
    }
    match digit1(s) {
        Some((rest, digits)) => Some((rest, parse_u8_slice_to_usize_or_0(digits))),
        None => None,
    }
}

/// What stands in `s` before the first occurrence of `pat`. Gives the count of
/// bytes before the pattern, which is not taken, and those bytes.
pub open spec fn spec_until(s: Seq<u8>, pat: Seq<u8>) -> Option<(int, Seq<u8>)> {
    match first_occurrence(s, pat) {
        Some(i) => Some((i, s.take(i))),
        None => None,
    }
}

/// What stands in `s` before the first occurrence of `pat`, the pattern
/// taken with it. Gives the count of bytes up to the end of the pattern, and
/// the bytes before it.
pub open spec fn spec_terminated(s: Seq<u8>, pat: Seq<u8>) -> Option<(int, Seq<u8>)> {
    match first_occurrence(s, pat) {
        Some(i) => Some((i + pat.len(), s.take(i))),
        None => None,
    }
}

/// The line at the head of `s`: what stands before the first CRLF. Gives the
/// count of bytes that the line takes with its CRLF, and the line without it.
pub open spec fn spec_line(s: Seq<u8>) -> Option<(int, Seq<u8>)> {
    spec_terminated(s, CRLF@)
}

/// Splits `s` before the first occurrence of `pat`.
fn until<'a>(pat: &[u8], s: &'a [u8]) -> (r: Option<(&'a [u8], &'a [u8])>)
    ensures
        match spec_until(s@, pat@) {
            Some((n, taken)) => r matches Some((rest, t)) && t@ == taken && rest@ == s@.skip(n),
            None => r is None,
        },
{
    match take_until(pat, s) {
        Some((rest, taken)) => {
            proof {
                lemma_first_occurrence_at(s@, pat@, taken@.len() as int);
            }
            Some((rest, taken))
        },
        None => {
            proof {
                lemma_first_occurrence_none(s@, pat@);
            }
            None
        },
    }
}

/// Splits `s` before its first CRLF, which stays at the head of what follows.
pub fn take_until_crlf<'a>(s: &'a [u8]) -> (r: Option<(&'a [u8], &'a [u8])>)
    ensures
        match spec_until(s@, CRLF@) {
            Some((n, line)) => r matches Some((rest, l)) && l@ == line && rest@ == s@.skip(n),
            None => r is None,
        },
{
    until(CRLF.as_slice(), s)
}

/// Splits `s` before its first space, which stays at the head of what follows.
pub fn take_until_sp<'a>(s: &'a [u8]) -> (r: Option<(&'a [u8], &'a [u8])>)
    ensures
        match spec_until(s@, SP@) {
            Some((n, token)) => r matches Some((rest, t)) && t@ == token && rest@ == s@.skip(n),
            None => r is None,
        },
{
    until(SP.as_slice(), s)
}

/// Splits `s` at the first occurrence of `pat`, and drops the pattern.
fn terminated<'a>(pat: &[u8], s: &'a [u8]) -> (r: Option<(&'a [u8], &'a [u8])>)
    ensures
        match spec_terminated(s@, pat@) {
            Some((n, taken)) => r matches Some((rest, t)) && t@ == taken && rest@ == s@.skip(n),
            None => r is None,
        },
{
    match until(pat, s) {
        Some((from_pat, taken)) => {
            proof {
                let i = taken@.len() as int;
                let k = pat@.len() as int;
                assert(from_pat@.take(k) =~= s@.subrange(i, i + k));
                assert(from_pat@.skip(k) =~= s@.skip(i + k));
            }
            match tag(pat, from_pat) {
                Some((rest, _)) => Some((rest, taken)),
                None => None,
            }
        },
        None => None,
    }
}

/// Takes the line at the head of `s` and the CRLF that ends it.
pub fn take_until_crlf_consume_crlf<'a>(s: &'a [u8]) -> (r: Option<(&'a [u8], &'a [u8])>)
    ensures
        match spec_line(s@) {
            Some((n, line)) => r matches Some((rest, l)) && l@ == line && rest@ == s@.skip(n),
            None => r is None,
        },
{
    terminated(CRLF.as_slice(), s)
}

/// The status indicator at the head of `s`, in either case of its letters.
/// Gives the count of bytes that the literal takes, and the indicator.
pub open spec fn spec_status_indicator(s: Seq<u8>) -> Option<(int, StatusIndicator)> {
    if starts_with_no_case(s, POSITIVE@) {
        Some((3, StatusIndicator::OK))
    } else if starts_with_no_case(s, NEGATIVE@) {
        Some((4, StatusIndicator::ERR))
    } else {
        None
    }
}

/// Reads the status indicator at the head of `s`; gives what follows it, and
/// the indicator.
pub fn status_indicator<'a>(s: &'a [u8]) -> (r: Option<(&'a [u8], StatusIndicator)>)
    ensures
        match spec_status_indicator(s@) {
            Some((n, status)) => r matches Some((rest, si)) && si == status && rest@ == s@.skip(n),
            None => r is None,
        },
{
    match tag_no_case(POSITIVE.as_slice(), s) {
        Some((rest, _)) => Some((rest, StatusIndicator::OK)),
        None => match tag_no_case(NEGATIVE.as_slice(), s) {
            Some((rest, _)) => Some((rest, StatusIndicator::ERR)),
            None => None,
        },
    }
}

/// A response of one line: the status indicator, then either the CRLF at
/// once, or a space and free text up to the CRLF. Gives the count of bytes
/// that the line takes with its CRLF, the indicator, and the text, which is
/// empty where the line holds none.
pub open spec fn spec_one_line(s: Seq<u8>) -> Option<(int, StatusIndicator, Seq<u8>)> {
    match spec_status_indicator(s) {
        Some((k, status)) => {
            let after = s.skip(k);
            if starts_with(after, CRLF@) {
                Some((k + 2, status, Seq::empty()))
            } else if starts_with(after, SP@) {
                match spec_line(after.skip(1)) {
                    Some((n, text)) => Some((k + 1 + n, status, text)),
                    None => None,
                }
            } else {
                None
            }
        },
        None => None,
    }
}

/// The text of a line that holds none.
pub fn no_text<'a>() -> (r: &'a [u8])
    ensures
        r@ == Seq::<u8>::empty(),
{
    &[]
}

/// Decodes a response of one line into any record that holds a status
/// indicator and a text; gives what follows the line, and the record.
pub fn one_line_response_two_parts_parser<'a, T: OneLine<'a>>(s: &'a [u8]) -> (r: Option<
    (&'a [u8], T),
>)
    ensures
        match spec_one_line(s@) {
            Some((n, status, text)) => {
                &&& r matches Some((rest, response))
                &&& rest@ == s@.skip(n)
                &&& response.status() == status
                &&& response.text() == text
            },
            None => r is None,
        },
{
    let (after, si) = match status_indicator(s) {
        Some(found) => found,
        None => {
            return None;
        },
    };
    let (rest, message) = match tag(CRLF.as_slice(), after) {
        Some((rest, _)) => (rest, no_text()),
        None => match tag(SP.as_slice(), after) {
            Some((text, _)) => match take_until_crlf_consume_crlf(text) {
                Some(found) => found,
                None => {
                    return None;
                },
            },
            None => {
                return None;
            },
        },
    };
    proof {
        let k = s@.len() - after@.len();
        assert(s@.skip(k).skip(2) =~= s@.skip(k + 2));
        match spec_line(after@.skip(1)) {
            Some((n, _)) => {
                assert(s@.skip(k).skip(1).skip(n) =~= s@.skip(k + 1 + n));
            },
            None => {},
        }
    }
    let mut response = T::default();
    response.set_status_indicator(si);
    response.set_information(message);
    Some((rest, response))
}

/// A response with a message body: the status indicator, a space, the text
/// of the first line up to its CRLF, then the body, which is all that stands
/// before the first line that holds a dot alone. Gives the count of bytes up
/// to the end of that line, the indicator, the text, and the body.
pub open spec fn spec_message(s: Seq<u8>) -> Option<(int, StatusIndicator, Seq<u8>, Seq<u8>)> {
    match spec_status_indicator(s) {
        Some((k, status)) => {
            let after = s.skip(k);
            if starts_with(after, SP@) {
                match spec_line(after.skip(1)) {
                    Some((n, text)) => match spec_terminated(
                        after.skip(1).skip(n),
                        END_OF_MULTI_LINE@,
                    ) {
                        Some((m, body)) => Some((k + 1 + n + m, status, text, body)),
                        None => None,
                    },
                    None => None,
                }
            } else {
                None
            }
        },
        None => None,
    }
}

/// Decodes a response with a message body into any record that can hold one;
/// gives what follows the line with the dot, and the record. The body is one
/// span, not split into lines, and always present in what is decoded: bytes
/// in which the line with the dot is missing are no match.
pub fn retr_message_parser<'a, T: HaveMessageBody<'a>>(s: &'a [u8]) -> (r: Option<(&'a [u8], T)>)
    ensures
        match spec_message(s@) {
            Some((n, status, text, body)) => {
                &&& r matches Some((rest, response))
                &&& rest@ == s@.skip(n)
                &&& response.status() == status
                &&& response.text() == text
                &&& response.body() == Some(body)
            },
            None => r is None,
        },
{
    let (after, si) = match status_indicator(s) {
        Some(found) => found,
        None => {
            return None;
        },
    };
    let first_line = match tag(SP.as_slice(), after) {
        Some((first_line, _)) => first_line,
        None => {
            return None;
        },
    };
    let (lines, information) = match take_until_crlf_consume_crlf(first_line) {
        Some(found) => found,
        None => {
            return None;
        },
    };
    let (rest, body) = match terminated(END_OF_MULTI_LINE.as_slice(), lines) {
        Some(found) => found,
        None => {
            return None;
        },
    };
    proof {
        let k = s@.len() - after@.len();
        let n = first_line@.len() - lines@.len();
        let m = lines@.len() - rest@.len();
        assert(s@.skip(k).skip(1).skip(n).skip(m) =~= s@.skip(k + 1 + n + m));
    }
    let mut response = T::default();
    response.set_status_indicator(si);
    response.set_information(information);
    response.set_message(Some(body));
    Some((rest, response))
}

/// A command that is its keyword alone: the keyword, in either case of its
/// letters, and the CRLF. Gives the count of bytes that the line takes.
pub open spec fn spec_bare_command(keyword: Seq<u8>, s: Seq<u8>) -> Option<int> {
    if starts_with_no_case(s, keyword) && starts_with(s.skip(keyword.len() as int), CRLF@) {
        Some(keyword.len() as int + 2)
    } else {
        None
    }
}

/// Decodes a command that is its keyword alone; gives what follows the line.
pub fn bare_command<'a>(keyword: &[u8], s: &'a [u8]) -> (r: Option<&'a [u8]>)
    ensures
        match spec_bare_command(keyword@, s@) {
            Some(n) => r matches Some(rest) && rest@ == s@.skip(n),
            None => r is None,
        },
{
    let after = match tag_no_case(keyword, s) {
        Some((after, _)) => after,
        None => {
            return None;
        },
    };
    match tag(CRLF.as_slice(), after) {
        Some((rest, _)) => {
            assert(s@.skip(keyword@.len() as int).skip(2) =~= s@.skip(keyword@.len() as int + 2));
            Some(rest)
        },
        None => None,
    }
}

} // verus!
