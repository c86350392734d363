//! Decoders for the responses of the TRANSACTION state.
use crate::common::{
    no_text, number, one_line_response_two_parts_parser, retr_message_parser, spec_message,
    spec_number, spec_one_line, spec_until, take_until_crlf, StatusIndicator,
};
use crate::primitives::{
    lemma_digit_run, lemma_first_occurrence_is_first, starts_with, starts_with_no_case, tag,
    tag_no_case, CRLF, END_OF_MULTI_LINE, POSITIVE, SP,
};
use crate::types::response::{
    unique_ids_model, Dele, List, Noop, OneLineTwoParts, Retr, Rset, Stat, Top, Uidl,
};
use vstd::prelude::*;

verus! {

/// Two numbers with one space between them. Gives the count of bytes that
/// they take, and the numbers in their order.
pub open spec fn spec_number_pair(s: Seq<u8>) -> Option<(int, usize, usize)> {
    match spec_number(s) {
        Some((n, first)) => if starts_with(s.skip(n), SP@) {
            match spec_number(s.skip(n).skip(1)) {
                Some((m, second)) => Some((n + 1 + m, first, second)),
                None => None,
            }
        } else {
            None
        },
        None => None,
    }
}

/// A number, one space, and an identifier: all that stands before the next
/// CRLF, which is not taken. Gives the count of bytes up to that CRLF, the
/// number and the identifier.
pub open spec fn spec_number_and_id(s: Seq<u8>) -> Option<(int, usize, Seq<u8>)> {
    match spec_number(s) {
        Some((n, number)) => if starts_with(s.skip(n), SP@) {
            match spec_until(s.skip(n).skip(1), CRLF@) {
                Some((m, id)) => Some((n + 1 + m, number, id)),
                None => None,
            }
        } else {
            None
        },
        None => None,
    }
}

/// A positive response of one line that holds two numbers: `+OK`, a space,
/// the pair, CRLF. Gives the count of bytes that the line takes, and the
/// numbers.
pub open spec fn spec_positive_pair(s: Seq<u8>) -> Option<(int, usize, usize)> {
    if starts_with_no_case(s, POSITIVE@) && starts_with(s.skip(3), SP@) {
        match spec_number_pair(s.skip(3).skip(1)) {
            Some((n, first, second)) => if starts_with(s.skip(3).skip(1).skip(n), CRLF@) {
                Some((3 + 1 + n + 2, first, second))
            } else {
                None
            },
            None => None,
        }
    } else {
        None
    }
}

/// A positive response of one line that holds a number and an identifier:
/// `+OK`, a space, the number, a space, the identifier, CRLF. Gives the count
/// of bytes that the line takes, the number and the identifier.
pub open spec fn spec_positive_number_and_id(s: Seq<u8>) -> Option<(int, usize, Seq<u8>)> {
    if starts_with_no_case(s, POSITIVE@) && starts_with(s.skip(3), SP@) {
        match spec_number_and_id(s.skip(3).skip(1)) {
            Some((n, number, id)) => Some((3 + 1 + n + 2, number, id)),
            None => None,
        }
    } else {
        None
    }
}

/// The text that may stand behind the `+OK` of a listing: a space and all
/// that stands before the next CRLF, which is not taken. Gives the count of
/// bytes that it takes and the text; where there is no space, or no CRLF
/// behind it, nothing is taken and the text is empty.
pub open spec fn spec_listing_text(s: Seq<u8>) -> (int, Seq<u8>) {
    if starts_with(s, SP@) {
        match spec_until(s.skip(1), CRLF@) {
            Some((n, text)) => (1 + n, text),
            None => (0, Seq::empty()),
        }
    } else {
        (0, Seq::empty())
    }
}

/// One entry of a scan listing: CRLF, the message-number, a space, the size.
/// Gives the count of bytes that the entry takes, and the pair.
pub open spec fn spec_scan_entry(s: Seq<u8>) -> Option<(int, (usize, usize))> {
    if starts_with(s, CRLF@) {
        match spec_number_pair(s.skip(2)) {
            Some((n, msg, size)) => Some((2 + n, (msg, size))),
            None => None,
        }
    } else {
        None
    }
}

/// One entry of a unique-id listing: CRLF, the message-number, a space, the
/// unique-id up to the next CRLF. Gives the count of bytes that the entry
/// takes, and the pair.
pub open spec fn spec_unique_id_entry(s: Seq<u8>) -> Option<(int, (usize, Seq<u8>))> {
    if starts_with(s, CRLF@) {
        match spec_number_and_id(s.skip(2)) {
            Some((n, msg, id)) => Some((2 + n, (msg, id))),
            None => None,
        }
    } else {
        None
    }
}

/// A pair of numbers stays within the bytes that it is read from.
pub proof fn lemma_number_pair_bounds(s: Seq<u8>)
    ensures
        spec_number_pair(s) matches Some((n, _, _)) ==> 0 < n <= s.len(),
{
    lemma_digit_run(s);
    match spec_number(s) {
        Some((n, _)) => {
            if starts_with(s.skip(n), SP@) {
                lemma_digit_run(s.skip(n).skip(1));
            }
        },
        None => {},
    }
}

/// A number and an identifier are read up to a CRLF, which stands within the
/// bytes that they are read from.
pub proof fn lemma_number_and_id_bounds(s: Seq<u8>)
    ensures
        spec_number_and_id(s) matches Some((n, _, _)) ==> 0 < n <= s.len() && starts_with(
            s.skip(n),
            CRLF@,
        ),
{
    lemma_digit_run(s);
    match spec_number(s) {
        Some((n, _)) => {
            if starts_with(s.skip(n), SP@) {
                let from_id = s.skip(n).skip(1);
                lemma_first_occurrence_is_first(from_id, CRLF@);
                match spec_until(from_id, CRLF@) {
                    Some((m, _)) => {
                        assert(from_id.skip(m) =~= s.skip(n + 1 + m));
                        assert(from_id.skip(m).take(2) =~= from_id.subrange(m, m + 2));
                    },
                    None => {},
                }
            }
        },
        None => {},
    }
}

/// An entry of a scan listing stays within the bytes that it is read from.
pub proof fn lemma_scan_entry_bounds(s: Seq<u8>)
    ensures
        spec_scan_entry(s) matches Some((n, _)) ==> 0 < n <= s.len(),
{
    if starts_with(s, CRLF@) {
        lemma_number_pair_bounds(s.skip(2));
    }
}

/// An entry of a unique-id listing stays within the bytes that it is read
/// from.
pub proof fn lemma_unique_id_entry_bounds(s: Seq<u8>)
    ensures
        spec_unique_id_entry(s) matches Some((n, _)) ==> 0 < n <= s.len(),
{
    if starts_with(s, CRLF@) {
        lemma_number_and_id_bounds(s.skip(2));
    }
}

/// The entries of a scan listing that stand at the head of `s`, as many as
/// there are. Gives the count of bytes that they take, and the entries in
/// the order in which they stand.
pub open spec fn spec_scan_entries(s: Seq<u8>) -> (int, Seq<(usize, usize)>)
    decreases s.len(),
{
    match spec_scan_entry(s) {
        Some((n, entry)) => {
            proof {
                lemma_scan_entry_bounds(s);
            }
            let (m, more) = spec_scan_entries(s.skip(n));
            (n + m, seq![entry] + more)
        },
        None => (0, Seq::empty()),
    }
}

/// The entries of a unique-id listing that stand at the head of `s`, as many
/// as there are. Gives the count of bytes that they take, and the entries in
/// the order in which they stand.
pub open spec fn spec_unique_id_entries(s: Seq<u8>) -> (int, Seq<(usize, Seq<u8>)>)
    decreases s.len(),
{
    match spec_unique_id_entry(s) {
        Some((n, entry)) => {
            proof {
                lemma_unique_id_entry_bounds(s);
            }
            let (m, more) = spec_unique_id_entries(s.skip(n));
            (n + m, seq![entry] + more)
        },
        None => (0, Seq::empty()),
    }
}

/// The STAT response: the positive line with the two counters, or else any
/// response of one line, with both counters 0. Gives the count of bytes that
/// the line takes, the indicator, the number of messages, their size, and
/// the text, which the line with the counters does not have.
pub open spec fn spec_stat(s: Seq<u8>) -> Option<(int, StatusIndicator, usize, usize, Seq<u8>)> {
    match spec_positive_pair(s) {
        Some((n, count, size)) => Some((n, StatusIndicator::OK, count, size, Seq::empty())),
        None => match spec_one_line(s) {
            Some((n, status, text)) => Some((n, status, 0, 0, text)),
            None => None,
        },
    }
}

/// The multi-line LIST response: `+OK`, the text that may follow it, one
/// entry or more, and the line that holds a dot alone. Gives the count of
/// bytes up to the end of that line, the entries and the text.
pub open spec fn spec_list_multi_line(s: Seq<u8>) -> Option<(int, Seq<(usize, usize)>, Seq<u8>)> {
    if starts_with_no_case(s, POSITIVE@) {
        let (h, text) = spec_listing_text(s.skip(3));
        let (n, entries) = spec_scan_entries(s.skip(3).skip(h));
        if entries.len() > 0 && starts_with(s.skip(3).skip(h).skip(n), END_OF_MULTI_LINE@) {
            Some((3 + h + n + 5, entries, text))
        } else {
            None
        }
    } else {
        None
    }
}

/// The LIST response of one line: the positive line with one scan listing,
/// or else any response of one line, with no entry.
pub open spec fn spec_list_one_line(s: Seq<u8>) -> Option<
    (int, StatusIndicator, Seq<(usize, usize)>, Seq<u8>),
> {
    match spec_positive_pair(s) {
        Some((n, msg, size)) => Some((n, StatusIndicator::OK, seq![(msg, size)], Seq::empty())),
        None => match spec_one_line(s) {
            Some((n, status, text)) => Some((n, status, Seq::empty(), text)),
            None => None,
        },
    }
}

/// The LIST response: the first of these that matches: the multi-line form,
/// the line with one scan listing, any response of one line. Gives the count
/// of bytes taken, the indicator, the entries in the order received, and the
/// text.
pub open spec fn spec_list(s: Seq<u8>) -> Option<
    (int, StatusIndicator, Seq<(usize, usize)>, Seq<u8>),
> {
    match spec_list_multi_line(s) {
        Some((n, entries, text)) => Some((n, StatusIndicator::OK, entries, text)),
        None => spec_list_one_line(s),
    }
}

/// The multi-line UIDL response: `+OK`, the text that may follow it, one
/// entry or more, and the line that holds a dot alone. Gives the count of
/// bytes up to the end of that line, the entries and the text.
pub open spec fn spec_uidl_multi_line(s: Seq<u8>) -> Option<
    (int, Seq<(usize, Seq<u8>)>, Seq<u8>),
> {
    if starts_with_no_case(s, POSITIVE@) {
        let (h, text) = spec_listing_text(s.skip(3));
        let (n, entries) = spec_unique_id_entries(s.skip(3).skip(h));
        if entries.len() > 0 && starts_with(s.skip(3).skip(h).skip(n), END_OF_MULTI_LINE@) {
            Some((3 + h + n + 5, entries, text))
        } else {
            None
        }
    } else {
        None
    }
}

/// The UIDL response of one line: the positive line with one unique-id
/// listing, or else any response of one line, with no entry.
pub open spec fn spec_uidl_one_line(s: Seq<u8>) -> Option<
    (int, StatusIndicator, Seq<(usize, Seq<u8>)>, Seq<u8>),
> {
    match spec_positive_number_and_id(s) {
        Some((n, msg, id)) => Some((n, StatusIndicator::OK, seq![(msg, id)], Seq::empty())),
        None => match spec_one_line(s) {
            Some((n, status, text)) => Some((n, status, Seq::empty(), text)),
            None => None,
        },
    }
}

/// The UIDL response: the first of these that matches: the multi-line form,
/// the line with one unique-id listing, any response of one line. Gives the
/// count of bytes taken, the indicator, the entries in the order received,
/// and the text.
pub open spec fn spec_uidl(s: Seq<u8>) -> Option<
    (int, StatusIndicator, Seq<(usize, Seq<u8>)>, Seq<u8>),
> {
    match spec_uidl_multi_line(s) {
        Some((n, entries, text)) => Some((n, StatusIndicator::OK, entries, text)),
        None => spec_uidl_one_line(s),
    }
}

/// Reads two numbers with a space between them; gives what follows them, and
/// the numbers.
fn number_pair<'a>(s: &'a [u8]) -> (r: Option<(&'a [u8], usize, usize)>)
    ensures
        match spec_number_pair(s@) {
            Some((n, first, second)) => {
                &&& r matches Some((rest, a, b))
                &&& a == first
                &&& b == second
                &&& rest@ == s@.skip(n)
                &&& 0 < n <= s@.len()
            },
            None => r is None,
        },
{
    let (separator, first) = match number(s) {
        Some(found) => found,
        None => {
            return None;
        },
    };
    let digits = match tag(SP.as_slice(), separator) {
        Some((digits, _)) => digits,
        None => {
            return None;
        },
    };
    match number(digits) {
        Some((rest, second)) => {
            proof {
                let n = s@.len() - separator@.len();
                let m = digits@.len() - rest@.len();
                assert(s@.skip(n).skip(1).skip(m) =~= s@.skip(n + 1 + m));
            }
            Some((rest, first, second))
        },
        None => None,
    }
}

/// Reads a number, a space and an identifier; gives what follows them, which
/// begins with a CRLF, the number and the identifier.
fn number_and_id<'a>(s: &'a [u8]) -> (r: Option<(&'a [u8], usize, &'a [u8])>)
    ensures
        match spec_number_and_id(s@) {
            Some((n, number, id)) => {
                &&& r matches Some((rest, v, found))
                &&& v == number
                &&& found@ == id
                &&& rest@ == s@.skip(n)
                &&& 0 < n <= s@.len() - 2
                &&& starts_with(rest@, CRLF@)
            },
            None => r is None,
        },
{
    let (separator, msg) = match number(s) {
        Some(found) => found,
        None => {
            return None;
        },
    };
    let from_id = match tag(SP.as_slice(), separator) {
        Some((from_id, _)) => from_id,
        None => {
            return None;
        },
    };
    match take_until_crlf(from_id) {
        Some((rest, id)) => {
            proof {
                let n = s@.len() - separator@.len();
                let m = id@.len() as int;
                lemma_first_occurrence_is_first(from_id@, CRLF@);
                assert(s@.skip(n).skip(1).skip(m) =~= s@.skip(n + 1 + m));
                assert(rest@.take(2) =~= from_id@.subrange(m, m + 2));
            }
            Some((rest, msg, id))
        },
        None => None,
    }
}

/// Decodes the positive line with two numbers; gives what follows the line,
/// and the numbers.
fn positive_pair<'a>(s: &'a [u8]) -> (r: Option<(&'a [u8], usize, usize)>)
    ensures
        match spec_positive_pair(s@) {
            Some((n, first, second)) => {
                &&& r matches Some((rest, a, b))
                &&& a == first
                &&& b == second
                &&& rest@ == s@.skip(n)
            },
            None => r is None,
        },
{
    let after = match tag_no_case(POSITIVE.as_slice(), s) {
        Some((after, _)) => after,
        None => {
            return None;
        },
    };
    let digits = match tag(SP.as_slice(), after) {
        Some((digits, _)) => digits,
        None => {
            return None;
        },
    };
    let (line_end, first, second) = match number_pair(digits) {
        Some(found) => found,
        None => {
            return None;
        },
    };
    match tag(CRLF.as_slice(), line_end) {
        Some((rest, _)) => {
            proof {
                let n = digits@.len() - line_end@.len();
                assert(s@.skip(3).skip(1).skip(n).skip(2) =~= s@.skip(3 + 1 + n + 2));
            }
            Some((rest, first, second))
        },
        None => None,
    }
}

/// Decodes the positive line with a number and an identifier; gives what
/// follows the line, the number and the identifier.
fn positive_number_and_id<'a>(s: &'a [u8]) -> (r: Option<(&'a [u8], usize, &'a [u8])>)
    ensures
        match spec_positive_number_and_id(s@) {
            Some((n, number, id)) => {
                &&& r matches Some((rest, v, found))
                &&& v == number
                &&& found@ == id
                &&& rest@ == s@.skip(n)
            },
            None => r is None,
        },
{
    let after = match tag_no_case(POSITIVE.as_slice(), s) {
        Some((after, _)) => after,
        None => {
            return None;
        },
    };
    let digits = match tag(SP.as_slice(), after) {
        Some((digits, _)) => digits,
        None => {
            return None;
        },
    };
    let (line_end, msg, id) = match number_and_id(digits) {
        Some(found) => found,
        None => {
            return None;
        },
    };
    match tag(CRLF.as_slice(), line_end) {
        Some((rest, _)) => {
            proof {
                let n = digits@.len() - line_end@.len();
                assert(s@.skip(3).skip(1).skip(n).skip(2) =~= s@.skip(3 + 1 + n + 2));
            }
            Some((rest, msg, id))
        },
        None => None,
    }
}

/// Reads the text that may stand behind the `+OK` of a listing; gives what
/// follows it, and the text.
fn listing_text<'a>(s: &'a [u8]) -> (r: (&'a [u8], &'a [u8]))
    ensures
        r.1@ == spec_listing_text(s@).1,
        r.0@ == s@.skip(spec_listing_text(s@).0),
        0 <= spec_listing_text(s@).0 <= s@.len(),
{
    proof {
        assert(s@.skip(0) =~= s@);
    }
    match tag(SP.as_slice(), s) {
        Some((text, _)) => match take_until_crlf(text) {
            Some((rest, information)) => {
                proof {
                    let n = information@.len() as int;
                    lemma_first_occurrence_is_first(text@, CRLF@);
                    assert(s@.skip(1).skip(n) =~= s@.skip(1 + n));
                }
                (rest, information)
            },
            None => (s, no_text()),
        },
        None => (s, no_text()),
    }
}

/// Reads one entry of a scan listing; gives what follows it, and the entry.
fn scan_entry<'a>(s: &'a [u8]) -> (r: Option<(&'a [u8], (usize, usize))>)
    ensures
        match spec_scan_entry(s@) {
            Some((n, entry)) => {
                &&& r matches Some((rest, e))
                &&& e == entry
                &&& rest@ == s@.skip(n)
                &&& 0 < n <= s@.len()
            },
            None => r is None,
        },
{
    let digits = match tag(CRLF.as_slice(), s) {
        Some((digits, _)) => digits,
        None => {
            return None;
        },
    };
    match number_pair(digits) {
        Some((rest, msg, size)) => {
            proof {
                let n = digits@.len() - rest@.len();
                assert(s@.skip(2).skip(n) =~= s@.skip(2 + n));
            }
            Some((rest, (msg, size)))
        },
        None => None,
    }
}

/// Reads one entry of a unique-id listing; gives what follows it, and the
/// entry.
fn unique_id_entry<'a>(s: &'a [u8]) -> (r: Option<(&'a [u8], (usize, &'a [u8]))>)
    ensures
        match spec_unique_id_entry(s@) {
            Some((n, entry)) => {
                &&& r matches Some((rest, e))
                &&& e.0 == entry.0
                &&& e.1@ == entry.1
                &&& rest@ == s@.skip(n)
                &&& 0 < n <= s@.len()
            },
            None => r is None,
        },
{
    let digits = match tag(CRLF.as_slice(), s) {
        Some((digits, _)) => digits,
        None => {
            return None;
        },
    };
    match number_and_id(digits) {
        Some((rest, msg, id)) => {
            proof {
                let n = digits@.len() - rest@.len();
                assert(s@.skip(2).skip(n) =~= s@.skip(2 + n));
            }
            Some((rest, (msg, id)))
        },
        None => None,
    }
}

/// Reads the entries of a scan listing at the head of `s`, as many as there
/// are; gives what follows them, and the entries in their order.
fn scan_entries<'a>(s: &'a [u8]) -> (r: (&'a [u8], Vec<(usize, usize)>))
    ensures
        r.1@ == spec_scan_entries(s@).1,
        r.0@ == s@.skip(spec_scan_entries(s@).0),
        0 <= spec_scan_entries(s@).0 <= s@.len(),
{
    let mut entries: Vec<(usize, usize)> = Vec::new();
    let mut rest = s;
    let mut next = scan_entry(rest);
    proof {
        assert(s@.skip(0) =~= s@);
    }
    while next.is_some()
        invariant
            rest@.len() <= s@.len(),
            rest@ == s@.skip(s@.len() - rest@.len()),
            spec_scan_entries(s@).0 == s@.len() - rest@.len() + spec_scan_entries(rest@).0,
            spec_scan_entries(s@).1 == entries@ + spec_scan_entries(rest@).1,
            match spec_scan_entry(rest@) {
                Some((n, entry)) => {
                    &&& next matches Some((after, e))
                    &&& e == entry
                    &&& after@ == rest@.skip(n)
                    &&& 0 < n <= rest@.len()
                },
                None => next is None,
            },
        decreases rest@.len(),
    {
        let (after, entry) = next.unwrap();
        proof {
            let n = rest@.len() - after@.len();
            let more = spec_scan_entries(after@).1;
            assert(entries@.push(entry) + more =~= entries@ + (seq![entry] + more));
            assert(s@.skip(s@.len() - rest@.len()).skip(n) =~= s@.skip(s@.len() - after@.len()));
        }
        entries.push(entry);
        rest = after;
        next = scan_entry(rest);
    }
    proof {
        assert(entries@ + Seq::<(usize, usize)>::empty() =~= entries@);
    }
    (rest, entries)
}

/// Reads the entries of a unique-id listing at the head of `s`, as many as
/// there are; gives what follows them, and the entries in their order.
fn unique_id_entries<'a>(s: &'a [u8]) -> (r: (&'a [u8], Vec<(usize, &'a [u8])>))
    ensures
        unique_ids_model(r.1@) == spec_unique_id_entries(s@).1,
        r.0@ == s@.skip(spec_unique_id_entries(s@).0),
        0 <= spec_unique_id_entries(s@).0 <= s@.len(),
{
    let mut entries: Vec<(usize, &'a [u8])> = Vec::new();
    let mut rest = s;
    let mut next = unique_id_entry(rest);
    proof {
        assert(s@.skip(0) =~= s@);
        assert(unique_ids_model(entries@) =~= Seq::<(usize, Seq<u8>)>::empty());
    }
    while next.is_some()
        invariant
            rest@.len() <= s@.len(),
            rest@ == s@.skip(s@.len() - rest@.len()),
            spec_unique_id_entries(s@).0 == s@.len() - rest@.len() + spec_unique_id_entries(
                rest@,
            ).0,
            spec_unique_id_entries(s@).1 == unique_ids_model(entries@) + spec_unique_id_entries(
                rest@,
            ).1,
            match spec_unique_id_entry(rest@) {
                Some((n, entry)) => {
                    &&& next matches Some((after, e))
                    &&& e.0 == entry.0
                    &&& e.1@ == entry.1
                    &&& after@ == rest@.skip(n)
                    &&& 0 < n <= rest@.len()
                },
                None => next is None,
            },
        decreases rest@.len(),
    {
        let (after, entry) = next.unwrap();
        proof {
            let n = rest@.len() - after@.len();
            let more = spec_unique_id_entries(after@).1;
            let model = (entry.0, entry.1@);
            assert(unique_ids_model(entries@.push(entry)) =~= unique_ids_model(entries@).push(
                model,
            ));
            assert(unique_ids_model(entries@).push(model) + more =~= unique_ids_model(entries@) + (
            seq![model] + more));
            assert(s@.skip(s@.len() - rest@.len()).skip(n) =~= s@.skip(s@.len() - after@.len()));
        }
        entries.push(entry);
        rest = after;
        next = unique_id_entry(rest);
    }
    proof {
        assert(unique_ids_model(entries@) + Seq::<(usize, Seq<u8>)>::empty() =~= unique_ids_model(
            entries@,
        ));
    }
    (rest, entries)
}

/// STAT
///
/// The positive response consists of "+OK" followed by a single
/// space, the number of messages in the maildrop, a single
/// space, and the size of the maildrop in octets. Any other response of one
/// line is decoded with both numbers 0.
pub fn stat<'a>(s: &'a [u8]) -> (r: Option<Stat<'a>>)
    ensures
        match spec_stat(s@) {
            Some((_, status, count, size, text)) => {
                &&& r matches Some(x)
                &&& x.status_indicator == status
                &&& x.number_of_messages == count
                &&& x.size_in_octets == size
                &&& x.information@ == text
            },
            None => r is None,
        },
{
    match stat_parser(s) {
        Some((_, x)) => Some(x),
        None => None,
    }
}

/// Decodes the STAT response at the head of `s`; gives what follows the line,
/// and the record.
pub fn stat_parser<'a>(s: &'a [u8]) -> (r: Option<(&'a [u8], Stat<'a>)>)
    ensures
        match spec_stat(s@) {
            Some((n, status, count, size, text)) => {
                &&& r matches Some((rest, x))
                &&& rest@ == s@.skip(n)
                &&& x.status_indicator == status
                &&& x.number_of_messages == count
                &&& x.size_in_octets == size
                &&& x.information@ == text
            },
            None => r is None,
        },
{
    match positive_pair(s) {
        Some((rest, count, size)) => Some(
            (
                rest,
                Stat {
                    status_indicator: StatusIndicator::OK,
                    number_of_messages: count,
                    size_in_octets: size,
                    information: no_text(),
                },
            ),
        ),
        None => match one_line_response_two_parts_parser::<OneLineTwoParts>(s) {
            Some((rest, x)) => Some(
                (
                    rest,
                    Stat {
                        status_indicator: x.left,
                        number_of_messages: 0,
                        size_in_octets: 0,
                        information: x.right,
                    },
                ),
            ),
            None => None,
        },
    }
}

/// LIST \[msg\]
///
/// With an argument, a positive response is one line that holds the scan
/// listing of that message. Without one, a positive response is multi-line:
/// after the initial +OK, one line with a scan listing for each message, and
/// the line that holds a dot alone. A scan listing is the message-number, a
/// single space and the exact size of the message in octets. Any other
/// response of one line is decoded with no entry.
pub fn list<'a>(s: &'a [u8]) -> (r: Option<List<'a>>)
    ensures
        match spec_list(s@) {
            Some((_, status, entries, text)) => {
                &&& r matches Some(x)
                &&& x.status_indicator == status
                &&& x.informations@ == entries
                &&& x.information@ == text
            },
            None => r is None,
        },
{
    match list_parser(s) {
        Some((_, x)) => Some(x),
        None => None,
    }
}

/// Decodes the LIST response at the head of `s`: the multi-line form where it
/// matches, else the form of one line. Gives what follows, and the record.
pub fn list_parser<'a>(s: &'a [u8]) -> (r: Option<(&'a [u8], List<'a>)>)
    ensures
        match spec_list(s@) {
            Some((n, status, entries, text)) => {
                &&& r matches Some((rest, x))
                &&& rest@ == s@.skip(n)
                &&& x.status_indicator == status
                &&& x.informations@ == entries
                &&& x.information@ == text
            },
            None => r is None,
        },
{
    match list_multi_line_parser(s) {
        Some(found) => Some(found),
        None => list_one_line_parser(s),
    }
}

/// Decodes the multi-line LIST response at the head of `s`; gives what
/// follows the line with the dot, and the record.
pub fn list_multi_line_parser<'a>(s: &'a [u8]) -> (r: Option<(&'a [u8], List<'a>)>)
    ensures
        match spec_list_multi_line(s@) {
            Some((n, entries, text)) => {
                &&& r matches Some((rest, x))
                &&& rest@ == s@.skip(n)
                &&& x.status_indicator == StatusIndicator::OK
                &&& x.informations@ == entries
                &&& x.information@ == text
            },
            None => r is None,
        },
{
    let after = match tag_no_case(POSITIVE.as_slice(), s) {
        Some((after, _)) => after,
        None => {
            return None;
        },
    };
    let (from_entries, information) = listing_text(after);
    let (from_end, informations) = scan_entries(from_entries);
    if informations.len() == 0 {
        return None;
    }
    match tag(END_OF_MULTI_LINE.as_slice(), from_end) {
        Some((rest, _)) => {
            proof {
                let h = after@.len() - from_entries@.len();
                let n = from_entries@.len() - from_end@.len();
                assert(s@.skip(3).skip(h).skip(n).skip(5) =~= s@.skip(3 + h + n + 5));
            }
            Some((rest, List { status_indicator: StatusIndicator::OK, informations, information }))
        },
        None => None,
    }
}

/// Decodes the LIST response of one line at the head of `s`: the line with
/// one scan listing where it matches, else any response of one line. Gives
/// what follows the line, and the record.
pub fn list_one_line_parser<'a>(s: &'a [u8]) -> (r: Option<(&'a [u8], List<'a>)>)
    ensures
        match spec_list_one_line(s@) {
            Some((n, status, entries, text)) => {
                &&& r matches Some((rest, x))
                &&& rest@ == s@.skip(n)
                &&& x.status_indicator == status
                &&& x.informations@ == entries
                &&& x.information@ == text
            },
            None => r is None,
        },
{
    match positive_pair(s) {
        Some((rest, msg, size)) => {
            let mut informations: Vec<(usize, usize)> = Vec::new();
            informations.push((msg, size));
            assert(informations@ =~= seq![(msg, size)]);
            Some(
                (
                    rest,
                    List {
                        status_indicator: StatusIndicator::OK,
                        informations,
                        information: no_text(),
                    },
                ),
            )
        },
        None => match one_line_response_two_parts_parser::<OneLineTwoParts>(s) {
            Some((rest, x)) => Some(
                (
                    rest,
                    List {
                        status_indicator: x.left,
                        informations: Vec::new(),
                        information: x.right,
                    },
                ),
            ),
            None => None,
        },
    }
}

/// RETR msg
///
/// The response is the first line, with its status indicator and text, then
/// the message, closed by the line that holds a dot alone.
pub fn retr<'a>(s: &'a [u8]) -> (r: Option<Retr<'a>>)
    ensures
        match spec_message(s@) {
            Some((_, status, text, body)) => {
                &&& r matches Some(x)
                &&& x.status_indicator == status
                &&& x.information@ == text
                &&& x.message matches Some(message)
                &&& message@ == body
            },
            None => r is None,
        },
{
    match retr_parser(s) {
        Some((_, x)) => Some(x),
        None => None,
    }
}

/// Decodes the RETR response at the head of `s`; gives what follows the line
/// with the dot, and the record.
pub fn retr_parser<'a>(s: &'a [u8]) -> (r: Option<(&'a [u8], Retr<'a>)>)
    ensures
        match spec_message(s@) {
            Some((n, status, text, body)) => {
                &&& r matches Some((rest, x))
                &&& rest@ == s@.skip(n)
                &&& x.status_indicator == status
                &&& x.information@ == text
                &&& x.message matches Some(message)
                &&& message@ == body
            },
            None => r is None,
        },
{
    retr_message_parser::<Retr>(s)
}

/// TOP msg n
///
/// The response is the first line, with its status indicator and text, then
/// the headers of the message, the blank line and the lines of the body that
/// were asked for, closed by the line that holds a dot alone.
pub fn top<'a>(s: &'a [u8]) -> (r: Option<Top<'a>>)
    ensures
        match spec_message(s@) {
            Some((_, status, text, body)) => {
                &&& r matches Some(x)
                &&& x.status_indicator == status
                &&& x.information@ == text
                &&& x.message matches Some(message)
                &&& message@ == body
            },
            None => r is None,
        },
{
    match top_parser(s) {
        Some((_, x)) => Some(x),
        None => None,
    }
}

/// Decodes the TOP response at the head of `s`; gives what follows the line
/// with the dot, and the record.
pub fn top_parser<'a>(s: &'a [u8]) -> (r: Option<(&'a [u8], Top<'a>)>)
    ensures
        match spec_message(s@) {
            Some((n, status, text, body)) => {
                &&& r matches Some((rest, x))
                &&& rest@ == s@.skip(n)
                &&& x.status_indicator == status
                &&& x.information@ == text
                &&& x.message matches Some(message)
                &&& message@ == body
            },
            None => r is None,
        },
{
    retr_message_parser::<Top>(s)
}

/// DELE msg
///
/// Possible Responses:
///
///     +OK message deleted
///     -ERR no such message
pub fn dele<'a>(s: &'a [u8]) -> (r: Option<Dele<'a>>)
    ensures
        match spec_one_line(s@) {
            Some((_, status, text)) => {
                &&& r matches Some(x)
                &&& x.status_indicator == status
                &&& x.information@ == text
            },
            None => r is None,
        },
{
    match dele_parser(s) {
        Some((_, x)) => Some(x),
        None => None,
    }
}

/// Decodes the response at the head of `s`; gives what follows the line, and
/// the record.
pub fn dele_parser<'a>(s: &'a [u8]) -> (r: Option<(&'a [u8], Dele<'a>)>)
    ensures
        match spec_one_line(s@) {
            Some((n, status, text)) => {
                &&& r matches Some((rest, x))
                &&& rest@ == s@.skip(n)
                &&& x.status_indicator == status
                &&& x.information@ == text
            },
            None => r is None,
        },
{
    one_line_response_two_parts_parser::<Dele>(s)
}

/// NOOP
///
/// Possible Responses:
///
///     +OK
pub fn noop<'a>(s: &'a [u8]) -> (r: Option<Noop<'a>>)
    ensures
        match spec_one_line(s@) {
            Some((_, status, text)) => {
                &&& r matches Some(x)
                &&& x.status_indicator == status
                &&& x.information@ == text
            },
            None => r is None,
        },
{
    match noop_parser(s) {
        Some((_, x)) => Some(x),
        None => None,
    }
}

/// Decodes the response at the head of `s`; gives what follows the line, and
/// the record.
pub fn noop_parser<'a>(s: &'a [u8]) -> (r: Option<(&'a [u8], Noop<'a>)>)
    ensures
        match spec_one_line(s@) {
            Some((n, status, text)) => {
                &&& r matches Some((rest, x))
                &&& rest@ == s@.skip(n)
                &&& x.status_indicator == status
                &&& x.information@ == text
            },
            None => r is None,
        },
{
    one_line_response_two_parts_parser::<Noop>(s)
}

/// RSET
///
/// Possible Responses:
///
///     +OK
pub fn rset<'a>(s: &'a [u8]) -> (r: Option<Rset<'a>>)
    ensures
        match spec_one_line(s@) {
            Some((_, status, text)) => {
                &&& r matches Some(x)
                &&& x.status_indicator == status
                &&& x.information@ == text
            },
            None => r is None,
        },
{
    match rset_parser(s) {
        Some((_, x)) => Some(x),
        None => None,
    }
}

/// Decodes the response at the head of `s`; gives what follows the line, and
/// the record.
pub fn rset_parser<'a>(s: &'a [u8]) -> (r: Option<(&'a [u8], Rset<'a>)>)
    ensures
        match spec_one_line(s@) {
            Some((n, status, text)) => {
                &&& r matches Some((rest, x))
                &&& rest@ == s@.skip(n)
                &&& x.status_indicator == status
                &&& x.information@ == text
            },
            None => r is None,
        },
{
    one_line_response_two_parts_parser::<Rset>(s)
}

/// UIDL \[msg\]
///
/// With an argument, a positive response is one line that holds the
/// unique-id listing of that message. Without one, a positive response is
/// multi-line: after the initial +OK, one line with a unique-id listing for
/// each message, and the line that holds a dot alone. A unique-id listing is
/// the message-number, a single space and the unique-id of the message. Any
/// other response of one line is decoded with no entry.
pub fn uidl<'a>(s: &'a [u8]) -> (r: Option<Uidl<'a>>)
    ensures
        match spec_uidl(s@) {
            Some((_, status, entries, text)) => {
                &&& r matches Some(x)
                &&& x.status_indicator == status
                &&& unique_ids_model(x.informations@) == entries
                &&& x.information@ == text
            },
            None => r is None,
        },
{
    match uidl_parser(s) {
        Some((_, x)) => Some(x),
        None => None,
    }
}

/// Decodes the UIDL response at the head of `s`: the multi-line form where it
/// matches, else the form of one line. Gives what follows, and the record.
pub fn uidl_parser<'a>(s: &'a [u8]) -> (r: Option<(&'a [u8], Uidl<'a>)>)
    ensures
        match spec_uidl(s@) {
            Some((n, status, entries, text)) => {
                &&& r matches Some((rest, x))
                &&& rest@ == s@.skip(n)
                &&& x.status_indicator == status
                &&& unique_ids_model(x.informations@) == entries
                &&& x.information@ == text
            },
            None => r is None,
        },
{
    match uidl_multi_line_parser(s) {
        Some(found) => Some(found),
        None => uidl_one_line_parser(s),
    }
}

/// Decodes the multi-line UIDL response at the head of `s`; gives what
/// follows the line with the dot, and the record.
pub fn uidl_multi_line_parser<'a>(s: &'a [u8]) -> (r: Option<(&'a [u8], Uidl<'a>)>)
    ensures
        match spec_uidl_multi_line(s@) {
            Some((n, entries, text)) => {
                &&& r matches Some((rest, x))
                &&& rest@ == s@.skip(n)
                &&& x.status_indicator == StatusIndicator::OK
                &&& unique_ids_model(x.informations@) == entries
                &&& x.information@ == text
            },
            None => r is None,
        },
{
    let after = match tag_no_case(POSITIVE.as_slice(), s) {
        Some((after, _)) => after,
        None => {
            return None;
        },
    };
    let (from_entries, information) = listing_text(after);
    let (from_end, informations) = unique_id_entries(from_entries);
    if informations.len() == 0 {
        return None;
    }
    match tag(END_OF_MULTI_LINE.as_slice(), from_end) {
        Some((rest, _)) => {
            proof {
                let h = after@.len() - from_entries@.len();
                let n = from_entries@.len() - from_end@.len();
                assert(s@.skip(3).skip(h).skip(n).skip(5) =~= s@.skip(3 + h + n + 5));
            }
            Some((rest, Uidl { status_indicator: StatusIndicator::OK, informations, information }))
        },
        None => None,
    }
}

/// Decodes the UIDL response of one line at the head of `s`: the line with
/// one unique-id listing where it matches, else any response of one line.
/// Gives what follows the line, and the record.
pub fn uidl_one_line_parser<'a>(s: &'a [u8]) -> (r: Option<(&'a [u8], Uidl<'a>)>)
    ensures
        match spec_uidl_one_line(s@) {
            Some((n, status, entries, text)) => {
                &&& r matches Some((rest, x))
                &&& rest@ == s@.skip(n)
                &&& x.status_indicator == status
                &&& unique_ids_model(x.informations@) == entries
                &&& x.information@ == text
            },
            None => r is None,
        },
{
    match positive_number_and_id(s) {
        Some((rest, msg, id)) => {
            let mut informations: Vec<(usize, &'a [u8])> = Vec::new();
            informations.push((msg, id));
            assert(unique_ids_model(informations@) =~= seq![(msg, id@)]);
            Some(
                (
                    rest,
                    Uidl {
                        status_indicator: StatusIndicator::OK,
                        informations,
                        information: no_text(),
                    },
                ),
            )
        },
        None => match one_line_response_two_parts_parser::<OneLineTwoParts>(s) {
            Some((rest, x)) => {
                let informations: Vec<(usize, &'a [u8])> = Vec::new();
                assert(unique_ids_model(informations@) =~= Seq::<(usize, Seq<u8>)>::empty());
                Some((rest, Uidl { status_indicator: x.left, informations, information: x.right }))
            },
            None => None,
        },
    }
}

} // verus!
