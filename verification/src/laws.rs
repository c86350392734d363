//! Laws of the decoders: what holds of them for every input.
//!
//! The decoders state their results over the grammars, which are functions on
//! byte sequences; so do the laws. A line built from a status and a text
//! decodes to that status and that text. Equal bytes decode alike. Bytes in
//! which the line end is missing decode to nothing, and so do a command, a
//! response of one line and a response with a message body when they are cut
//! short; a multi-line listing cut short is never read as a multi-line
//! listing, though its first line may still be read as a response of one
//! line. What is taken of the bytes is one unit: the first line, or, of a
//! multi-line listing, all up to the first line that holds a dot alone.
//! Keywords and status indicators are read in either case of their letters,
//! and everything else as it stands.
//!
//! The public proof functions are the laws; the private ones below them are
//! the steps of their proofs.
use crate::authorization::command::{
    spec_apop, spec_argument_command, spec_pass, spec_user, APOP, PASS, USER,
};
use crate::common::{
    spec_bare_command, spec_line, spec_message, spec_one_line, spec_status_indicator,
    spec_terminated, StatusIndicator,
};
use crate::primitives::{
    digit_run, first_at, first_occurrence, is_digit, lemma_absent_behind,
    lemma_cut_before_end_of_first, lemma_digit_run, lemma_digits_no_cr, lemma_first_behind,
    lemma_first_in_prefix, lemma_first_occurrence_at, lemma_first_occurrence_is_first,
    lemma_first_occurrence_none, lemma_literal_no_cr, lemma_no_cr_behind, lemma_no_cr_no_crlf,
    lemma_same_but_for_case, lemma_starts_with_in_prefix, lemma_starts_with_occurs, no_cr, occurs,
    occurs_at, same_but_for_case, starts_with, starts_with_no_case, CRLF, END_OF_MULTI_LINE,
    NEGATIVE, POSITIVE, SP,
};
use crate::transaction::command::{
    spec_dele, spec_noop, spec_number_command, spec_optional_number_command, spec_retr, spec_rset,
    spec_top, spec_two_numbers_command, DELE, LIST, NOOP, RETR, RSET, STAT, TOP, UIDL,
};
use crate::transaction::response::{
    lemma_number_pair_bounds, lemma_scan_entry_bounds, lemma_unique_id_entry_bounds, spec_list,
    spec_list_multi_line, spec_list_one_line, spec_listing_text, spec_number_pair,
    spec_positive_number_and_id, spec_positive_pair, spec_scan_entries, spec_scan_entry, spec_stat,
    spec_uidl, spec_uidl_multi_line, spec_uidl_one_line, spec_unique_id_entries,
    spec_unique_id_entry,
};
use crate::update::command::{spec_quit, QUIT};
use vstd::prelude::*;

verus! {

/// The literal that stands for a status indicator, in upper case.
pub open spec fn status_literal(status: StatusIndicator) -> Seq<u8> {
    match status {
        StatusIndicator::OK => POSITIVE@,
        StatusIndicator::ERR => NEGATIVE@,
    }
}

/// The bytes of a response of one line: the literal of the status, a space,
/// the text, CRLF.
pub open spec fn one_line_bytes(status: StatusIndicator, text: Seq<u8>) -> Seq<u8> {
    status_literal(status) + SP@ + text + CRLF@
}

/// Round trip of the response of one line: for either status and any text in
/// which no CRLF stands, the bytes built from them decode to that status and
/// that text, and the whole line is taken.
pub proof fn lemma_one_line_round_trip(status: StatusIndicator, text: Seq<u8>)
    requires
        !occurs(text, CRLF@),
    ensures
        spec_one_line(one_line_bytes(status, text)) == Some(
            (one_line_bytes(status, text).len() as int, status, text),
        ),
{
    let s = one_line_bytes(status, text);
    let literal = status_literal(status);
    let k = literal.len() as int;
    assert(starts_with_no_case(s, literal));
    assert(!starts_with_no_case(s, POSITIVE@) || status == StatusIndicator::OK) by {
        if status == StatusIndicator::ERR {
            assert(s[0] == NEGATIVE@[0]);
        }
    }
    assert(spec_status_indicator(s) == Some((k, status)));
    let after = s.skip(k);
    assert(after =~= SP@ + text + CRLF@);
    assert(!starts_with(after, CRLF@)) by {
        assert(after[0] == SP@[0]);
        if starts_with(after, CRLF@) {
            assert(after.take(2)[0] == CRLF@[0]);
        }
    }
    assert(starts_with(after, SP@)) by {
        assert(after.take(1) =~= SP@);
    }
    let line = after.skip(1);
    assert(line =~= text + CRLF@);
    let n = text.len() as int;
    assert(first_at(line, CRLF@, n)) by {
        assert(line.subrange(n, n + 2) =~= CRLF@);
        assert forall|j: int| 0 <= j < n implies !occurs_at(line, CRLF@, j) by {
            if occurs_at(line, CRLF@, j) {
                assert(line.subrange(j, j + 2)[0] == CRLF@[0]);
                assert(line.subrange(j, j + 2)[1] == CRLF@[1]);
                if j + 1 < n {
                    assert(text.subrange(j, j + 2) =~= CRLF@);
                    assert(occurs_at(text, CRLF@, j));
                } else {
                    assert(line[j + 1] == CRLF@[0]);
                }
            }
        }
    }
    lemma_first_occurrence_at(line, CRLF@, n);
    assert(line.take(n) =~= text);
}

/// Round trip of the response without text: for either status, its literal
/// and CRLF decode to that status and an empty text.
pub proof fn lemma_bare_status_round_trip(status: StatusIndicator)
    ensures
        spec_one_line(status_literal(status) + CRLF@) == Some(
            ((status_literal(status) + CRLF@).len() as int, status, Seq::<u8>::empty()),
        ),
{
    let s = status_literal(status) + CRLF@;
    let k = status_literal(status).len() as int;
    assert(starts_with_no_case(s, status_literal(status)));
    if status == StatusIndicator::ERR {
        assert(s[0] == NEGATIVE@[0]);
    }
    assert(s.skip(k) =~= CRLF@);
    assert(CRLF@.take(2) =~= CRLF@);
}

/// Decoding is a function of the bytes alone: the same bytes give the same
/// outcome, whichever decoder reads them and however often.
pub proof fn lemma_decoding_is_a_function(a: Seq<u8>, b: Seq<u8>)
    requires
        a == b,
    ensures
        spec_one_line(a) == spec_one_line(b),
        spec_message(a) == spec_message(b),
        spec_stat(a) == spec_stat(b),
        spec_list(a) == spec_list(b),
        spec_uidl(a) == spec_uidl(b),
        spec_user(a) == spec_user(b),
        spec_pass(a) == spec_pass(b),
        spec_apop(a) == spec_apop(b),
        crate::transaction::command::spec_stat(a) == crate::transaction::command::spec_stat(b),
        crate::transaction::command::spec_list(a) == crate::transaction::command::spec_list(b),
        spec_retr(a) == spec_retr(b),
        spec_dele(a) == spec_dele(b),
        spec_noop(a) == spec_noop(b),
        spec_rset(a) == spec_rset(b),
        spec_top(a) == spec_top(b),
        crate::transaction::command::spec_uidl(a) == crate::transaction::command::spec_uidl(b),
        spec_quit(a) == spec_quit(b),
{
}

/// No response is decoded from bytes in which no CRLF stands: where the line
/// terminator is missing, every response decoder gives `None`.
pub proof fn lemma_responses_need_crlf(s: Seq<u8>)
    requires
        !occurs(s, CRLF@),
    ensures
        spec_one_line(s) is None,
        spec_message(s) is None,
        spec_stat(s) is None,
        spec_list(s) is None,
        spec_uidl(s) is None,
{
    lemma_one_line_needs_crlf(s);
    lemma_positive_pair_needs_crlf(s);
    match spec_status_indicator(s) {
        Some((k, _)) => {
            lemma_absent_behind(s, k, CRLF@);
            if starts_with(s.skip(k), SP@) {
                lemma_absent_behind(s.skip(k), 1, CRLF@);
            }
        },
        None => {},
    }
    if starts_with_no_case(s, POSITIVE@) {
        let after = s.skip(3);
        lemma_absent_behind(s, 3, CRLF@);
        lemma_listing_text_bounds(after);
        let h = spec_listing_text(after).0;
        lemma_absent_behind(after, h, CRLF@);
        if starts_with(after, SP@) {
            lemma_absent_behind(after, 1, CRLF@);
            let listing = after.skip(1);
            lemma_digit_run(listing);
            let n = digit_run(listing) as int;
            lemma_absent_behind(listing, n, CRLF@);
            if starts_with(listing.skip(n), SP@) {
                lemma_absent_behind(listing.skip(n), 1, CRLF@);
            }
        }
    }
}

/// No command is decoded from bytes in which no CRLF stands: where the line
/// terminator is missing, every command decoder gives `None`.
pub proof fn lemma_commands_need_crlf(s: Seq<u8>)
    requires
        !occurs(s, CRLF@),
    ensures
        spec_user(s) is None,
        spec_pass(s) is None,
        spec_apop(s) is None,
        crate::transaction::command::spec_stat(s) is None,
        crate::transaction::command::spec_list(s) is None,
        spec_retr(s) is None,
        spec_dele(s) is None,
        spec_noop(s) is None,
        spec_rset(s) is None,
        spec_top(s) is None,
        crate::transaction::command::spec_uidl(s) is None,
        spec_quit(s) is None,
{
    if s.len() >= 4 {
        lemma_absent_behind(s, 4, CRLF@);
        let after = s.skip(4);
        lemma_digit_run(after);
        let n = digit_run(after) as int;
        lemma_absent_behind(after, n, CRLF@);
        if after.len() >= 1 {
            lemma_absent_behind(after, 1, CRLF@);
            let digits = after.skip(1);
            lemma_digit_run(digits);
            lemma_absent_behind(digits, digit_run(digits) as int, CRLF@);
        }
        if starts_with(after.skip(n), SP@) {
            lemma_absent_behind(after.skip(n), 1, CRLF@);
            let second = after.skip(n).skip(1);
            lemma_digit_run(second);
            lemma_absent_behind(second, digit_run(second) as int, CRLF@);
        }
    }
    if s.len() >= 5 {
        lemma_absent_behind(s, 5, CRLF@);
        let after = s.skip(5);
        lemma_digit_run(after);
        lemma_absent_behind(after, digit_run(after) as int, CRLF@);
    }
}

/// No multi-line response is decoded from bytes in which the line that holds
/// a dot alone does not stand behind a CRLF.
pub proof fn lemma_multi_line_needs_its_end(s: Seq<u8>)
    requires
        !occurs(s, END_OF_MULTI_LINE@),
    ensures
        spec_message(s) is None,
        spec_list_multi_line(s) is None,
        spec_uidl_multi_line(s) is None,
        spec_list(s) == spec_list_one_line(s),
        spec_uidl(s) == spec_uidl_one_line(s),
{
    let end = END_OF_MULTI_LINE@;
    match spec_status_indicator(s) {
        Some((k, _)) => {
            lemma_absent_behind(s, k, end);
            let after = s.skip(k);
            if starts_with(after, SP@) {
                lemma_absent_behind(after, 1, end);
                let line = after.skip(1);
                lemma_first_occurrence_is_first(line, CRLF@);
                match spec_line(line) {
                    Some((n, _)) => {
                        lemma_absent_behind(line, n, end);
                    },
                    None => {},
                }
            }
        },
        None => {},
    }
    if starts_with_no_case(s, POSITIVE@) {
        let after = s.skip(3);
        lemma_absent_behind(s, 3, end);
        lemma_listing_text_bounds(after);
        let h = spec_listing_text(after).0;
        let entries = after.skip(h);
        lemma_absent_behind(after, h, end);
        lemma_scan_entries_bounds(entries);
        lemma_absent_behind(entries, spec_scan_entries(entries).0, end);
        lemma_unique_id_entries_bounds(entries);
        lemma_absent_behind(entries, spec_unique_id_entries(entries).0, end);
    }
}

/// Every command is one line, and the first of the bytes: what a command
/// decoder takes ends with the first CRLF.
pub proof fn lemma_commands_are_first_lines(s: Seq<u8>)
    ensures
        spec_user(s) matches Some((n, _)) ==> first_at(s, CRLF@, n - 2),
        spec_pass(s) matches Some((n, _)) ==> first_at(s, CRLF@, n - 2),
        spec_apop(s) matches Some((n, _, _)) ==> first_at(s, CRLF@, n - 2),
        crate::transaction::command::spec_stat(s) matches Some(n) ==> first_at(s, CRLF@, n - 2),
        crate::transaction::command::spec_list(s) matches Some((n, _)) ==> first_at(
            s,
            CRLF@,
            n - 2,
        ),
        spec_retr(s) matches Some((n, _)) ==> first_at(s, CRLF@, n - 2),
        spec_dele(s) matches Some((n, _)) ==> first_at(s, CRLF@, n - 2),
        spec_noop(s) matches Some(n) ==> first_at(s, CRLF@, n - 2),
        spec_rset(s) matches Some(n) ==> first_at(s, CRLF@, n - 2),
        spec_top(s) matches Some((n, _, _)) ==> first_at(s, CRLF@, n - 2),
        crate::transaction::command::spec_uidl(s) matches Some((n, _)) ==> first_at(
            s,
            CRLF@,
            n - 2,
        ),
        spec_quit(s) matches Some(n) ==> first_at(s, CRLF@, n - 2),
{
    lemma_literals_no_cr();
    lemma_argument_command_is_first_line(USER@, s);
    lemma_argument_command_is_first_line(PASS@, s);
    lemma_argument_command_is_first_line(APOP@, s);
    lemma_bare_command_is_first_line(STAT@, s);
    lemma_optional_number_command_is_first_line(LIST@, s);
    lemma_number_command_is_first_line(RETR@, s);
    lemma_number_command_is_first_line(DELE@, s);
    lemma_bare_command_is_first_line(NOOP@, s);
    lemma_bare_command_is_first_line(RSET@, s);
    lemma_two_numbers_command_is_first_line(TOP@, s);
    lemma_optional_number_command_is_first_line(UIDL@, s);
    lemma_bare_command_is_first_line(QUIT@, s);
}

/// Every response of one line is the first line of the bytes: what a decoder
/// for one line takes ends with the first CRLF.
pub proof fn lemma_lines_are_first_lines(s: Seq<u8>)
    ensures
        spec_one_line(s) matches Some((n, _, _)) ==> first_at(s, CRLF@, n - 2),
        spec_stat(s) matches Some((n, _, _, _, _)) ==> first_at(s, CRLF@, n - 2),
        spec_list_one_line(s) matches Some((n, _, _, _)) ==> first_at(s, CRLF@, n - 2),
        spec_uidl_one_line(s) matches Some((n, _, _, _)) ==> first_at(s, CRLF@, n - 2),
{
    lemma_one_line_is_first_line(s);
    lemma_positive_pair_is_first_line(s);
    lemma_positive_number_and_id_is_first_line(s);
}

/// A multi-line listing ends with the first line of the bytes that holds a
/// dot alone.
pub proof fn lemma_listing_ends_at_first_end(s: Seq<u8>)
    ensures
        spec_list_multi_line(s) matches Some((n, _, _)) ==> first_at(
            s,
            END_OF_MULTI_LINE@,
            n - 5,
        ),
        spec_uidl_multi_line(s) matches Some((n, _, _)) ==> first_at(
            s,
            END_OF_MULTI_LINE@,
            n - 5,
        ),
{
    let end = END_OF_MULTI_LINE@;
    if starts_with_no_case(s, POSITIVE@) {
        lemma_listing_text_holds_no_crlf(s);
        let h = spec_listing_text(s.skip(3)).0;
        let entries = s.skip(3).skip(h);
        assert(entries =~= s.skip(3 + h));
        assert forall|j: int| 0 <= j < 3 + h implies !occurs_at(s, end, j) by {
            if occurs_at(s, end, j) {
                lemma_end_begins_with_crlf_and_dot(s, j);
            }
        }
        lemma_scan_entries_bounds(entries);
        lemma_scan_entries_hold_no_end(entries);
        let n = spec_scan_entries(entries).0;
        if starts_with(entries.skip(n), end) {
            lemma_starts_with_occurs(entries.skip(n), end);
            lemma_first_behind(entries, n, end, 0);
            lemma_first_behind(s, 3 + h, end, n);
        }
        lemma_unique_id_entries_bounds(entries);
        lemma_unique_id_entries_hold_no_end(entries);
        let u = spec_unique_id_entries(entries).0;
        if starts_with(entries.skip(u), end) {
            lemma_starts_with_occurs(entries.skip(u), end);
            lemma_first_behind(entries, u, end, 0);
            lemma_first_behind(s, 3 + h, end, u);
        }
    }
}

/// A command cut short is no command: where a command decoder takes `n`
/// bytes, it gives `None` for fewer than `n` of them.
pub proof fn lemma_cut_command_is_no_match(s: Seq<u8>, m: int)
    requires
        0 <= m,
    ensures
        spec_user(s) matches Some((n, _)) ==> m < n ==> spec_user(s.take(m)) is None,
        spec_pass(s) matches Some((n, _)) ==> m < n ==> spec_pass(s.take(m)) is None,
        spec_apop(s) matches Some((n, _, _)) ==> m < n ==> spec_apop(s.take(m)) is None,
        crate::transaction::command::spec_stat(s) matches Some(n) ==> m < n
            ==> crate::transaction::command::spec_stat(s.take(m)) is None,
        crate::transaction::command::spec_list(s) matches Some((n, _)) ==> m < n
            ==> crate::transaction::command::spec_list(s.take(m)) is None,
        spec_retr(s) matches Some((n, _)) ==> m < n ==> spec_retr(s.take(m)) is None,
        spec_dele(s) matches Some((n, _)) ==> m < n ==> spec_dele(s.take(m)) is None,
        spec_noop(s) matches Some(n) ==> m < n ==> spec_noop(s.take(m)) is None,
        spec_rset(s) matches Some(n) ==> m < n ==> spec_rset(s.take(m)) is None,
        spec_top(s) matches Some((n, _, _)) ==> m < n ==> spec_top(s.take(m)) is None,
        crate::transaction::command::spec_uidl(s) matches Some((n, _)) ==> m < n
            ==> crate::transaction::command::spec_uidl(s.take(m)) is None,
        spec_quit(s) matches Some(n) ==> m < n ==> spec_quit(s.take(m)) is None,
{
    lemma_commands_are_first_lines(s);
    match first_occurrence(s, CRLF@) {
        Some(i) => {
            lemma_first_occurrence_is_first(s, CRLF@);
            if m < i + 2 {
                lemma_cut_before_end_of_first(s, CRLF@, i, m);
                lemma_commands_need_crlf(s.take(m));
            } else {
                assert forall|j: int| first_at(s, CRLF@, j) implies j == i by {
                    lemma_first_occurrence_at(s, CRLF@, j);
                }
            }
        },
        None => {
            assert forall|j: int| !first_at(s, CRLF@, j) by {
                if first_at(s, CRLF@, j) {
                    lemma_first_occurrence_at(s, CRLF@, j);
                }
            }
        },
    }
}

/// A response of one line cut short is no response: where a decoder takes a
/// line of `n` bytes, it gives `None` for fewer than `n` of them.
pub proof fn lemma_cut_line_is_no_match(s: Seq<u8>, m: int)
    requires
        0 <= m,
    ensures
        spec_one_line(s) matches Some((n, _, _)) ==> m < n ==> spec_one_line(s.take(m)) is None,
        spec_stat(s) matches Some((n, _, _, _, _)) ==> m < n ==> spec_stat(s.take(m)) is None,
        spec_list_one_line(s) matches Some((n, _, _, _)) ==> m < n ==> spec_list(
            s.take(m),
        ) is None,
        spec_uidl_one_line(s) matches Some((n, _, _, _)) ==> m < n ==> spec_uidl(
            s.take(m),
        ) is None,
{
    lemma_lines_are_first_lines(s);
    match first_occurrence(s, CRLF@) {
        Some(i) => {
            lemma_first_occurrence_is_first(s, CRLF@);
            if m < i + 2 {
                lemma_cut_before_end_of_first(s, CRLF@, i, m);
                lemma_responses_need_crlf(s.take(m));
            } else {
                assert forall|j: int| first_at(s, CRLF@, j) implies j == i by {
                    lemma_first_occurrence_at(s, CRLF@, j);
                }
            }
        },
        None => {
            assert forall|j: int| !first_at(s, CRLF@, j) by {
                if first_at(s, CRLF@, j) {
                    lemma_first_occurrence_at(s, CRLF@, j);
                }
            }
        },
    }
}

/// A response with a message body cut short is no response: where the
/// decoder takes `n` bytes, it gives `None` for fewer than `n` of them.
pub proof fn lemma_cut_message_is_no_match(s: Seq<u8>, m: int)
    requires
        spec_message(s) matches Some((n, _, _, _)) && 0 <= m < n,
    ensures
        spec_message(s.take(m)) is None,
{
    lemma_literals_no_cr();
    let cut = s.take(m);
    let end = END_OF_MULTI_LINE@;
    let (k, _) = spec_status_indicator(s).unwrap();
    if k == 3 {
        lemma_literal_no_cr(s, POSITIVE@);
    } else {
        lemma_literal_no_cr(s, NEGATIVE@);
    }
    lemma_step_sp(s, k);
    lemma_step_line(s, k + 1);
    let line = s.skip(k + 1);
    lemma_first_occurrence_is_first(line, CRLF@);
    let (n1, _) = spec_line(line).unwrap();
    let lines = line.skip(n1);
    lemma_first_occurrence_is_first(lines, end);
    let (n2, _) = spec_terminated(lines, end).unwrap();
    if m < k + 1 + n1 {
        lemma_cut_before_end_of_first(s, CRLF@, k + 1 + n1 - 2, m);
        lemma_responses_need_crlf(cut);
    } else {
        lemma_starts_with_in_prefix(s, POSITIVE@, m);
        lemma_starts_with_in_prefix(s, NEGATIVE@, m);
        assert(cut.skip(k) =~= s.skip(k).take(m - k));
        lemma_starts_with_in_prefix(s.skip(k), SP@, m - k);
        assert(cut.skip(k).skip(1) =~= line.take(m - k - 1));
        lemma_first_in_prefix(line, CRLF@, n1 - 2, m - k - 1);
        lemma_first_occurrence_at(line.take(m - k - 1), CRLF@, n1 - 2);
        assert(line.take(m - k - 1).skip(n1) =~= lines.take(m - k - 1 - n1));
        lemma_cut_before_end_of_first(lines, end, n2 - 5, m - k - 1 - n1);
        lemma_first_occurrence_none(lines.take(m - k - 1 - n1), end);
    }
}

/// A multi-line listing cut short is no multi-line listing: where the
/// decoder of the multi-line form takes `n` bytes, it gives `None` for fewer
/// than `n` of them, and what the listing decoder then gives is what the
/// decoder for one line gives.
pub proof fn lemma_cut_listing_is_not_multi_line(s: Seq<u8>, m: int)
    requires
        0 <= m,
    ensures
        spec_list_multi_line(s) matches Some((n, _, _)) ==> m < n ==> spec_list_multi_line(
            s.take(m),
        ) is None && spec_list(s.take(m)) == spec_list_one_line(s.take(m)),
        spec_uidl_multi_line(s) matches Some((n, _, _)) ==> m < n ==> spec_uidl_multi_line(
            s.take(m),
        ) is None && spec_uidl(s.take(m)) == spec_uidl_one_line(s.take(m)),
{
    lemma_listing_ends_at_first_end(s);
    match spec_list_multi_line(s) {
        Some((n, _, _)) => {
            if m < n {
                lemma_cut_before_end_of_first(s, END_OF_MULTI_LINE@, n - 5, m);
                lemma_multi_line_needs_its_end(s.take(m));
            }
        },
        None => {},
    }
    match spec_uidl_multi_line(s) {
        Some((n, _, _)) => {
            if m < n {
                lemma_cut_before_end_of_first(s, END_OF_MULTI_LINE@, n - 5, m);
                lemma_multi_line_needs_its_end(s.take(m));
            }
        },
        None => {},
    }
}

/// The keyword of a command is read without regard to the case of its
/// letters: bytes that differ in nothing but the case of letters among the
/// first four decode to the same command.
pub proof fn lemma_commands_ignore_case_of_keyword(a: Seq<u8>, b: Seq<u8>)
    requires
        same_but_for_case(a, b, 4),
    ensures
        spec_user(a) == spec_user(b),
        spec_pass(a) == spec_pass(b),
        spec_apop(a) == spec_apop(b),
        crate::transaction::command::spec_stat(a) == crate::transaction::command::spec_stat(b),
        crate::transaction::command::spec_list(a) == crate::transaction::command::spec_list(b),
        spec_retr(a) == spec_retr(b),
        spec_dele(a) == spec_dele(b),
        spec_noop(a) == spec_noop(b),
        spec_rset(a) == spec_rset(b),
        spec_top(a) == spec_top(b),
        crate::transaction::command::spec_uidl(a) == crate::transaction::command::spec_uidl(b),
        spec_quit(a) == spec_quit(b),
{
    lemma_same_but_for_case(a, b, 4, USER@);
    lemma_same_but_for_case(a, b, 4, PASS@);
    lemma_same_but_for_case(a, b, 4, APOP@);
    lemma_same_but_for_case(a, b, 4, STAT@);
    lemma_same_but_for_case(a, b, 4, LIST@);
    lemma_same_but_for_case(a, b, 4, RETR@);
    lemma_same_but_for_case(a, b, 4, DELE@);
    lemma_same_but_for_case(a, b, 4, NOOP@);
    lemma_same_but_for_case(a, b, 4, RSET@);
    lemma_same_but_for_case(a, b, 4, TOP@);
    lemma_same_but_for_case(a, b, 4, UIDL@);
    lemma_same_but_for_case(a, b, 4, QUIT@);
    if a.len() >= 4 {
        assert(a.skip(4) == b.skip(4));
    }
    if a.len() >= 5 {
        assert(a.skip(5) == b.skip(5));
    }
}

/// The status indicator is read without regard to the case of its letters:
/// bytes that differ from a response in nothing but the case of letters
/// within its status indicator decode to the same response.
pub proof fn lemma_responses_ignore_case_of_status(a: Seq<u8>, b: Seq<u8>)
    requires
        spec_status_indicator(a) matches Some((k, _)) && same_but_for_case(a, b, k),
    ensures
        spec_status_indicator(a) == spec_status_indicator(b),
        spec_one_line(a) == spec_one_line(b),
        spec_message(a) == spec_message(b),
        spec_stat(a) == spec_stat(b),
        spec_list(a) == spec_list(b),
        spec_uidl(a) == spec_uidl(b),
{
    let k = spec_status_indicator(a).unwrap().0;
    lemma_same_but_for_case(a, b, k, POSITIVE@);
    lemma_same_but_for_case(a, b, k, NEGATIVE@);
    assert(a.skip(k) == b.skip(k));
}

/// The entries of a scan listing stay within the bytes that they are read
/// from.
proof fn lemma_scan_entries_bounds(s: Seq<u8>)
    ensures
        0 <= spec_scan_entries(s).0 <= s.len(),
    decreases s.len(),
{
    lemma_scan_entry_bounds(s);
    match spec_scan_entry(s) {
        Some((n, _)) => {
            lemma_scan_entries_bounds(s.skip(n));
        },
        None => {},
    }
}

/// The entries of a unique-id listing stay within the bytes that they are
/// read from.
proof fn lemma_unique_id_entries_bounds(s: Seq<u8>)
    ensures
        0 <= spec_unique_id_entries(s).0 <= s.len(),
    decreases s.len(),
{
    lemma_unique_id_entry_bounds(s);
    match spec_unique_id_entry(s) {
        Some((n, _)) => {
            lemma_unique_id_entries_bounds(s.skip(n));
        },
        None => {},
    }
}

/// The text behind the `+OK` of a listing stays within the bytes that it is
/// read from.
proof fn lemma_listing_text_bounds(s: Seq<u8>)
    ensures
        0 <= spec_listing_text(s).0 <= s.len(),
{
    if starts_with(s, SP@) {
        lemma_first_occurrence_is_first(s.skip(1), CRLF@);
    }
}

/// No response of one line is decoded from bytes in which no CRLF stands.
proof fn lemma_one_line_needs_crlf(s: Seq<u8>)
    requires
        !occurs(s, CRLF@),
    ensures
        spec_one_line(s) is None,
{
    match spec_status_indicator(s) {
        Some((k, _)) => {
            lemma_absent_behind(s, k, CRLF@);
            if starts_with(s.skip(k), SP@) {
                lemma_absent_behind(s.skip(k), 1, CRLF@);
            }
        },
        None => {},
    }
}

/// No positive line with two numbers is decoded from bytes in which no CRLF
/// stands.
proof fn lemma_positive_pair_needs_crlf(s: Seq<u8>)
    requires
        !occurs(s, CRLF@),
    ensures
        spec_positive_pair(s) is None,
{
    if starts_with_no_case(s, POSITIVE@) && starts_with(s.skip(3), SP@) {
        let pair = s.skip(3).skip(1);
        lemma_absent_behind(s, 3, CRLF@);
        lemma_absent_behind(s.skip(3), 1, CRLF@);
        lemma_number_pair_bounds(pair);
        match spec_number_pair(pair) {
            Some((n, _, _)) => {
                lemma_absent_behind(pair, n, CRLF@);
            },
            None => {},
        }
    }
}

/// No keyword and no status literal holds a carriage return.
proof fn lemma_literals_no_cr()
    ensures
        no_cr(POSITIVE@, 0, 3),
        no_cr(NEGATIVE@, 0, 4),
        no_cr(USER@, 0, 5),
        no_cr(PASS@, 0, 5),
        no_cr(APOP@, 0, 5),
        no_cr(STAT@, 0, 4),
        no_cr(LIST@, 0, 4),
        no_cr(RETR@, 0, 5),
        no_cr(DELE@, 0, 5),
        no_cr(NOOP@, 0, 4),
        no_cr(RSET@, 0, 4),
        no_cr(TOP@, 0, 4),
        no_cr(UIDL@, 0, 4),
        no_cr(QUIT@, 0, 4),
{
}

/// Behind a space that follows bytes without a carriage return, there is
/// still none.
proof fn lemma_step_sp(s: Seq<u8>, p: int)
    requires
        0 <= p <= s.len(),
        no_cr(s, 0, p),
        starts_with(s.skip(p), SP@),
    ensures
        no_cr(s, 0, p + 1),
        p + 1 <= s.len(),
        s.skip(p).skip(1) == s.skip(p + 1),
{
    assert(s.skip(p).take(1)[0] == SP@[0]);
    assert(s.skip(p)[0] == s[p]);
    assert(s.skip(p).skip(1) =~= s.skip(p + 1));
}

/// Behind the digits that follow bytes without a carriage return, there is
/// still none.
proof fn lemma_step_digits(s: Seq<u8>, p: int)
    requires
        0 <= p <= s.len(),
        no_cr(s, 0, p),
    ensures
        no_cr(s, 0, p + digit_run(s.skip(p))),
        p + digit_run(s.skip(p)) <= s.len(),
        s.skip(p).skip(digit_run(s.skip(p)) as int) == s.skip(p + digit_run(s.skip(p))),
{
    let d = digit_run(s.skip(p)) as int;
    lemma_digits_no_cr(s.skip(p));
    lemma_no_cr_behind(s, p, d);
    assert(s.skip(p).skip(d) =~= s.skip(p + d));
}

/// A CRLF that follows bytes without a carriage return is the first one.
proof fn lemma_step_crlf(s: Seq<u8>, p: int)
    requires
        0 <= p <= s.len(),
        no_cr(s, 0, p),
        starts_with(s.skip(p), CRLF@),
    ensures
        first_at(s, CRLF@, p),
{
    lemma_no_cr_no_crlf(s, p);
    lemma_starts_with_occurs(s.skip(p), CRLF@);
    lemma_first_behind(s, p, CRLF@, 0);
}

/// The first CRLF behind bytes without a carriage return is the first one.
proof fn lemma_step_line(s: Seq<u8>, p: int)
    requires
        0 <= p <= s.len(),
        no_cr(s, 0, p),
    ensures
        first_occurrence(s.skip(p), CRLF@) matches Some(i) ==> first_at(s, CRLF@, p + i),
{
    lemma_no_cr_no_crlf(s, p);
    lemma_first_occurrence_is_first(s.skip(p), CRLF@);
    match first_occurrence(s.skip(p), CRLF@) {
        Some(i) => {
            lemma_first_behind(s, p, CRLF@, i);
        },
        None => {},
    }
}

/// A response of status and text is the first line of the bytes.
proof fn lemma_one_line_is_first_line(s: Seq<u8>)
    ensures
        spec_one_line(s) matches Some((n, _, _)) ==> first_at(s, CRLF@, n - 2),
{
    lemma_literals_no_cr();
    match spec_status_indicator(s) {
        Some((k, _)) => {
            if k == 3 {
                lemma_literal_no_cr(s, POSITIVE@);
            } else {
                lemma_literal_no_cr(s, NEGATIVE@);
            }
            if starts_with(s.skip(k), CRLF@) {
                lemma_step_crlf(s, k);
            } else if starts_with(s.skip(k), SP@) {
                lemma_step_sp(s, k);
                lemma_step_line(s, k + 1);
            }
        },
        None => {},
    }
}

/// The positive line with two numbers is the first line of the bytes.
proof fn lemma_positive_pair_is_first_line(s: Seq<u8>)
    ensures
        spec_positive_pair(s) matches Some((n, _, _)) ==> first_at(s, CRLF@, n - 2),
{
    lemma_literals_no_cr();
    if starts_with_no_case(s, POSITIVE@) && starts_with(s.skip(3), SP@) {
        lemma_literal_no_cr(s, POSITIVE@);
        lemma_step_sp(s, 3);
        lemma_step_digits(s, 4);
        let p: int = 4int + digit_run(s.skip(4));
        if starts_with(s.skip(p), SP@) {
            lemma_step_sp(s, p);
            lemma_step_digits(s, p + 1);
            let q: int = p + 1 + digit_run(s.skip(p + 1));
            assert(s.skip(4).skip(q - 4) =~= s.skip(q));
            if starts_with(s.skip(q), CRLF@) {
                lemma_step_crlf(s, q);
            }
        }
    }
}

/// The positive line with a number and an identifier is the first line of
/// the bytes.
proof fn lemma_positive_number_and_id_is_first_line(s: Seq<u8>)
    ensures
        spec_positive_number_and_id(s) matches Some((n, _, _)) ==> first_at(s, CRLF@, n - 2),
{
    lemma_literals_no_cr();
    if starts_with_no_case(s, POSITIVE@) && starts_with(s.skip(3), SP@) {
        lemma_literal_no_cr(s, POSITIVE@);
        lemma_step_sp(s, 3);
        lemma_step_digits(s, 4);
        let p: int = 4int + digit_run(s.skip(4));
        if starts_with(s.skip(p), SP@) {
            lemma_step_sp(s, p);
            lemma_step_line(s, p + 1);
        }
    }
}

/// A command that is its keyword alone is the first line of the bytes.
proof fn lemma_bare_command_is_first_line(keyword: Seq<u8>, s: Seq<u8>)
    requires
        no_cr(keyword, 0, keyword.len() as int),
    ensures
        spec_bare_command(keyword, s) matches Some(n) ==> first_at(s, CRLF@, n - 2),
{
    if starts_with_no_case(s, keyword) {
        lemma_literal_no_cr(s, keyword);
        if starts_with(s.skip(keyword.len() as int), CRLF@) {
            lemma_step_crlf(s, keyword.len() as int);
        }
    }
}

/// A command with one argument is the first line of the bytes.
proof fn lemma_argument_command_is_first_line(keyword: Seq<u8>, s: Seq<u8>)
    requires
        no_cr(keyword, 0, keyword.len() as int),
    ensures
        spec_argument_command(keyword, s) matches Some((n, _)) ==> first_at(s, CRLF@, n - 2),
{
    if starts_with_no_case(s, keyword) {
        lemma_literal_no_cr(s, keyword);
        lemma_step_line(s, keyword.len() as int);
    }
}

/// A command with an optional number is the first line of the bytes.
proof fn lemma_optional_number_command_is_first_line(keyword: Seq<u8>, s: Seq<u8>)
    requires
        no_cr(keyword, 0, keyword.len() as int),
    ensures
        spec_optional_number_command(keyword, s) matches Some((n, _)) ==> first_at(
            s,
            CRLF@,
            n - 2,
        ),
{
    let k = keyword.len() as int;
    if starts_with_no_case(s, keyword) {
        lemma_literal_no_cr(s, keyword);
        if starts_with(s.skip(k), CRLF@) {
            lemma_step_crlf(s, k);
        } else if starts_with(s.skip(k), SP@) {
            lemma_step_sp(s, k);
            lemma_step_digits(s, k + 1);
            let p: int = k + 1 + digit_run(s.skip(k + 1));
            if starts_with(s.skip(p), CRLF@) {
                lemma_step_crlf(s, p);
            }
        }
    }
}

/// A command with one number is the first line of the bytes.
proof fn lemma_number_command_is_first_line(keyword: Seq<u8>, s: Seq<u8>)
    requires
        no_cr(keyword, 0, keyword.len() as int),
    ensures
        spec_number_command(keyword, s) matches Some((n, _)) ==> first_at(s, CRLF@, n - 2),
{
    let k = keyword.len() as int;
    if starts_with_no_case(s, keyword) {
        lemma_literal_no_cr(s, keyword);
        lemma_step_digits(s, k);
        let p: int = k + digit_run(s.skip(k));
        if starts_with(s.skip(p), CRLF@) {
            lemma_step_crlf(s, p);
        }
    }
}

/// A command with two numbers is the first line of the bytes.
proof fn lemma_two_numbers_command_is_first_line(keyword: Seq<u8>, s: Seq<u8>)
    requires
        no_cr(keyword, 0, keyword.len() as int),
    ensures
        spec_two_numbers_command(keyword, s) matches Some((n, _, _)) ==> first_at(
            s,
            CRLF@,
            n - 2,
        ),
{
    let k = keyword.len() as int;
    if starts_with_no_case(s, keyword) {
        lemma_literal_no_cr(s, keyword);
        lemma_step_digits(s, k);
        let p: int = k + digit_run(s.skip(k));
        if starts_with(s.skip(p), SP@) {
            lemma_step_sp(s, p);
            lemma_step_digits(s, p + 1);
            let q: int = p + 1 + digit_run(s.skip(p + 1));
            if starts_with(s.skip(q), CRLF@) {
                lemma_step_crlf(s, q);
            }
        }
    }
}

/// Where the end of a multi-line response stands, there stand a carriage
/// return, a line feed and a dot.
proof fn lemma_end_begins_with_crlf_and_dot(s: Seq<u8>, j: int)
    requires
        occurs_at(s, END_OF_MULTI_LINE@, j),
    ensures
        s[j] == 0x0d,
        s[j + 1] == 0x0a,
        s[j + 2] == 0x2e,
        occurs_at(s, CRLF@, j),
{
    let end = END_OF_MULTI_LINE@;
    assert(s.subrange(j, j + 5)[0] == end[0]);
    assert(s.subrange(j, j + 5)[1] == end[1]);
    assert(s.subrange(j, j + 5)[2] == end[2]);
    assert(s.subrange(j, j + 2) =~= CRLF@);
}

/// The end of a multi-line response begins nowhere within an entry of a scan
/// listing.
proof fn lemma_scan_entry_holds_no_end(s: Seq<u8>)
    ensures
        spec_scan_entry(s) matches Some((n, _)) ==> forall|j: int|
            0 <= j < n ==> !occurs_at(s, END_OF_MULTI_LINE@, j),
{
    match spec_scan_entry(s) {
        Some((n, _)) => {
            let pair = s.skip(2);
            assert(s.take(2)[0] == CRLF@[0]);
            assert(s.take(2)[1] == CRLF@[1]);
            assert(pair.skip(0) =~= pair);
            lemma_step_digits(pair, 0);
            let p = digit_run(pair) as int;
            lemma_step_sp(pair, p);
            lemma_step_digits(pair, p + 1);
            assert(is_digit(pair[0])) by {
                lemma_digit_run(pair);
            }
            assert forall|j: int| 0 <= j < n implies !occurs_at(s, END_OF_MULTI_LINE@, j) by {
                if occurs_at(s, END_OF_MULTI_LINE@, j) {
                    lemma_end_begins_with_crlf_and_dot(s, j);
                    if j == 0 {
                        assert(s[2] == pair[0]);
                    } else if j >= 2 {
                        assert(s[j] == pair[j - 2]);
                    }
                }
            }
        },
        None => {},
    }
}

/// The end of a multi-line response begins nowhere within an entry of a
/// unique-id listing.
proof fn lemma_unique_id_entry_holds_no_end(s: Seq<u8>)
    ensures
        spec_unique_id_entry(s) matches Some((n, _)) ==> forall|j: int|
            0 <= j < n ==> !occurs_at(s, END_OF_MULTI_LINE@, j),
{
    match spec_unique_id_entry(s) {
        Some((n, _)) => {
            let listing = s.skip(2);
            assert(s.take(2)[0] == CRLF@[0]);
            assert(s.take(2)[1] == CRLF@[1]);
            assert(listing.skip(0) =~= listing);
            lemma_step_digits(listing, 0);
            let p = digit_run(listing) as int;
            lemma_step_sp(listing, p);
            lemma_step_line(listing, p + 1);
            assert(is_digit(listing[0])) by {
                lemma_digit_run(listing);
            }
            assert forall|j: int| 0 <= j < n implies !occurs_at(s, END_OF_MULTI_LINE@, j) by {
                if occurs_at(s, END_OF_MULTI_LINE@, j) {
                    lemma_end_begins_with_crlf_and_dot(s, j);
                    if j == 0 {
                        assert(s[2] == listing[0]);
                    } else if j >= 2 {
                        assert(s.subrange(j, j + 2) =~= listing.subrange(j - 2, j));
                        assert(occurs_at(listing, CRLF@, j - 2));
                    }
                }
            }
        },
        None => {},
    }
}

/// The end of a multi-line response begins nowhere within the entries of a
/// scan listing.
proof fn lemma_scan_entries_hold_no_end(s: Seq<u8>)
    ensures
        forall|j: int| 0 <= j < spec_scan_entries(s).0 ==> !occurs_at(s, END_OF_MULTI_LINE@, j),
    decreases s.len(),
{
    let end = END_OF_MULTI_LINE@;
    lemma_scan_entry_bounds(s);
    lemma_scan_entry_holds_no_end(s);
    match spec_scan_entry(s) {
        Some((n, _)) => {
            lemma_scan_entries_hold_no_end(s.skip(n));
            assert forall|j: int| 0 <= j < spec_scan_entries(s).0 implies !occurs_at(
                s,
                end,
                j,
            ) by {
                if j >= n && occurs_at(s, end, j) {
                    assert(s.skip(n).subrange(j - n, j - n + 5) =~= s.subrange(j, j + 5));
                    assert(occurs_at(s.skip(n), end, j - n));
                }
            }
        },
        None => {},
    }
}

/// The end of a multi-line response begins nowhere within the entries of a
/// unique-id listing.
proof fn lemma_unique_id_entries_hold_no_end(s: Seq<u8>)
    ensures
        forall|j: int|
            0 <= j < spec_unique_id_entries(s).0 ==> !occurs_at(s, END_OF_MULTI_LINE@, j),
    decreases s.len(),
{
    let end = END_OF_MULTI_LINE@;
    lemma_unique_id_entry_bounds(s);
    lemma_unique_id_entry_holds_no_end(s);
    match spec_unique_id_entry(s) {
        Some((n, _)) => {
            lemma_unique_id_entries_hold_no_end(s.skip(n));
            assert forall|j: int| 0 <= j < spec_unique_id_entries(s).0 implies !occurs_at(
                s,
                end,
                j,
            ) by {
                if j >= n && occurs_at(s, end, j) {
                    assert(s.skip(n).subrange(j - n, j - n + 5) =~= s.subrange(j, j + 5));
                    assert(occurs_at(s.skip(n), end, j - n));
                }
            }
        },
        None => {},
    }
}

/// No CRLF stands in `+OK` and the text that may follow it in a listing.
proof fn lemma_listing_text_holds_no_crlf(s: Seq<u8>)
    requires
        starts_with_no_case(s, POSITIVE@),
    ensures
        forall|j: int| 0 <= j < 3 + spec_listing_text(s.skip(3)).0 ==> !occurs_at(s, CRLF@, j),
        0 <= spec_listing_text(s.skip(3)).0 <= s.len() - 3,
{
    lemma_literals_no_cr();
    lemma_literal_no_cr(s, POSITIVE@);
    lemma_no_cr_no_crlf(s, 3);
    if starts_with(s.skip(3), SP@) {
        lemma_step_sp(s, 3);
        lemma_no_cr_no_crlf(s, 4);
        lemma_step_line(s, 4);
        lemma_first_occurrence_is_first(s.skip(4), CRLF@);
    }
}

} // verus!
