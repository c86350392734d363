//! Grammar primitives: the vocabulary in which the grammars are stated, and
//! the four leaf parsers, which are those of `nom`.
use vstd::prelude::*;

verus! {

/// The line terminator.
pub const CRLF: [u8; 2] = ['\r' as u8, '\n' as u8];

/// The separator between the tokens of a line.
pub const SP: [u8; 1] = [' ' as u8];

/// The terminator of a multi-line response: a line that holds a dot alone,
/// together with the line terminator before it.
pub const END_OF_MULTI_LINE: [u8; 5] = ['\r' as u8, '\n' as u8, '.' as u8, '\r' as u8, '\n' as u8];

/// The literal of a positive status indicator.
pub const POSITIVE: [u8; 3] = ['+' as u8, 'O' as u8, 'K' as u8];

/// The literal of a negative status indicator.
pub const NEGATIVE: [u8; 4] = ['-' as u8, 'E' as u8, 'R' as u8, 'R' as u8];

/// The ASCII lower-case form of a byte; bytes other than `A`..`Z` are kept.
pub open spec fn lower(b: u8) -> u8 {
    if 0x41 <= b <= 0x5a {
        (b + 0x20) as u8
    } else {
        b
    }
}

/// `lit` is a prefix of `s`.
pub open spec fn starts_with(s: Seq<u8>, lit: Seq<u8>) -> bool {
    lit.len() <= s.len() && s.take(lit.len() as int) == lit
}

/// `lit` is a prefix of `s` up to the case of ASCII letters.
pub open spec fn starts_with_no_case(s: Seq<u8>, lit: Seq<u8>) -> bool {
    lit.len() <= s.len() && forall|i: int| 0 <= i < lit.len() ==> lower(s[i]) == lower(lit[i])
}

/// `pat` stands in `s` at index `i`.
pub open spec fn occurs_at(s: Seq<u8>, pat: Seq<u8>, i: int) -> bool {
    0 <= i && i + pat.len() <= s.len() && s.subrange(i, i + pat.len()) == pat
}

/// `pat` stands somewhere in `s`.
pub open spec fn occurs(s: Seq<u8>, pat: Seq<u8>) -> bool {
    exists|i: int| occurs_at(s, pat, i)
}

/// `i` is the least index at which `pat` stands in `s`.
pub open spec fn first_at(s: Seq<u8>, pat: Seq<u8>, i: int) -> bool {
    occurs_at(s, pat, i) && forall|j: int| 0 <= j < i ==> !occurs_at(s, pat, j)
}

/// The least index at which `pat` stands in `s`, if it stands anywhere.
pub open spec fn first_occurrence(s: Seq<u8>, pat: Seq<u8>) -> Option<int> {
    if exists|i: int| first_at(s, pat, i) {
        Some(choose|i: int| first_at(s, pat, i))
    } else {
        None
    }
}

/// `b` is an ASCII decimal digit.
pub open spec fn is_digit(b: u8) -> bool {
    0x30 <= b <= 0x39
}

/// Every byte of `s` is a decimal digit.
pub open spec fn all_digits(s: Seq<u8>) -> bool {
    forall|i: int| 0 <= i < s.len() ==> is_digit(s[i])
}

/// The first `n` bytes of `s` are digits and the digits end there.
pub open spec fn digits_end_at(s: Seq<u8>, n: int) -> bool {
    &&& 0 <= n <= s.len()
    &&& forall|i: int| 0 <= i < n ==> is_digit(s[i])
    &&& n < s.len() ==> !is_digit(s[n])
}

/// The number of decimal digits with which `s` begins.
pub open spec fn digit_run(s: Seq<u8>) -> nat
    decreases s.len(),
{
    if s.len() > 0 && is_digit(s[0]) {
        1 + digit_run(s.skip(1))
    } else {
        0
    }
}

/// The number that a sequence of decimal digits writes.
pub open spec fn decimal_value(digits: Seq<u8>) -> nat
    decreases digits.len(),
{
    if digits.len() == 0 {
        0
    } else {
        10 * decimal_value(digits.drop_last()) + (digits.last() - 0x30) as nat
    }
}

/// An occurrence that is the least one is the first occurrence.
pub proof fn lemma_first_occurrence_at(s: Seq<u8>, pat: Seq<u8>, i: int)
    requires
        first_at(s, pat, i),
    ensures
        first_occurrence(s, pat) == Some(i),
{
    let k = choose|k: int| first_at(s, pat, k);
    assert(first_at(s, pat, k));
    if k < i {
        assert(!occurs_at(s, pat, k));
    } else if i < k {
        assert(!occurs_at(s, pat, i));
    }
}

/// Where the pattern stands nowhere there is no first occurrence.
pub proof fn lemma_first_occurrence_none(s: Seq<u8>, pat: Seq<u8>)
    requires
        !occurs(s, pat),
    ensures
        first_occurrence(s, pat) is None,
{
    assert forall|i: int| !first_at(s, pat, i) by {
        if occurs_at(s, pat, i) {
            assert(occurs(s, pat));
        }
    }
}

/// The first occurrence is an occurrence, and the least one.
pub proof fn lemma_first_occurrence_is_first(s: Seq<u8>, pat: Seq<u8>)
    ensures
        first_occurrence(s, pat) matches Some(i) ==> first_at(s, pat, i),
{
}

/// The digits of `s` end at `digit_run(s)`, and nowhere else.
pub proof fn lemma_digit_run(s: Seq<u8>)
    ensures
        digits_end_at(s, digit_run(s) as int),
        forall|n: int| digits_end_at(s, n) ==> n == digit_run(s),
    decreases s.len(),
{
    if s.len() > 0 && is_digit(s[0]) {
        let t = s.skip(1);
        lemma_digit_run(t);
        let m = digit_run(t) as int;
        assert forall|i: int| 0 <= i < m + 1 implies is_digit(s[i]) by {
            if i > 0 {
                assert(s[i] == t[i - 1]);
            }
        }
        if m + 1 < s.len() {
            assert(s[m + 1] == t[m]);
        }
        assert forall|n: int| digits_end_at(s, n) implies n == digit_run(s) by {
            assert(n > 0);
            assert forall|i: int| 0 <= i < n - 1 implies is_digit(t[i]) by {
                assert(t[i] == s[i + 1]);
            }
            if n - 1 < t.len() {
                assert(t[n - 1] == s[n]);
            }
            assert(digits_end_at(t, n - 1));
        }
    } else {
        assert forall|n: int| digits_end_at(s, n) implies n == 0 by {
            if n > 0 {
                assert(is_digit(s[0]));
            }
        }
    }
}

/// A prefix of a digit sequence writes no more than the whole.
pub proof fn lemma_decimal_value_prefix(digits: Seq<u8>, k: int)
    requires
        all_digits(digits),
        0 <= k <= digits.len(),
    ensures
        decimal_value(digits.take(k)) <= decimal_value(digits),
    decreases digits.len(),
{
    if k == digits.len() {
        assert(digits.take(k) =~= digits);
    } else {
        let shorter = digits.drop_last();
        lemma_decimal_value_prefix(shorter, k);
        assert(shorter.take(k) =~= digits.take(k));
        assert(is_digit(digits.last()));
    }
}

/// What `s` begins with stands in `s`.
pub proof fn lemma_starts_with_occurs(s: Seq<u8>, lit: Seq<u8>)
    requires
        starts_with(s, lit),
    ensures
        occurs_at(s, lit, 0),
        occurs(s, lit),
{
    assert(s.subrange(0, lit.len() as int) =~= s.take(lit.len() as int));
    assert(occurs_at(s, lit, 0));
}

/// What stands in `s` behind its first `k` bytes stands in `s`.
pub proof fn lemma_occurs_behind(s: Seq<u8>, k: int, pat: Seq<u8>)
    requires
        0 <= k <= s.len(),
        occurs(s.skip(k), pat),
    ensures
        occurs(s, pat),
{
    let i = choose|i: int| occurs_at(s.skip(k), pat, i);
    assert(s.skip(k).subrange(i, i + pat.len()) =~= s.subrange(k + i, k + i + pat.len()));
    assert(occurs_at(s, pat, k + i));
}

/// What stands nowhere in `s` stands nowhere behind its first `k` bytes.
pub proof fn lemma_absent_behind(s: Seq<u8>, k: int, pat: Seq<u8>)
    requires
        0 <= k <= s.len(),
        !occurs(s, pat),
    ensures
        !occurs(s.skip(k), pat),
        !starts_with(s.skip(k), pat),
        first_occurrence(s.skip(k), pat) is None,
{
    if occurs(s.skip(k), pat) {
        lemma_occurs_behind(s, k, pat);
    }
    if starts_with(s.skip(k), pat) {
        lemma_starts_with_occurs(s.skip(k), pat);
    }
    lemma_first_occurrence_none(s.skip(k), pat);
}

/// Bytes cut short before the end of the first occurrence of a pattern hold
/// no occurrence of it.
pub proof fn lemma_cut_before_end_of_first(s: Seq<u8>, pat: Seq<u8>, i: int, m: int)
    requires
        first_at(s, pat, i),
        0 <= m < i + pat.len(),
    ensures
        !occurs(s.take(m), pat),
{
    assert forall|j: int| !occurs_at(s.take(m), pat, j) by {
        if occurs_at(s.take(m), pat, j) {
            assert(s.take(m).subrange(j, j + pat.len()) =~= s.subrange(j, j + pat.len()));
            assert(occurs_at(s, pat, j));
        }
    }
}

/// Bytes cut behind the first occurrence of a pattern have their first
/// occurrence where the whole has it.
pub proof fn lemma_first_in_prefix(s: Seq<u8>, pat: Seq<u8>, i: int, m: int)
    requires
        first_at(s, pat, i),
        i + pat.len() <= m <= s.len(),
    ensures
        first_at(s.take(m), pat, i),
{
    assert(s.take(m).subrange(i, i + pat.len()) =~= s.subrange(i, i + pat.len()));
    assert forall|j: int| 0 <= j < i implies !occurs_at(s.take(m), pat, j) by {
        if occurs_at(s.take(m), pat, j) {
            assert(s.take(m).subrange(j, j + pat.len()) =~= s.subrange(j, j + pat.len()));
            assert(occurs_at(s, pat, j));
        }
    }
}

/// Where a pattern stands nowhere among the first `k` bytes, its first
/// occurrence behind them is its first occurrence.
pub proof fn lemma_first_behind(s: Seq<u8>, k: int, pat: Seq<u8>, i: int)
    requires
        0 <= k <= s.len(),
        first_at(s.skip(k), pat, i),
        forall|j: int| 0 <= j < k ==> !occurs_at(s, pat, j),
    ensures
        first_at(s, pat, k + i),
{
    assert(s.skip(k).subrange(i, i + pat.len()) =~= s.subrange(k + i, k + i + pat.len()));
    assert forall|j: int| 0 <= j < k + i implies !occurs_at(s, pat, j) by {
        if j >= k && occurs_at(s, pat, j) {
            assert(s.skip(k).subrange(j - k, j - k + pat.len()) =~= s.subrange(
                j,
                j + pat.len(),
            ));
            assert(occurs_at(s.skip(k), pat, j - k));
        }
    }
}

/// Bytes cut behind a literal begin with it, up to case, where the whole
/// does; so with a literal taken as it stands.
pub proof fn lemma_starts_with_in_prefix(s: Seq<u8>, lit: Seq<u8>, m: int)
    requires
        lit.len() <= m <= s.len(),
    ensures
        starts_with_no_case(s.take(m), lit) == starts_with_no_case(s, lit),
        starts_with(s.take(m), lit) == starts_with(s, lit),
{
    assert(s.take(m).take(lit.len() as int) =~= s.take(lit.len() as int));
    if starts_with_no_case(s, lit) {
        assert forall|i: int| 0 <= i < lit.len() implies lower(s.take(m)[i]) == lower(lit[i]) by {
            assert(s.take(m)[i] == s[i]);
        }
    }
    if starts_with_no_case(s.take(m), lit) {
        assert forall|i: int| 0 <= i < lit.len() implies lower(s[i]) == lower(lit[i]) by {
            assert(s.take(m)[i] == s[i]);
        }
    }
}

/// No byte of `s` from index `from` up to index `to` is a carriage return.
pub open spec fn no_cr(s: Seq<u8>, from: int, to: int) -> bool {
    forall|j: int| from <= j < to && 0 <= j < s.len() ==> #[trigger] s[j] != 0x0d
}

/// No CRLF begins where no carriage return stands.
pub proof fn lemma_no_cr_no_crlf(s: Seq<u8>, k: int)
    requires
        no_cr(s, 0, k),
    ensures
        forall|j: int| 0 <= j < k ==> !occurs_at(s, CRLF@, j),
{
    assert forall|j: int| 0 <= j < k implies !occurs_at(s, CRLF@, j) by {
        if occurs_at(s, CRLF@, j) {
            assert(s.subrange(j, j + 2)[0] == CRLF@[0]);
            assert(s[j] != 0x0d);
        }
    }
}

/// What matches a literal without a carriage return, up to case, holds none
/// where the literal stands.
pub proof fn lemma_literal_no_cr(s: Seq<u8>, lit: Seq<u8>)
    requires
        starts_with_no_case(s, lit),
        no_cr(lit, 0, lit.len() as int),
    ensures
        no_cr(s, 0, lit.len() as int),
{
    assert forall|j: int| 0 <= j < lit.len() && 0 <= j < s.len() implies #[trigger] s[j]
        != 0x0d by {
        assert(lower(s[j]) == lower(lit[j]));
        assert(lit[j] != 0x0d);
    }
}

/// The leading digits of `s` hold no carriage return.
pub proof fn lemma_digits_no_cr(s: Seq<u8>)
    ensures
        no_cr(s, 0, digit_run(s) as int),
        digit_run(s) <= s.len(),
{
    lemma_digit_run(s);
    assert forall|j: int| 0 <= j < digit_run(s) && 0 <= j < s.len() implies #[trigger] s[j]
        != 0x0d by {
        assert(is_digit(s[j]));
    }
}

/// What holds of the bytes of `s.skip(k)` holds of those bytes in `s`.
pub proof fn lemma_no_cr_behind(s: Seq<u8>, k: int, n: int)
    requires
        0 <= k <= s.len(),
        no_cr(s, 0, k),
        no_cr(s.skip(k), 0, n),
    ensures
        no_cr(s, 0, k + n),
{
    assert forall|j: int| 0 <= j < k + n && 0 <= j < s.len() implies #[trigger] s[j] != 0x0d by {
        if j >= k {
            assert(s.skip(k)[j - k] == s[j]);
        }
    }
}

/// `a` and `b` are the same bytes but for the case of the letters among their
/// first `k`.
pub open spec fn same_but_for_case(a: Seq<u8>, b: Seq<u8>, k: int) -> bool {
    &&& a.len() == b.len()
    &&& forall|i: int| 0 <= i < a.len() && i < k ==> lower(#[trigger] a[i]) == lower(b[i])
    &&& forall|i: int| 0 <= i < a.len() && i >= k ==> #[trigger] a[i] == b[i]
}

/// Where two sequences differ in the case of letters alone, both begin with
/// a literal up to case or neither does; and they are equal behind the bytes
/// in which they may differ.
pub proof fn lemma_same_but_for_case(a: Seq<u8>, b: Seq<u8>, k: int, lit: Seq<u8>)
    requires
        same_but_for_case(a, b, k),
    ensures
        starts_with_no_case(a, lit) == starts_with_no_case(b, lit),
        forall|n: int| 0 <= n && k <= n <= a.len() ==> #[trigger] a.skip(n) == b.skip(n),
{
    if lit.len() <= a.len() {
        assert forall|i: int| 0 <= i < lit.len() implies lower(a[i]) == lower(b[i]) by {
            if i >= k {
                assert(a[i] == b[i]);
            }
        }
    }
    assert forall|n: int| 0 <= n && k <= n <= a.len() implies #[trigger] a.skip(n) == b.skip(
        n,
    ) by {
        assert forall|i: int| 0 <= i < a.len() - n implies a.skip(n)[i] == b.skip(n)[i] by {
            assert(a[n + i] == b[n + i]);
        }
        assert(a.skip(n) =~= b.skip(n));
    }
}

/// Calls `nom::bytes::complete::tag`: where `s` begins with `lit`, splits `s`
/// behind it, into what follows the literal and the literal as it stands in
/// `s`; fails where `s` does not begin with `lit`.
#[verifier::external_body]
pub(crate) fn tag<'a>(lit: &[u8], s: &'a [u8]) -> (r: Option<(&'a [u8], &'a [u8])>)
    ensures
        match r {
            Some((rest, taken)) => {
                &&& starts_with(s@, lit@)
                &&& taken@ == s@.take(lit@.len() as int)
                &&& rest@ == s@.skip(lit@.len() as int)
            },
            None => !starts_with(s@, lit@),
        },
{
    let r: nom::IResult<&[u8], &[u8]> = nom::bytes::complete::tag(lit)(s);
    match r {
        Ok(parts) => Some(parts),
        Err(_) => None,
    }
}

/// Calls `nom::bytes::complete::tag_no_case`: as `tag`, but `A`..`Z` and
/// `a`..`z` are taken for the same letters on both sides.
#[verifier::external_body]
pub(crate) fn tag_no_case<'a>(lit: &[u8], s: &'a [u8]) -> (r: Option<(&'a [u8], &'a [u8])>)
    ensures
        match r {
            Some((rest, taken)) => {
                &&& starts_with_no_case(s@, lit@)
                &&& taken@ == s@.take(lit@.len() as int)
                &&& rest@ == s@.skip(lit@.len() as int)
            },
            None => !starts_with_no_case(s@, lit@),
        },
{
    let r: nom::IResult<&[u8], &[u8]> = nom::bytes::complete::tag_no_case(lit)(s);
    match r {
        Ok(parts) => Some(parts),
        Err(_) => None,
    }
}

/// Calls `nom::bytes::complete::take_until`: splits `s` before the first
/// occurrence of `pat`, into what begins with the pattern and what stands
/// before it; fails where `pat` does not occur in `s`.
#[verifier::external_body]
pub(crate) fn take_until<'a>(pat: &[u8], s: &'a [u8]) -> (r: Option<(&'a [u8], &'a [u8])>)
    ensures
        match r {
            Some((rest, taken)) => {
                &&& first_at(s@, pat@, taken@.len() as int)
                &&& taken@ == s@.take(taken@.len() as int)
                &&& rest@ == s@.skip(taken@.len() as int)
            },
            None => !occurs(s@, pat@),
        },
{
    let r: nom::IResult<&[u8], &[u8]> = nom::bytes::complete::take_until(pat)(s);
    match r {
        Ok(parts) => Some(parts),
        Err(_) => None,
    }
}

/// Calls `nom::character::complete::digit1`: splits `s` behind its leading
/// decimal digits, into what follows them and the digits; fails where `s`
/// does not begin with a digit.
#[verifier::external_body]
pub(crate) fn digit1<'a>(s: &'a [u8]) -> (r: Option<(&'a [u8], &'a [u8])>)
    ensures
        match r {
            Some((rest, taken)) => {
                &&& taken@.len() > 0
                &&& digits_end_at(s@, taken@.len() as int)
                &&& taken@ == s@.take(taken@.len() as int)
                &&& rest@ == s@.skip(taken@.len() as int)
            },
            None => digits_end_at(s@, 0),
        },
{
    let r: nom::IResult<&[u8], &[u8]> = nom::character::complete::digit1(s);
    match r {
        Ok(parts) => Some(parts),
        Err(_) => None,
    }
}

} // verus!
