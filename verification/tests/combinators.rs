//! The grammars, which the library composes by hand from four leaf parsers,
//! are held against the same grammars composed with the combinators of `nom`,
//! on bytes made by a small generator.
use nom::branch::alt;
use nom::bytes::complete::{tag, tag_no_case, take_until};
use nom::character::complete::digit1;
use nom::combinator::opt;
use nom::multi::many1;
use nom::sequence::{delimited, preceded, separated_pair, terminated, tuple};
use nom::IResult;
use rfc1939::common::StatusIndicator;

fn num(s: &[u8]) -> usize {
    std::str::from_utf8(s).ok().and_then(|x| x.parse::<usize>().ok()).unwrap_or(0)
}

fn line(s: &[u8]) -> IResult<&[u8], &[u8]> {
    terminated(take_until("\r\n"), tag(b"\r\n"))(s)
}

fn until_crlf(s: &[u8]) -> IResult<&[u8], &[u8]> {
    take_until("\r\n")(s)
}

fn status(s: &[u8]) -> IResult<&[u8], StatusIndicator> {
    alt((
        nom::combinator::map(tag_no_case(b"+OK"), |_| StatusIndicator::OK),
        nom::combinator::map(tag_no_case(b"-ERR"), |_| StatusIndicator::ERR),
    ))(s)
}

fn one_line(s: &[u8]) -> IResult<&[u8], (StatusIndicator, &[u8])> {
    nom::combinator::map(tuple((status, opt(preceded(tag(b" "), line)))), |(si, m)| {
        (si, m.unwrap_or(&[]))
    })(s)
}

fn message(s: &[u8]) -> IResult<&[u8], (StatusIndicator, &[u8], Option<&[u8]>)> {
    nom::combinator::map(
        tuple((
            status,
            tag(b" "),
            line,
            opt(terminated(take_until("\r\n.\r\n"), tag(b"\r\n.\r\n"))),
        )),
        |(si, _, m, b)| (si, m, b),
    )(s)
}

fn pair_line(s: &[u8]) -> IResult<&[u8], (usize, usize)> {
    nom::combinator::map(
        tuple((tag_no_case(b"+OK"), tag(b" "), digit1, tag(b" "), digit1, tag(b"\r\n"))),
        |(_, _, a, _, b, _): (&[u8], &[u8], &[u8], &[u8], &[u8], &[u8])| (num(a), num(b)),
    )(s)
}

fn list_multi(s: &[u8]) -> IResult<&[u8], (&[u8], Vec<(usize, usize)>)> {
    terminated(
        tuple((
            preceded(
                tag_no_case(b"+OK"),
                nom::combinator::map(opt(preceded(tag(b" "), until_crlf)), |x| x.unwrap_or(&[])),
            ),
            many1(preceded(
                tag(b"\r\n"),
                separated_pair(nom::combinator::map(digit1, num), tag(b" "), nom::combinator::map(digit1, num)),
            )),
        )),
        tag(b"\r\n.\r\n"),
    )(s)
}

fn uidl_multi(s: &[u8]) -> IResult<&[u8], (&[u8], Vec<(usize, &[u8])>)> {
    terminated(
        tuple((
            preceded(
                tag_no_case(b"+OK"),
                nom::combinator::map(opt(preceded(tag(b" "), until_crlf)), |x| x.unwrap_or(&[])),
            ),
            many1(preceded(
                tag(b"\r\n"),
                separated_pair(nom::combinator::map(digit1, num), tag(b" "), until_crlf),
            )),
        )),
        tag(b"\r\n.\r\n"),
    )(s)
}

fn uidl_single(s: &[u8]) -> IResult<&[u8], (usize, &[u8])> {
    terminated(
        nom::combinator::map(
            tuple((tag_no_case(b"+OK"), tag(b" "), nom::combinator::map(digit1, num), tag(b" "), until_crlf)),
            |(_, _, n, _, id)| (n, id),
        ),
        tag(b"\r\n"),
    )(s)
}

struct Gen(u64);

impl Gen {
    fn next(&mut self) -> usize {
        self.0 = self.0.wrapping_mul(6364136223846793005).wrapping_add(1442695040888963407);
        (self.0 >> 33) as usize
    }
    fn input(&mut self, heads: &[&[u8]]) -> Vec<u8> {
        let tokens: [&[u8]; 26] = [
            b" ", b" ", b"\r\n", b"\r\n", b"\r\n", b"\r", b"\n", b".", b"\r\n.\r\n", b"1", b"23",
            b"0", b"99999999999999999999999", b"a", b"msg", b"+OK", b"-ERR", b"+ok", b"+",
            b"-", b"x y", b"  ", b"\r\n.", b".\r\n", b"7 8", b"",
        ];
        let mut out = Vec::new();
        if self.next() % 8 != 0 {
            out.extend_from_slice(heads[self.next() % heads.len()]);
        }
        let n = self.next() % 9;
        for _ in 0..n {
            out.extend_from_slice(tokens[self.next() % tokens.len()]);
        }
        out
    }
}

const ROUNDS: usize = 40000;

#[test]
fn transaction_commands_agree_with_combinators() {
    let heads: [&[u8]; 14] = [
        b"STAT", b"stat", b"LIST", b"LIST ", b"RETR ", b"retr ", b"DELE ", b"NOOP", b"RSET",
        b"TOP ", b"UIDL", b"UIDL ", b"QUIT", b"TOP 1 ",
    ];
    let mut g = Gen(1);
    let mut hits = 0;
    for _ in 0..ROUNDS {
        let v = g.input(&heads);
        let s = &v[..];
        for (kw, mine) in [
            (&b"STAT"[..], rfc1939::transaction::command::stat_parser(s).map(|x| x.0)),
            (&b"NOOP"[..], rfc1939::transaction::command::noop_parser(s).map(|x| x.0)),
            (&b"RSET"[..], rfc1939::transaction::command::rset_parser(s).map(|x| x.0)),
            (&b"QUIT"[..], rfc1939::update::command::quit_parser(s).map(|x| x.0)),
        ] {
            let r: IResult<&[u8], &[u8]> = terminated(tag_no_case(kw), tag(b"\r\n"))(s);
            assert_eq!(r.ok().map(|x| x.0), mine, "{:?}", s);
        }
        for (kw, mine) in [
            (&b"LIST"[..], rfc1939::transaction::command::list_parser(s).map(|x| (x.0, x.1.msg))),
            (&b"UIDL"[..], rfc1939::transaction::command::uidl_parser(s).map(|x| (x.0, x.1.msg))),
        ] {
            let r: IResult<&[u8], Option<usize>> = terminated(
                nom::combinator::map(tuple((tag_no_case(kw), opt(preceded(tag(b" "), digit1)))), |(_, x): (&[u8], Option<&[u8]>)| x.map(num)),
                tag(b"\r\n"),
            )(s);
            if r.is_ok() { hits += 1; }
            assert_eq!(r.ok(), mine, "{:?}", s);
        }
        for (kw, mine) in [
            (&b"RETR "[..], rfc1939::transaction::command::retr_parser(s).map(|x| (x.0, x.1.msg))),
            (&b"DELE "[..], rfc1939::transaction::command::dele_parser(s).map(|x| (x.0, x.1.msg))),
        ] {
            let r: IResult<&[u8], usize> = delimited(tag_no_case(kw), nom::combinator::map(digit1, num), tag(b"\r\n"))(s);
            if r.is_ok() { hits += 1; }
            assert_eq!(r.ok(), mine, "{:?}", s);
        }
        let r: IResult<&[u8], (usize, usize)> = delimited(
            tag_no_case(b"TOP "),
            separated_pair(nom::combinator::map(digit1, num), tag(b" "), nom::combinator::map(digit1, num)),
            tag(b"\r\n"),
        )(s);
        if r.is_ok() { hits += 1; }
        assert_eq!(r.ok(), rfc1939::transaction::command::top_parser(s).map(|x| (x.0, (x.1.msg, x.1.n))), "{:?}", s);
    }
    assert!(hits > 300, "{}", hits);
}

#[test]
fn authorization_commands_agree_with_combinators() {
    let heads: [&[u8]; 6] = [b"USER ", b"user ", b"PASS ", b"APOP ", b"APOP a ", b"USER"];
    let mut g = Gen(2);
    let mut hits = 0;
    for _ in 0..ROUNDS {
        let v = g.input(&heads);
        let s = &v[..];
        let r: IResult<&[u8], &[u8]> = preceded(tag_no_case(b"USER "), line)(s);
        if r.is_ok() { hits += 1; }
        assert_eq!(r.ok(), rfc1939::authorization::command::user_parser(s).map(|x| (x.0, x.1.name)));
        let r: IResult<&[u8], &[u8]> = preceded(tag_no_case(b"PASS "), line)(s);
        assert_eq!(r.ok(), rfc1939::authorization::command::pass_parser(s).map(|x| (x.0, x.1.string)));
        let r: IResult<&[u8], (&[u8], &[u8])> = delimited(
            tag_no_case(b"APOP "),
            separated_pair(take_until(" "), tag(b" "), until_crlf),
            tag(b"\r\n"),
        )(s);
        let mine = rfc1939::authorization::command::apop_parser(s).map(|x| (x.0, (x.1.name, x.1.digest)));
        match r.ok() {
            Some((rest, (name, digest))) => {
                if name.windows(2).any(|w| w == b"\r\n") {
                    assert_eq!(mine, None, "{:?}", s);
                } else {
                    hits += 1;
                    assert_eq!(mine, Some((rest, (name, digest))), "{:?}", s);
                }
            }
            None => assert_eq!(mine, None, "{:?}", s),
        }
    }
    assert!(hits > 300, "{}", hits);
}

#[test]
fn responses_agree_with_combinators() {
    let heads: [&[u8]; 10] = [
        b"+OK", b"+OK ", b"-ERR ", b"+ok ", b"+OK 1 2", b"+OK\r\n1 2", b"+OK x\r\n", b"+OK 1 id",
        b"+OK\r\n1 id\r\n2 ", b"-ERR",
    ];
    let mut g = Gen(3);
    let mut hits = 0;
    for _ in 0..ROUNDS {
        let v = g.input(&heads);
        let s = &v[..];
        // One line: where the decoder matches, the combinators match alike. They
        // also match where the line end is missing, with an empty text.
        let mine = rfc1939::authorization::response::greeting_parser(s)
            .map(|x| (x.1.status_indicator, x.1.information));
        let theirs = one_line(s).ok().map(|x| x.1);
        if let Some(found) = mine {
            hits += 1;
            assert_eq!(theirs, Some(found), "{:?}", s);
            let rest = rfc1939::authorization::response::greeting_parser(s).unwrap().0;
            assert!(v[..v.len() - rest.len()].ends_with(b"\r\n"));
        } else if let Some((si, text)) = theirs {
            let _ = si;
            assert_eq!(text, b"", "{:?}", s);
        }
        // Message: the combinators make the body optional; where they find one, the
        // decoder agrees, and where they find none, the decoder does not match.
        let mine = rfc1939::transaction::response::retr_parser(s)
            .map(|x| (x.0, (x.1.status_indicator, x.1.information, x.1.message)));
        let theirs = message(s).ok();
        match theirs {
            Some((rest, (si, info, Some(body)))) => {
                hits += 1;
                assert_eq!(mine, Some((rest, (si, info, Some(body)))), "{:?}", s)
            }
            _ => assert_eq!(mine, None, "{:?}", s),
        }
        // The positive line with two numbers, and the fallback to a line of text.
        let theirs = pair_line(s).ok();
        let mine = rfc1939::transaction::response::stat_parser(s);
        if let Some((rest, (a, b))) = theirs {
            hits += 1;
            let (r, x) = mine.unwrap();
            assert_eq!((r, x.number_of_messages, x.size_in_octets, x.information), (rest, a, b, &b""[..]));
            let (r, x) = rfc1939::transaction::response::list_one_line_parser(s).unwrap();
            assert_eq!((r, x.informations, x.information), (rest, vec![(a, b)], &b""[..]));
        } else {
            let fallback = rfc1939::authorization::response::greeting_parser(s);
            assert_eq!(
                mine.map(|x| (x.0, x.1.status_indicator, x.1.number_of_messages, x.1.size_in_octets, x.1.information)),
                fallback.map(|x| (x.0, x.1.status_indicator, 0, 0, x.1.information)),
            );
        }
        // Multi-line listings, and the line with one unique-id listing.
        let theirs = list_multi(s).ok();
        let mine = rfc1939::transaction::response::list_multi_line_parser(s)
            .map(|x| (x.0, (x.1.information, x.1.informations)));
        if theirs.is_some() { hits += 1; }
        assert_eq!(theirs, mine, "{:?}", s);
        let theirs = uidl_multi(s).ok();
        let mine = rfc1939::transaction::response::uidl_multi_line_parser(s)
            .map(|x| (x.0, (x.1.information, x.1.informations)));
        if theirs.is_some() { hits += 1; }
        assert_eq!(theirs, mine, "{:?}", s);
        let theirs = uidl_single(s).ok();
        if let Some((rest, (n, id))) = theirs {
            if uidl_multi(s).is_err() {
                hits += 1;
                let (r, x) = rfc1939::transaction::response::uidl_parser(s).unwrap();
                assert_eq!((r, x.informations, x.information), (rest, vec![(n, id)], &b""[..]));
            }
        }
    }
    assert!(hits > 1500, "{}", hits);
}
