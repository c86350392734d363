use rfc1939::authorization::response::{apop, greeting, pass, quit, user};
use rfc1939::common::StatusIndicator;
use rfc1939::transaction::{command, response};
use rfc1939::types::command::{Noop, Quit, Retr, Rset, Stat, Top};
use rfc1939::types::response::{Greeting, List, Uidl};

fn one_line(status: &[u8], text: &[u8]) -> Vec<u8> {
    let mut bytes = status.to_vec();
    bytes.push(b' ');
    bytes.extend_from_slice(text);
    bytes.extend_from_slice(b"\r\n");
    bytes
}

#[test]
fn one_line_round_trip_for_texts_of_every_length() {
    let alphabet = b"a \rb\n.+-OK0123456789\t\x00\xff";
    for length in 0..40usize {
        let text: Vec<u8> = (0..length)
            .map(|i| alphabet[(i * 7 + length) % alphabet.len()])
            .filter(|b| *b != b'\n')
            .collect();
        let positive = one_line(b"+OK", &text);
        let decoded = greeting(&positive).unwrap();
        assert_eq!(decoded.status_indicator, StatusIndicator::OK);
        assert_eq!(decoded.information, &text[..]);
        let negative = one_line(b"-ERR", &text);
        let decoded = greeting(&negative).unwrap();
        assert_eq!(decoded.status_indicator, StatusIndicator::ERR);
        assert_eq!(decoded.information, &text[..]);
    }
}

#[test]
fn one_line_round_trip_keeps_a_lone_carriage_return() {
    let bytes = one_line(b"+OK", b"ends with cr\r");
    assert_eq!(
        greeting(&bytes).unwrap(),
        Greeting {
            status_indicator: StatusIndicator::OK,
            information: b"ends with cr\r"
        }
    );
}

#[test]
fn one_line_round_trip_holds_of_every_one_line_decoder() {
    let bytes = one_line(b"-ERR", b"no such thing");
    assert_eq!(quit(&bytes).unwrap().information, b"no such thing");
    assert_eq!(user(&bytes).unwrap().information, b"no such thing");
    assert_eq!(pass(&bytes).unwrap().information, b"no such thing");
    assert_eq!(apop(&bytes).unwrap().information, b"no such thing");
    assert_eq!(response::dele(&bytes).unwrap().information, b"no such thing");
    assert_eq!(response::noop(&bytes).unwrap().information, b"no such thing");
    assert_eq!(response::rset(&bytes).unwrap().information, b"no such thing");
    assert_eq!(
        rfc1939::update::response::quit(&bytes).unwrap().status_indicator,
        StatusIndicator::ERR
    );
}

#[test]
fn decoding_twice_gives_the_same_record() {
    let listing = b"+OK 2 messages (320 octets)\r\n1 120\r\n2 200\r\n.\r\n";
    assert_eq!(response::list(listing), response::list(listing));
    let ids = b"+OK\r\n1 whqtswO00WBw418f9t5JxYwZ\r\n2 QhdPYR:00WBw1Ph7x7\r\n.\r\n";
    assert_eq!(response::uidl(ids), response::uidl(ids));
    let message = b"+OK 120 octets\r\n<body>\r\n.\r\n";
    assert_eq!(response::retr(message), response::retr(message));
    assert_eq!(response::stat(b"+OK 2 320\r\n"), response::stat(b"+OK 2 320\r\n"));
    assert_eq!(command::top(b"TOP 1 10\r\n"), command::top(b"TOP 1 10\r\n"));
    assert_eq!(command::top(b"TOP 1\r\n"), command::top(b"TOP 1\r\n"));
}

#[test]
fn a_response_without_its_crlf_is_no_match() {
    assert_eq!(greeting(b"+OK POP3 server ready"), None);
    assert_eq!(greeting(b"+OK POP3 server ready\r"), None);
    assert_eq!(greeting(b"+OK POP3 server ready\n"), None);
    assert_eq!(greeting(b"+OK"), None);
    assert_eq!(greeting(b""), None);
    assert_eq!(quit(b"-ERR"), None);
    assert_eq!(response::stat(b"+OK 2 320"), None);
    assert_eq!(response::stat(b"+OK 2 320\r"), None);
    assert_eq!(response::list(b"+OK 1 60178"), None);
    assert_eq!(response::uidl(b"+OK 1 whqtswO00WBw418f9t5JxYwZ"), None);
    assert_eq!(response::retr(b"+OK 120 octets"), None);
    assert_eq!(response::top(b"+OK 1364"), None);
    assert_eq!(response::dele(b"+OK message 1 deleted"), None);
}

#[test]
fn a_command_without_its_crlf_is_no_match() {
    assert_eq!(rfc1939::authorization::command::user(b"USER name"), None);
    assert_eq!(rfc1939::authorization::command::pass(b"PASS pwd\r"), None);
    assert_eq!(
        rfc1939::authorization::command::apop(b"APOP mrose c4c9334bac560ecc979e58001b3e22fb"),
        None
    );
    assert_eq!(command::stat(b"STAT"), None);
    assert_eq!(command::list(b"LIST"), None);
    assert_eq!(command::list(b"LIST 2"), None);
    assert_eq!(command::retr(b"RETR 1"), None);
    assert_eq!(command::dele(b"DELE 1\n"), None);
    assert_eq!(command::noop(b"NOOP"), None);
    assert_eq!(command::rset(b"RSET"), None);
    assert_eq!(command::top(b"TOP 1 10"), None);
    assert_eq!(command::uidl(b"UIDL"), None);
    assert_eq!(rfc1939::update::command::quit(b"QUIT"), None);
}

#[test]
fn a_message_without_its_last_line_is_no_match() {
    assert_eq!(response::retr(b"+OK 120 octets\r\n<body>"), None);
    assert_eq!(response::retr(b"+OK 120 octets\r\n<body>\r\n"), None);
    assert_eq!(response::retr(b"+OK 120 octets\r\n<body>\r\n."), None);
    assert_eq!(response::retr(b"+OK 120 octets\r\n<body>\r\n.\r"), None);
    assert_eq!(response::retr(b"+OK 120 octets\r\n"), None);
    assert_eq!(response::top(b"+OK 1364\r\n58.87.109.78\r\n"), None);
    assert_eq!(response::top(b"+OK 1364\r\n58.87.109.78\n.\n"), None);
}

#[test]
fn a_listing_without_its_last_line_is_not_read_as_multi_line() {
    let cut = b"+OK 2 messages (320 octets)\r\n1 120\r\n2 200\r\n";
    assert_eq!(response::list_multi_line_parser(cut), None);
    assert_eq!(
        response::list(cut).unwrap(),
        List {
            status_indicator: StatusIndicator::OK,
            informations: vec![],
            information: b"2 messages (320 octets)"
        }
    );
    let cut = b"+OK\r\n1 whqtswO00WBw418f9t5JxYwZ\r\n2 QhdPYR:00WBw1Ph7x7\r\n.";
    assert_eq!(response::uidl_multi_line_parser(cut), None);
    assert_eq!(
        response::uidl(cut).unwrap(),
        Uidl {
            status_indicator: StatusIndicator::OK,
            informations: vec![],
            information: b""
        }
    );
}

#[test]
fn keywords_are_read_in_either_case() {
    assert_eq!(command::stat(b"stat\r\n"), Some(Stat));
    assert_eq!(command::stat(b"STAT\r\n"), Some(Stat));
    assert_eq!(command::stat(b"Stat\r\n"), Some(Stat));
    assert_eq!(command::stat(b"sTaT\r\n"), Some(Stat));
    assert_eq!(command::noop(b"noop\r\n"), Some(Noop));
    assert_eq!(command::rset(b"rSeT\r\n"), Some(Rset));
    assert_eq!(command::retr(b"retr 12\r\n"), Some(Retr { msg: 12 }));
    assert_eq!(command::retr(b"Retr 12\r\n"), command::retr(b"RETR 12\r\n"));
    assert_eq!(command::top(b"top 3 4\r\n"), Some(Top { msg: 3, n: 4 }));
    assert_eq!(rfc1939::update::command::quit(b"quit\r\n"), Some(Quit));
    assert_eq!(
        rfc1939::authorization::command::user(b"user Name\r\n"),
        rfc1939::authorization::command::user(b"USER Name\r\n")
    );
}

#[test]
fn arguments_are_read_as_they_stand() {
    assert_eq!(
        rfc1939::authorization::command::user(b"user Name\r\n")
            .unwrap()
            .name,
        b"Name"
    );
    assert!(
        rfc1939::authorization::command::user(b"USER name\r\n")
            != rfc1939::authorization::command::user(b"USER NAME\r\n")
    );
}

#[test]
fn the_status_indicator_is_read_in_either_case() {
    assert_eq!(
        greeting(b"+ok ready\r\n").unwrap().status_indicator,
        StatusIndicator::OK
    );
    assert_eq!(
        greeting(b"+OK ready\r\n").unwrap().status_indicator,
        StatusIndicator::OK
    );
    assert_eq!(greeting(b"+ok ready\r\n"), greeting(b"+Ok ready\r\n"));
    assert_eq!(
        greeting(b"-err busy\r\n").unwrap().status_indicator,
        StatusIndicator::ERR
    );
    assert_eq!(greeting(b"-eRr busy\r\n"), greeting(b"-ERR busy\r\n"));
    assert_eq!(
        response::stat(b"+ok 2 320\r\n"),
        response::stat(b"+OK 2 320\r\n")
    );
    assert_eq!(
        response::list(b"+oK\r\n1 120\r\n.\r\n"),
        response::list(b"+OK\r\n1 120\r\n.\r\n")
    );
    assert_eq!(
        response::retr(b"+ok x\r\nbody\r\n.\r\n"),
        response::retr(b"+OK x\r\nbody\r\n.\r\n")
    );
}

#[test]
fn a_command_cut_short_is_no_match() {
    let user: &[u8] = b"USER name with spaces\r\n";
    for m in 0..user.len() {
        assert_eq!(rfc1939::authorization::command::user(&user[..m]), None);
    }
    let pass: &[u8] = b"pass se cret\r\n";
    for m in 0..pass.len() {
        assert_eq!(rfc1939::authorization::command::pass(&pass[..m]), None);
    }
    let apop: &[u8] = b"APOP mrose c4c9334bac560ecc979e58001b3e22fb\r\n";
    for m in 0..apop.len() {
        assert_eq!(rfc1939::authorization::command::apop(&apop[..m]), None);
    }
    let top: &[u8] = b"TOP 120 7\r\n";
    for m in 0..top.len() {
        assert_eq!(command::top(&top[..m]), None);
        assert_eq!(command::retr(&top[..m]), None);
    }
    let list: &[u8] = b"LIST 12\r\n";
    for m in 0..list.len() {
        assert_eq!(command::list(&list[..m]), None);
    }
    let bare: &[u8] = b"LIST\r\n";
    for m in 0..bare.len() {
        assert_eq!(command::list(&bare[..m]), None);
    }
    let retr: &[u8] = b"RETR 5\r\n";
    for m in 0..retr.len() {
        assert_eq!(command::retr(&retr[..m]), None);
    }
    let quit: &[u8] = b"QUIT\r\n";
    for m in 0..quit.len() {
        assert_eq!(rfc1939::update::command::quit(&quit[..m]), None);
        assert_eq!(command::stat(&quit[..m]), None);
    }
}

#[test]
fn a_response_cut_short_is_no_match() {
    let line: &[u8] = b"+OK maildrop has 1 message (369 octets)\r\n";
    for m in 0..line.len() {
        assert_eq!(greeting(&line[..m]), None);
        assert_eq!(response::stat(&line[..m]), None);
        assert_eq!(response::list(&line[..m]), None);
        assert_eq!(response::uidl(&line[..m]), None);
    }
    let counters: &[u8] = b"+OK 2 320\r\n";
    for m in 0..counters.len() {
        assert_eq!(response::stat(&counters[..m]), None);
        assert_eq!(response::list(&counters[..m]), None);
    }
    let id: &[u8] = b"+OK 2 QhdPYR:00WBw1Ph7x7\r\n";
    for m in 0..id.len() {
        assert_eq!(response::uidl(&id[..m]), None);
    }
    let bare: &[u8] = b"-ERR\r\n";
    for m in 0..bare.len() {
        assert_eq!(greeting(&bare[..m]), None);
    }
}

#[test]
fn a_message_cut_short_is_no_match() {
    let message: &[u8] = b"+OK 120 octets\r\nline one\r\n\r\n.line three\r\n.\r\n";
    assert!(response::retr(message).is_some());
    for m in 0..message.len() {
        assert_eq!(response::retr(&message[..m]), None);
        assert_eq!(response::top(&message[..m]), None);
    }
    let early: &[u8] = b"+OK x\r\n.\r\nfoo\r\n.\r\n";
    assert_eq!(response::retr(early).unwrap().message, Some(&b".\r\nfoo"[..]));
    for m in 0..early.len() {
        assert_eq!(response::retr(&early[..m]), None);
    }
}

#[test]
fn a_listing_cut_short_is_not_read_as_multi_line() {
    let listing: &[u8] = b"+OK 2 messages (320 octets)\r\n1 120\r\n2 200\r\n.\r\n";
    assert!(response::list_multi_line_parser(listing).is_some());
    for m in 0..listing.len() {
        assert_eq!(response::list_multi_line_parser(&listing[..m]), None);
        assert_eq!(
            response::list(&listing[..m]),
            response::list_one_line_parser(&listing[..m]).map(|found| found.1)
        );
    }
    let ids: &[u8] = b"+OK\r\n1 whqtswO00WBw418f9t5JxYwZ\r\n2 .\r\n.\r\n";
    assert_eq!(response::uidl(ids).unwrap().informations.len(), 2);
    for m in 0..ids.len() {
        assert_eq!(response::uidl_multi_line_parser(&ids[..m]), None);
        assert_eq!(
            response::uidl(&ids[..m]),
            response::uidl_one_line_parser(&ids[..m]).map(|found| found.1)
        );
    }
}

#[test]
fn what_is_taken_is_the_first_line() {
    let two: &[u8] = b"+OK first\r\n+OK second\r\n";
    let (rest, record) = rfc1939::authorization::response::greeting_parser(two).unwrap();
    assert_eq!(record.information, b"first");
    assert_eq!(rest, b"+OK second\r\n");
    let (rest, record) = response::stat_parser(b"+OK 1 2\r\n3 4\r\n").unwrap();
    assert_eq!((record.number_of_messages, record.size_in_octets), (1, 2));
    assert_eq!(rest, b"3 4\r\n");
    let (rest, record) = command::top_parser(b"TOP 1 2\r\nTOP 3 4\r\n").unwrap();
    assert_eq!((record.msg, record.n), (1, 2));
    assert_eq!(rest, b"TOP 3 4\r\n");
    let (rest, record) = response::list_parser(b"+OK\r\n1 2\r\n.\r\n3 4\r\n.\r\n").unwrap();
    assert_eq!(record.informations, vec![(1, 2)]);
    assert_eq!(rest, b"3 4\r\n.\r\n");
}
