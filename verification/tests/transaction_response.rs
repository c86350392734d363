use rfc1939::common::StatusIndicator;
use rfc1939::transaction::response::{
    dele, list, list_multi_line_parser, list_one_line_parser, noop, retr, rset, stat,
    stat_parser, top, uidl,
};
use rfc1939::types::response::{Dele, List, Noop, Retr, Rset, Stat, Top, Uidl};

#[test]
fn test_stat_parser() {
    assert_eq!(
        stat_parser(b"+OK 2 320\r\n").unwrap().1,
        Stat {
            status_indicator: StatusIndicator::OK,
            number_of_messages: 2,
            size_in_octets: 320,
            information: &[]
        }
    )
}

#[test]
fn response_test_stat() {
    assert_eq!(
        stat(b"+OK 2 320\r\n").unwrap(),
        Stat {
            status_indicator: StatusIndicator::OK,
            number_of_messages: 2,
            size_in_octets: 320,
            information: &[]
        }
    );
    assert_eq!(
        stat(b"-ERR failed\r\n").unwrap(),
        Stat {
            status_indicator: StatusIndicator::ERR,
            number_of_messages: 0,
            size_in_octets: 0,
            information: b"failed"
        }
    )
}

#[test]
fn response_test_list_parser() {
    assert_eq!(
        list_multi_line_parser(b"+OK 2 messages (320 octets)\r\n1 120\r\n2 200\r\n.\r\n")
            .unwrap()
            .1,
        List {
            status_indicator: StatusIndicator::OK,
            informations: vec![(1, 120), (2, 200)],
            information: b"2 messages (320 octets)"
        }
    );
    assert_eq!(
        list_multi_line_parser(b"+OK\r\n1 120\r\n2 200\r\n.\r\n")
            .unwrap()
            .1,
        List {
            status_indicator: StatusIndicator::OK,
            informations: vec![(1, 120), (2, 200)],
            information: b""
        }
    );
    assert_eq!(
        list_one_line_parser(b"+OK 1 60178\r\n").unwrap().1,
        List {
            status_indicator: StatusIndicator::OK,
            informations: vec![(1, 60178)],
            information: &[]
        }
    );
    assert_eq!(
        list_one_line_parser(b"-ERR Syntax error\r\n").unwrap().1,
        List {
            status_indicator: StatusIndicator::ERR,
            informations: vec![],
            information: b"Syntax error"
        }
    );
}

#[test]
fn response_test_list() {
    assert_eq!(
        list(b"+OK 2 messages (320 octets)\r\n1 120\r\n2 200\r\n.\r\n").unwrap(),
        List {
            status_indicator: StatusIndicator::OK,
            informations: vec![(1, 120), (2, 200)],
            information: b"2 messages (320 octets)"
        }
    );
    assert_eq!(
        list(b"-ERR Syntax error\r\n").unwrap(),
        List {
            status_indicator: StatusIndicator::ERR,
            informations: vec![],
            information: b"Syntax error"
        }
    );
}

#[test]
fn response_test_retr() {
    assert_eq!(
        retr(b"+OK 120 octets\r\n<the POP3 server sends the entire message here>\r\n.\r\n")
            .unwrap(),
        Retr {
            status_indicator: StatusIndicator::OK,
            message: Some(b"<the POP3 server sends the entire message here>"),
            information: b"120 octets"
        }
    );
}

#[test]
fn response_test_dele() {
    assert_eq!(
        dele(b"+OK message 1 deleted\r\n").unwrap(),
        Dele {
            status_indicator: StatusIndicator::OK,
            information: b"message 1 deleted"
        }
    );
}

#[test]
fn response_test_noop() {
    assert_eq!(
        noop(b"+OK\r\n").unwrap(),
        Noop {
            status_indicator: StatusIndicator::OK,
            information: b""
        }
    );
}

#[test]
fn response_test_rset() {
    assert_eq!(
        rset(b"+OK core mail\r\n").unwrap(),
        Rset {
            status_indicator: StatusIndicator::OK,
            information: b"core mail"
        }
    );
}

#[test]
fn response_test_top() {
    assert_eq!(
        top(b"+OK 1364\r\n58.87.109.78\r\n.\r\n").unwrap(),
        Top {
            status_indicator: StatusIndicator::OK,
            message: Some(b"58.87.109.78"),
            information: b"1364"
        }
    );
}

#[test]
fn response_test_uidl() {
    assert_eq!(
        uidl(b"+OK\r\n1 whqtswO00WBw418f9t5JxYwZ\r\n2 QhdPYR:00WBw1Ph7x7\r\n.\r\n").unwrap(),
        Uidl {
            status_indicator: StatusIndicator::OK,
            informations: vec![(1, b"whqtswO00WBw418f9t5JxYwZ"), (2, b"QhdPYR:00WBw1Ph7x7")],
            information: &vec![]
        }
    );
    assert_eq!(
        uidl(b"+OK 1 whqtswO00WBw418f9t5JxYwZ%\r\n").unwrap(),
        Uidl {
            status_indicator: StatusIndicator::OK,
            informations: vec![(1, b"whqtswO00WBw418f9t5JxYwZ%")],
            information: &vec![]
        }
    );
    assert_eq!(
        uidl(b"-ERR Syntax error\r\n").unwrap(),
        Uidl {
            status_indicator: StatusIndicator::ERR,
            informations: vec![],
            information: b"Syntax error"
        }
    );
}
