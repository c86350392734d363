use rfc1939::common::StatusIndicator;
use rfc1939::types::response::{
    Apop, Dele, Greeting, HaveMessageBody, Noop, OneLine, OneLineTwoParts, Pass, Quit, Retr,
    Rset, Top, User,
};

#[test]
fn records_of_one_line_start_positive_and_empty() {
    assert_eq!(
        Greeting::default(),
        Greeting { status_indicator: StatusIndicator::OK, information: b"" }
    );
    assert_eq!(Quit::default(), Quit { status_indicator: StatusIndicator::OK, information: b"" });
    assert_eq!(Dele::default(), Dele { status_indicator: StatusIndicator::OK, information: b"" });
    assert_eq!(Noop::default(), Noop { status_indicator: StatusIndicator::OK, information: b"" });
    assert_eq!(Rset::default(), Rset { status_indicator: StatusIndicator::OK, information: b"" });
    assert_eq!(User::default(), User { status_indicator: StatusIndicator::OK, information: b"" });
    assert_eq!(Pass::default(), Pass { status_indicator: StatusIndicator::OK, information: b"" });
    assert_eq!(Apop::default(), Apop { status_indicator: StatusIndicator::OK, information: b"" });
    assert_eq!(
        OneLineTwoParts::default(),
        OneLineTwoParts { left: StatusIndicator::OK, right: b"" }
    );
}

#[test]
fn records_with_a_body_start_without_one() {
    assert_eq!(
        Retr::default(),
        Retr { status_indicator: StatusIndicator::OK, message: None, information: b"" }
    );
    assert_eq!(
        Top::default(),
        Top { status_indicator: StatusIndicator::OK, information: b"", message: None }
    );
}

#[test]
fn setters_of_one_line_change_one_field() {
    let mut record = Greeting::default();
    record.set_information(b"ready");
    assert_eq!(record.status_indicator(), &StatusIndicator::OK);
    assert_eq!(record.information(), b"ready");
    record.set_status_indicator(StatusIndicator::ERR);
    assert_eq!(record.status_indicator(), &StatusIndicator::ERR);
    assert_eq!(record.information(), b"ready");
    assert_eq!(
        record,
        Greeting { status_indicator: StatusIndicator::ERR, information: b"ready" }
    );
}

#[test]
fn setters_of_every_record_of_one_line() {
    let mut quit = Quit::default();
    quit.set_status_indicator(StatusIndicator::ERR);
    quit.set_information(b"q");
    assert_eq!(quit, Quit { status_indicator: StatusIndicator::ERR, information: b"q" });
    let mut dele = Dele::default();
    dele.set_information(b"d");
    assert_eq!(dele.information(), b"d");
    let mut noop = Noop::default();
    noop.set_status_indicator(StatusIndicator::ERR);
    assert_eq!(noop.status_indicator(), &StatusIndicator::ERR);
    let mut rset = Rset::default();
    rset.set_information(b"r");
    assert_eq!(rset.information, b"r");
    let mut user = User::default();
    user.set_information(b"u");
    assert_eq!(user.information(), b"u");
    let mut pass = Pass::default();
    pass.set_information(b"p");
    assert_eq!(pass.information(), b"p");
    let mut apop = Apop::default();
    apop.set_information(b"a");
    assert_eq!(apop.information(), b"a");
    let mut parts = OneLineTwoParts::default();
    parts.set_status_indicator(StatusIndicator::ERR);
    parts.set_information(b"right");
    assert_eq!(parts, OneLineTwoParts { left: StatusIndicator::ERR, right: b"right" });
    assert_eq!(parts.status_indicator(), &StatusIndicator::ERR);
    assert_eq!(parts.information(), b"right");
}

#[test]
fn setters_of_a_record_with_a_body() {
    let mut record = Retr::default();
    record.set_information(b"120 octets");
    record.set_message(Some(b""));
    assert_eq!(
        record,
        Retr { status_indicator: StatusIndicator::OK, message: Some(b""), information: b"120 octets" }
    );
    record.set_message(None);
    record.set_status_indicator(StatusIndicator::ERR);
    assert_eq!(
        record,
        Retr { status_indicator: StatusIndicator::ERR, message: None, information: b"120 octets" }
    );
    let mut top = Top::default();
    top.set_message(Some(b"head"));
    top.set_information(b"t");
    top.set_status_indicator(StatusIndicator::ERR);
    assert_eq!(
        top,
        Top { status_indicator: StatusIndicator::ERR, information: b"t", message: Some(b"head") }
    );
}

#[test]
fn an_empty_body_differs_from_no_body() {
    let mut with_empty = Retr::default();
    with_empty.set_message(Some(b""));
    assert_ne!(with_empty, Retr::default());
}

#[test]
fn the_status_indicator_is_found_under_types_too() {
    let left: rfc1939::types::StatusIndicator = StatusIndicator::ERR;
    assert_eq!(left, StatusIndicator::ERR);
    assert_ne!(left, StatusIndicator::OK);
    let greeting: rfc1939::types::Greeting = Greeting::default();
    assert_eq!(greeting.information, b"");
}
