use rfc1939::common::{one_line_response_two_parts_parser, take_until_crlf, StatusIndicator};
use rfc1939::types::response::Greeting;

#[test]
fn test_take_untill_crlf() {
    assert_eq!(take_until_crlf(b"1234567\r\n").unwrap().1, b"1234567");
    assert_eq!(take_until_crlf(b"\r\n").unwrap().1, b"");
}

#[test]
fn test_one_line_response_two_parts_parser() {
    assert_eq!(
        one_line_response_two_parts_parser::<Greeting>(b"+OK POP3 server ready\r\n")
            .unwrap()
            .1,
        Greeting {
            status_indicator: StatusIndicator::OK,
            information: b"POP3 server ready"
        }
    )
}
