use rfc1939::authorization::command::{apop, pass, user};
use rfc1939::types::command::{Apop, Pass, User};

#[test]
fn command_test_user() {
    assert_eq!(user(b"USER name\r\n").unwrap(), User { name: b"name" })
}

#[test]
fn command_test_pass() {
    assert_eq!(pass(b"PASS pwd\r\n").unwrap(), Pass { string: b"pwd" })
}

#[test]
fn command_test_apop() {
    assert_eq!(
        apop(b"APOP mrose c4c9334bac560ecc979e58001b3e22fb\r\n").unwrap(),
        Apop {
            name: b"mrose",
            digest: b"c4c9334bac560ecc979e58001b3e22fb"
        }
    )
}
