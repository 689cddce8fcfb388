use jiji::command::{switch_workspace, Request};
use jiji::text::{to_decimal, to_signed_decimal};

#[test]
fn numbers_in_decimal() {
    assert_eq!(to_decimal(0), "0");
    assert_eq!(to_decimal(7), "7");
    assert_eq!(to_decimal(10), "10");
    assert_eq!(to_decimal(1234567890), "1234567890");
    assert_eq!(to_decimal(u64::MAX), "18446744073709551615");
}

#[test]
fn numbers_below_zero_in_decimal() {
    assert_eq!(to_signed_decimal(0), "0");
    assert_eq!(to_signed_decimal(42), "42");
    assert_eq!(to_signed_decimal(-1), "-1");
    assert_eq!(to_signed_decimal(i32::MAX), "2147483647");
    assert_eq!(to_signed_decimal(i32::MIN), "-2147483648");
}

#[test]
fn the_words_that_switch_a_workspace() {
    match switch_workspace(3) {
        Request::RunCommand { text } => assert_eq!(text, "workspace number 3"),
        _ => panic!("the window manager is told by a command"),
    }
    match switch_workspace(-1) {
        Request::RunCommand { text } => assert_eq!(text, "workspace number -1"),
        _ => panic!("the window manager is told by a command"),
    }
    for num in [0, 1, 9, 10, 99, 100, 12345] {
        match switch_workspace(num) {
            Request::RunCommand { text } => assert_eq!(text, format!("workspace number {}", num)),
            _ => panic!("the window manager is told by a command"),
        }
    }
}
