use chrono_machines::text::{decimal_text, digit_text};

#[test]
fn digits() {
    let all: Vec<&str> = (0..10u64).map(digit_text).collect();
    assert_eq!(all, vec!["0", "1", "2", "3", "4", "5", "6", "7", "8", "9"]);
}

#[test]
fn decimals() {
    assert_eq!(decimal_text(0), "0");
    assert_eq!(decimal_text(7), "7");
    assert_eq!(decimal_text(10), "10");
    assert_eq!(decimal_text(255), "255");
    assert_eq!(decimal_text(1_000_000), "1000000");
    assert_eq!(decimal_text(9_876_543_210), "9876543210");
    assert_eq!(decimal_text(u64::MAX), "18446744073709551615");
    for n in 0..2000u64 {
        assert_eq!(decimal_text(n), n.to_string());
    }
}
