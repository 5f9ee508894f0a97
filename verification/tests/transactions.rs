use blockchain::decimal::decimal_string;
use blockchain::{Timestamp, Transaction};

fn at(secs: i64) -> Timestamp {
    Timestamp { secs, nanos: 0 }
}

#[test]
fn canonical_text_joins_the_fields_with_dashes() {
    let t = Transaction::stamped("w1".to_string(), "w2".to_string(), 10, at(0));
    assert_eq!(t.to_string(), "w1-w2-10");
}

#[test]
fn canonical_text_leaves_the_time_out() {
    let early = Transaction::stamped("w1".to_string(), "w2".to_string(), 10, at(1));
    let late = Transaction::stamped(
        "w1".to_string(),
        "w2".to_string(),
        10,
        Timestamp { secs: 2_000_000_000, nanos: 999_999_999 },
    );
    assert_ne!(early.created_at(), late.created_at());
    assert_eq!(early.to_string(), late.to_string());
}

#[test]
fn canonical_text_is_the_same_on_every_call() {
    let t = Transaction::stamped("alice".to_string(), "bob".to_string(), 14, at(3));
    assert_eq!(t.to_string(), t.to_string());
}

#[test]
fn canonical_text_of_empty_addresses_and_zero() {
    let t = Transaction::stamped(String::new(), String::new(), 0, at(0));
    assert_eq!(t.to_string(), "--0");
}

#[test]
fn canonical_text_keeps_a_dash_inside_an_address() {
    let t = Transaction::stamped("a-b".to_string(), "c".to_string(), 7, at(0));
    assert_eq!(t.to_string(), "a-b-c-7");
}

#[test]
fn canonical_text_keeps_characters_beyond_ascii() {
    let t = Transaction::stamped("zoë".to_string(), "渡辺".to_string(), 5, at(0));
    assert_eq!(t.to_string(), "zoë-渡辺-5");
}

#[test]
fn canonical_text_of_the_largest_amount() {
    let t = Transaction::stamped("a".to_string(), "b".to_string(), u64::MAX, at(0));
    assert_eq!(t.to_string(), "a-b-18446744073709551615");
}

#[test]
fn decimal_of_small_numbers() {
    assert_eq!(decimal_string(0), "0");
    assert_eq!(decimal_string(7), "7");
    assert_eq!(decimal_string(9), "9");
    assert_eq!(decimal_string(10), "10");
    assert_eq!(decimal_string(11), "11");
    assert_eq!(decimal_string(99), "99");
    assert_eq!(decimal_string(100), "100");
    assert_eq!(decimal_string(1234567890), "1234567890");
}

#[test]
fn decimal_agrees_with_the_standard_library() {
    let mut n: u64 = 1;
    for _ in 0..64 {
        assert_eq!(decimal_string(n), format!("{}", n));
        assert_eq!(decimal_string(n - 1), format!("{}", n - 1));
        n = n.wrapping_mul(3).wrapping_add(n >> 3).max(1);
    }
    assert_eq!(decimal_string(u64::MAX), format!("{}", u64::MAX));
}

#[test]
fn append_decimal_keeps_what_is_there() {
    let mut out = "amount=".to_string();
    blockchain::decimal::append_decimal(&mut out, 2050);
    assert_eq!(out, "amount=2050");
}

#[test]
fn stamped_keeps_every_field() {
    let when = Timestamp { secs: 1_431_648_000, nanos: 123 };
    let t = Transaction::stamped("w4".to_string(), "w2".to_string(), 14, when);
    assert_eq!(t.sender_address(), "w4");
    assert_eq!(t.recipient_address(), "w2");
    assert_eq!(t.amount(), 14);
    assert_eq!(t.created_at(), when);
}

#[test]
fn new_keeps_the_fields_and_reads_the_clock() {
    let before = chrono::Utc::now().timestamp();
    let t = Transaction::new("w1".to_string(), "w2".to_string(), 10);
    let after = chrono::Utc::now().timestamp();
    assert_eq!(t.sender_address(), "w1");
    assert_eq!(t.recipient_address(), "w2");
    assert_eq!(t.amount(), 10);
    assert_eq!(t.to_string(), "w1-w2-10");
    assert!(before <= t.created_at().secs);
    assert!(t.created_at().secs <= after);
    assert!(t.created_at().nanos < 2_000_000_000);
}

#[test]
fn clone_keeps_every_field() {
    let when = Timestamp { secs: 9, nanos: 8 };
    let t = Transaction::stamped("w1".to_string(), "w2".to_string(), 10, when);
    let copy = t.clone();
    assert_eq!(copy.sender_address(), t.sender_address());
    assert_eq!(copy.recipient_address(), t.recipient_address());
    assert_eq!(copy.amount(), t.amount());
    assert_eq!(copy.created_at(), when);
}
