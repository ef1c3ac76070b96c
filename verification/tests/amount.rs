use ledger_engine::amount::{Amount, Error};

#[test]
fn parse_test() {
    let balance: Amount = "12.5".parse().unwrap();
    assert_eq!(balance.amount_fx4, 125000);
    assert_eq!(balance.to_string(), "12.5");

    let neg_balance: Amount = "-12.5".parse().unwrap();
    assert_eq!(neg_balance.amount_fx4, -125000);
    assert_eq!(neg_balance.to_string(), "-12.5");
}

#[test]
fn into_test() {
    let balance: Amount = Amount::from_str("9.05").unwrap();
    assert_eq!(balance.amount_fx4, 90500);
    assert_eq!(balance.to_string(), "9.05");

    let neg_balance: Amount = Amount::from_str("-9.05").unwrap();
    assert_eq!(neg_balance.amount_fx4, -90500);
    assert_eq!(neg_balance.to_string(), "-9.05");
}

#[test]
fn new_test() {
    let balance = Amount::new(24, 4321);
    assert_eq!(balance.amount_fx4, 244321);
    assert_eq!(balance.to_string(), "24.4321");

    let neg_balance = Amount::new(-24, 4321);
    assert_eq!(neg_balance.amount_fx4, -244321);
    assert_eq!(neg_balance.to_string(), "-24.4321");
}

#[test]
fn add_test() {
    let balance = Amount::from_str("11.99").unwrap();
    let transaction = Amount::from_str("9.99").unwrap();
    let new_balance = balance + transaction;
    assert_eq!(new_balance.to_string(), "21.98");
}

#[test]
fn sub_test() {
    let balance = Amount::from_str("11.99").unwrap();
    let transaction = Amount::from_str("9.99").unwrap();
    let new_balance = balance - transaction;
    assert_eq!(new_balance.to_string(), "2");
}

#[test]
fn mul_test() {
    let balance = Amount::from_str("11.99").unwrap();
    let transaction = Amount::from_str("3").unwrap();
    let new_balance = balance * transaction;
    assert_eq!(new_balance.to_string(), "35.97");
}

#[test]
fn negative_add() {
    let balance = Amount::from_str("11.99").unwrap();
    let transaction = Amount::from_str("-30").unwrap();
    let new_balance = balance + transaction;
    assert_eq!(new_balance.to_string(), "-18.01");
}

#[test]
fn negative_sub() {
    let balance = Amount::from_str("11.99").unwrap();
    let transaction = Amount::from_str("-30").unwrap();
    let new_balance = balance - transaction;
    assert_eq!(new_balance.to_string(), "41.99");
}

fn fx4(text: &str) -> i64 {
    Amount::from_str(text).unwrap().amount_fx4
}

#[test]
fn zero_is_zero() {
    assert_eq!(Amount::zero().amount_fx4, 0);
    assert_eq!(Amount::default(), Amount::zero());
    assert_eq!(Amount::zero().to_string(), "0");
    assert_eq!(Amount::new(0, 0), Amount::zero());
}

#[test]
fn parse_scales_each_fraction_length() {
    assert_eq!(fx4("7"), 70000);
    assert_eq!(fx4("7.1"), 71000);
    assert_eq!(fx4("7.12"), 71200);
    assert_eq!(fx4("7.123"), 71230);
    assert_eq!(fx4("7.1234"), 71234);
    assert_eq!(fx4("7.0001"), 70001);
    assert_eq!(fx4("7.0100"), 70100);
}

#[test]
fn parse_accepts_leading_and_trailing_zeros() {
    assert_eq!(fx4("007"), 70000);
    assert_eq!(fx4("0"), 0);
    assert_eq!(fx4("-0"), 0);
    assert_eq!(fx4("0.0"), 0);
    assert_eq!(fx4("1.0"), 10000);
    assert_eq!(fx4("1.50"), 15000);
    assert_eq!(fx4("00000000000000000000000000000012.5"), 125000);
}

#[test]
fn sign_applies_to_the_fraction_too() {
    assert_eq!(fx4("-0.5"), -5000);
    assert_eq!(fx4("-0.0001"), -1);
    assert_eq!(fx4("-3.25"), -32500);
}

#[test]
fn empty_text_is_no_input() {
    assert!(matches!(Amount::from_str(""), Err(Error::NoInput)));
}

fn is_malformed(text: &str) -> bool {
    match Amount::from_str(text) {
        Err(Error::Malformed(kept)) => kept == text,
        _ => false,
    }
}

fn is_too_precise(text: &str) -> bool {
    match Amount::from_str(text) {
        Err(Error::PrecisionTooHigh(kept)) => kept == text,
        _ => false,
    }
}

#[test]
fn text_that_is_no_number_is_malformed() {
    assert!(is_malformed("abc"));
    assert!(is_malformed("-"));
    assert!(is_malformed("."));
    assert!(is_malformed(".5"));
    assert!(is_malformed("-.5"));
    assert!(is_malformed("5."));
    assert!(is_malformed("1.2.3"));
    assert!(is_malformed("1..2"));
    assert!(is_malformed("--1"));
    assert!(is_malformed("1-"));
    assert!(is_malformed("+1"));
    assert!(is_malformed("1.+5"));
    assert!(is_malformed("1.-5"));
    assert!(is_malformed(" 1"));
    assert!(is_malformed("1 "));
    assert!(is_malformed("1,5"));
    assert!(is_malformed("1e3"));
    assert!(is_malformed("12x.5"));
    assert!(is_malformed("12.5x"));
    assert!(is_malformed("\u{661}\u{662}"));
    assert!(is_malformed("1\u{e9}"));
}

#[test]
fn more_than_four_fraction_digits_is_too_precise() {
    assert!(is_too_precise("1.23456"));
    assert!(is_too_precise("1.00000"));
    assert!(is_too_precise("-0.12345"));
    assert!(is_too_precise("0.99999999999999999999"));
    assert!(is_too_precise("99999999999999999999.12345"));
}

#[test]
fn malformed_comes_before_too_precise() {
    assert!(is_malformed("x.12345"));
    assert!(is_malformed("1.1234x"));
    assert!(is_malformed("1.12345x"));
}

#[test]
fn parse_reaches_both_ends_of_the_range() {
    assert_eq!(fx4("922337203685477.5807"), i64::MAX);
    assert_eq!(fx4("-922337203685477.5808"), i64::MIN);
    assert_eq!(fx4("-922337203685477.5807"), -i64::MAX);
}

#[test]
fn text_beyond_the_range_is_malformed() {
    assert!(is_malformed("922337203685477.5808"));
    assert!(is_malformed("-922337203685477.5809"));
    assert!(is_malformed("922337203685478"));
    assert!(is_malformed("-922337203685478"));
    assert!(is_malformed("9223372036854775807"));
    assert!(is_malformed("99999999999999999999999999999999"));
    assert!(is_malformed("18446744073709551616.5"));
}

#[test]
fn format_drops_trailing_zeros() {
    assert_eq!(Amount { amount_fx4: 125000 }.to_string(), "12.5");
    assert_eq!(Amount { amount_fx4: 120000 }.to_string(), "12");
    assert_eq!(Amount { amount_fx4: 120500 }.to_string(), "12.05");
    assert_eq!(Amount { amount_fx4: 120050 }.to_string(), "12.005");
    assert_eq!(Amount { amount_fx4: 120005 }.to_string(), "12.0005");
    assert_eq!(Amount { amount_fx4: 121230 }.to_string(), "12.123");
    assert_eq!(Amount { amount_fx4: 121200 }.to_string(), "12.12");
    assert_eq!(Amount { amount_fx4: 1 }.to_string(), "0.0001");
    assert_eq!(Amount { amount_fx4: 9999 }.to_string(), "0.9999");
    assert_eq!(Amount { amount_fx4: 10000 }.to_string(), "1");
    assert_eq!(Amount { amount_fx4: 1000000000 }.to_string(), "100000");
}

#[test]
fn format_keeps_the_sign_of_small_amounts() {
    assert_eq!(Amount { amount_fx4: -5000 }.to_string(), "-0.5");
    assert_eq!(Amount { amount_fx4: -1 }.to_string(), "-0.0001");
    assert_eq!(Amount { amount_fx4: -10000 }.to_string(), "-1");
    assert_eq!(Amount { amount_fx4: -10001 }.to_string(), "-1.0001");
}

#[test]
fn format_reaches_both_ends_of_the_range() {
    assert_eq!(Amount { amount_fx4: i64::MAX }.to_string(), "922337203685477.5807");
    assert_eq!(Amount { amount_fx4: i64::MIN }.to_string(), "-922337203685477.5808");
}

#[test]
fn reading_what_was_written_gives_the_amount_back() {
    let mut samples: Vec<i64> = vec![
        0,
        1,
        -1,
        9,
        10,
        99,
        100,
        999,
        1000,
        5000,
        -5000,
        9999,
        -9999,
        10000,
        -10000,
        10001,
        123456789,
        -123456789,
        i64::MAX,
        i64::MIN,
        i64::MAX - 1,
        i64::MIN + 1,
    ];
    let mut x: i64 = 7;
    for _ in 0..2000 {
        x = x.wrapping_mul(6364136223846793005).wrapping_add(1442695040888963407);
        samples.push(x);
        samples.push(x % 1000000);
    }
    for v in samples {
        let amount = Amount { amount_fx4: v };
        let text = amount.to_string();
        assert_eq!(Amount::from_str(&text).unwrap(), amount, "{}", text);
    }
}

#[test]
fn new_counts_the_fraction_away_from_zero() {
    assert_eq!(Amount::new(0, 5).amount_fx4, 5);
    assert_eq!(Amount::new(-1, 5).amount_fx4, -10005);
    assert_eq!(Amount::new(3, 0).amount_fx4, 30000);
    assert_eq!(Amount::new(1, 12345).amount_fx4, 22345);
}

#[test]
fn mul_rounds_toward_zero() {
    let tiny = Amount { amount_fx4: 1 };
    let half = Amount { amount_fx4: 5000 };
    assert_eq!((tiny * half).amount_fx4, 0);
    assert_eq!((Amount { amount_fx4: -1 } * half).amount_fx4, 0);
    assert_eq!((Amount { amount_fx4: 3 } * half).amount_fx4, 1);
    assert_eq!((Amount { amount_fx4: -3 } * half).amount_fx4, -1);
    assert_eq!((Amount { amount_fx4: -25000 } * Amount { amount_fx4: -25000 }).amount_fx4, 62500);
    assert_eq!((Amount { amount_fx4: i64::MAX } * Amount { amount_fx4: 10000 }).amount_fx4, i64::MAX);
    assert_eq!((Amount { amount_fx4: i64::MIN } * Amount { amount_fx4: 10000 }).amount_fx4, i64::MIN);
    assert_eq!((Amount { amount_fx4: i64::MAX } * Amount { amount_fx4: 5000 }).amount_fx4, i64::MAX / 2);
}

#[test]
fn amounts_are_ordered_by_value() {
    let a = Amount { amount_fx4: -5 };
    let b = Amount { amount_fx4: 0 };
    let c = Amount { amount_fx4: 5 };
    assert!(a < b && b < c && a < c);
    assert!(c > b && b >= b && b <= b);
    assert!(!(b < b) && b == Amount::zero() && a != b);
    assert_eq!(a.partial_cmp(&c), Some(std::cmp::Ordering::Less));
    assert_eq!(c.partial_cmp(&a), Some(std::cmp::Ordering::Greater));
    assert_eq!(b.partial_cmp(&b), Some(std::cmp::Ordering::Equal));
    assert_eq!(a.cmp(&c), std::cmp::Ordering::Less);
    assert_eq!(a.max(c), c);
}

#[test]
fn checked_arithmetic_stops_at_the_range() {
    let max = Amount { amount_fx4: i64::MAX };
    let min = Amount { amount_fx4: i64::MIN };
    let one = Amount { amount_fx4: 1 };
    assert_eq!(max.checked_add(one), None);
    assert_eq!(min.checked_sub(one), None);
    assert_eq!(max.checked_sub(one), Some(Amount { amount_fx4: i64::MAX - 1 }));
    assert_eq!(min.checked_add(one), Some(Amount { amount_fx4: i64::MIN + 1 }));
    assert_eq!(one.checked_add(one), Some(Amount { amount_fx4: 2 }));
    assert_eq!(Amount::zero().checked_sub(min), None);
}
