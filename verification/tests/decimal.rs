use pdf_service::decimal::{push_decimal, push_fixed, push_shortest};

fn fixed(v: i64) -> String {
    let mut out = String::new();
    push_fixed(&mut out, v);
    out
}

fn shortest(v: i64) -> String {
    let mut out = String::new();
    push_shortest(&mut out, v);
    out
}

fn decimal(n: u64) -> String {
    let mut out = String::new();
    push_decimal(&mut out, n);
    out
}

#[test]
fn decimal_numerals() {
    assert_eq!(decimal(0), "0");
    assert_eq!(decimal(7), "7");
    assert_eq!(decimal(10), "10");
    assert_eq!(decimal(1203), "1203");
    assert_eq!(decimal(u64::MAX), "18446744073709551615");
}

#[test]
fn decimal_appends_to_what_is_there() {
    let mut out = String::from("page ");
    push_decimal(&mut out, 42);
    assert_eq!(out, "page 42");
    push_fixed(&mut out, 5);
    assert_eq!(out, "page 420.05");
    push_shortest(&mut out, 150);
    assert_eq!(out, "page 420.051.5");
}

#[test]
fn fixed_has_two_decimals() {
    assert_eq!(fixed(0), "0.00");
    assert_eq!(fixed(5), "0.05");
    assert_eq!(fixed(50), "0.50");
    assert_eq!(fixed(100), "1.00");
    assert_eq!(fixed(8220), "82.20");
    assert_eq!(fixed(123456), "1234.56");
}

#[test]
fn fixed_of_negative_numbers() {
    assert_eq!(fixed(-1), "-0.01");
    assert_eq!(fixed(-5), "-0.05");
    assert_eq!(fixed(-100), "-1.00");
    assert_eq!(fixed(-8225), "-82.25");
}

#[test]
fn fixed_at_the_limits() {
    assert_eq!(fixed(i64::MAX), "92233720368547758.07");
    assert_eq!(fixed(i64::MIN), "-92233720368547758.08");
}

#[test]
fn shortest_drops_trailing_zeros() {
    assert_eq!(shortest(0), "0");
    assert_eq!(shortest(61200), "612");
    assert_eq!(shortest(61250), "612.5");
    assert_eq!(shortest(61225), "612.25");
    assert_eq!(shortest(61205), "612.05");
    assert_eq!(shortest(7), "0.07");
    assert_eq!(shortest(70), "0.7");
}

#[test]
fn shortest_of_negative_numbers() {
    assert_eq!(shortest(-50), "-0.5");
    assert_eq!(shortest(-61200), "-612");
    assert_eq!(shortest(-1), "-0.01");
    assert_eq!(shortest(i64::MIN), "-92233720368547758.08");
    assert_eq!(shortest(i64::MAX), "92233720368547758.07");
}
