use toy_web_counter::decimal::{append_decimal, DecimalReader, DIGITS};

fn written(n: usize) -> String {
    let mut text = String::new();
    append_decimal(&mut text, n);
    text
}

fn read(text: &str) -> Option<usize> {
    let mut reader = DecimalReader::new();
    for c in text.chars() {
        reader.push(c);
    }
    reader.finish()
}

#[test]
fn digits_are_in_order() {
    assert_eq!(DIGITS, "0123456789");
}

#[test]
fn single_digits_are_written() {
    for (n, text) in ["0", "1", "2", "3", "4", "5", "6", "7", "8", "9"].iter().enumerate() {
        assert_eq!(written(n), *text);
    }
}

#[test]
fn numbers_are_written_without_leading_zeros() {
    assert_eq!(written(10), "10");
    assert_eq!(written(105), "105");
    assert_eq!(written(9000), "9000");
    assert_eq!(written(1234567890), "1234567890");
}

#[test]
fn largest_number_is_written() {
    assert_eq!(written(usize::MAX), format!("{}", usize::MAX));
}

#[test]
fn append_decimal_keeps_what_stood_before() {
    let mut text = String::from("Count = ");
    append_decimal(&mut text, 42);
    assert_eq!(text, "Count = 42");
    append_decimal(&mut text, 0);
    assert_eq!(text, "Count = 420");
}

#[test]
fn digits_read_as_their_value() {
    assert_eq!(read("0"), Some(0));
    assert_eq!(read("5"), Some(5));
    assert_eq!(read("42"), Some(42));
    assert_eq!(read("1234567890"), Some(1234567890));
}

#[test]
fn leading_zeros_add_nothing() {
    assert_eq!(read("007"), Some(7));
    assert_eq!(read("0000000000000000000000000000000000000001"), Some(1));
    assert_eq!(read("00"), Some(0));
}

#[test]
fn one_plus_sign_may_lead() {
    assert_eq!(read("+5"), Some(5));
    assert_eq!(read("+0"), Some(0));
    assert_eq!(read("+007"), Some(7));
}

#[test]
fn text_without_digits_reads_as_nothing() {
    assert_eq!(read(""), None);
    assert_eq!(read("+"), None);
    assert_eq!(read("-"), None);
}

#[test]
fn anything_but_digits_reads_as_nothing() {
    assert_eq!(read("abc"), None);
    assert_eq!(read("-5"), None);
    assert_eq!(read("++5"), None);
    assert_eq!(read("5+"), None);
    assert_eq!(read("+-5"), None);
    assert_eq!(read(" 5"), None);
    assert_eq!(read("5 "), None);
    assert_eq!(read("1_000"), None);
    assert_eq!(read("1.5"), None);
    assert_eq!(read("0x10"), None);
    assert_eq!(read("1e3"), None);
    assert_eq!(read("12a"), None);
    assert_eq!(read("a12"), None);
}

#[test]
fn digits_of_other_scripts_read_as_nothing() {
    assert_eq!(read("\u{0663}"), None);
    assert_eq!(read("\u{ff15}"), None);
    assert_eq!(read("1\u{0663}"), None);
}

#[test]
fn largest_number_reads_and_the_next_does_not() {
    let largest = format!("{}", usize::MAX);
    assert_eq!(read(&largest), Some(usize::MAX));
    let next = format!("{}", usize::MAX as u128 + 1);
    assert_eq!(read(&next), None);
    let ten_times = format!("{}0", usize::MAX);
    assert_eq!(read(&ten_times), None);
    assert_eq!(read("99999999999999999999999999999999999999999999"), None);
}

#[test]
fn a_number_that_grew_too_large_stays_unread() {
    let text = format!("{}0000", usize::MAX);
    assert_eq!(read(&text), None);
}

#[test]
fn written_numbers_read_back() {
    let numbers = [
        0usize,
        1,
        9,
        10,
        11,
        99,
        100,
        101,
        65535,
        65536,
        4294967295,
        usize::MAX - 1,
        usize::MAX,
    ];
    for n in numbers {
        assert_eq!(read(&written(n)), Some(n));
    }
}

#[test]
fn reading_agrees_with_the_standard_parser() {
    let texts = [
        "",
        "+",
        "-",
        "0",
        "+0",
        "-0",
        "00",
        "12",
        "+12",
        "-12",
        "1 2",
        "12x",
        "x12",
        "18446744073709551615",
        "18446744073709551616",
        "4294967295",
        "4294967296",
    ];
    for text in texts {
        assert_eq!(read(text), text.parse::<usize>().ok(), "{:?}", text);
    }
}
