use stepcheck::text::find_char;
use stepcheck::text::i64_to_dec;
use stepcheck::text::u64_to_dec;

#[test]
fn writes_decimal() {
    assert_eq!(u64_to_dec(0), "0");
    assert_eq!(u64_to_dec(7), "7");
    assert_eq!(u64_to_dec(1234567890), "1234567890");
}

#[test]
fn writes_negative_decimal() {
    assert_eq!(i64_to_dec(-42), "-42");
    assert_eq!(i64_to_dec(7), "7");
    assert_eq!(i64_to_dec(0), "0");
}

#[test]
fn finds_first_occurrence() {
    assert_eq!(find_char("a=b=c", '='), Some(1));
    assert_eq!(find_char("abc", '='), None);
    assert_eq!(find_char("", ';'), None);
}

#[test]
fn writes_largest_value() {
    assert_eq!(u64_to_dec(u64::MAX), "18446744073709551615");
}
