use stepcheck::decimal::num_cmp;
use stepcheck::decimal::NumCmp;

#[test]
fn six_greater_than_five() {
    assert_eq!(num_cmp("6", "5.0"), NumCmp::Gt);
}

#[test]
fn five_equals_five_text() {
    assert_eq!(num_cmp("5", "5.0"), NumCmp::Eq);
}

#[test]
fn not_a_number() {
    assert_eq!(num_cmp("abc", "5.0"), NumCmp::NotNum);
}

#[test]
fn negative_less_than_positive() {
    assert_eq!(num_cmp("-3.5", "2"), NumCmp::Lt);
}

#[test]
fn negative_zero_equals_zero() {
    assert_eq!(num_cmp("-0.0", "0"), NumCmp::Eq);
}

#[test]
fn fraction_digits_decide() {
    assert_eq!(num_cmp("1.25", "1.3"), NumCmp::Lt);
}

#[test]
fn leading_zeros_ignored() {
    assert_eq!(num_cmp("007", "7.000"), NumCmp::Eq);
}

#[test]
fn plus_sign_accepted() {
    assert_eq!(num_cmp("+4", "3.9"), NumCmp::Gt);
}

#[test]
fn empty_text_is_not_a_number() {
    assert_eq!(num_cmp("", "1"), NumCmp::NotNum);
}

#[test]
fn lone_dot_is_not_a_number() {
    assert_eq!(num_cmp(".", "1"), NumCmp::NotNum);
}

#[test]
fn two_dots_is_not_a_number() {
    assert_eq!(num_cmp("1.2.3", "1"), NumCmp::NotNum);
}

#[test]
fn trailing_dot_reads_as_integer() {
    assert_eq!(num_cmp("5.", "5"), NumCmp::Eq);
}

#[test]
fn longer_whole_number_is_larger() {
    assert_eq!(num_cmp("10", "9"), NumCmp::Gt);
    assert_eq!(num_cmp("9", "10"), NumCmp::Lt);
}

#[test]
fn negative_ordering_flips() {
    assert_eq!(num_cmp("-10", "-2"), NumCmp::Lt);
    assert_eq!(num_cmp("-2", "-10"), NumCmp::Gt);
}
