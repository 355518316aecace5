use stepcheck::expect::ExpectType;

#[test]
fn anchored_pattern_matches_exact_text() {
    let e = ExpectType::Matches(String::from("^ok$"));
    assert_eq!(e.check("ok"), Ok(String::new()));
}

#[test]
fn anchored_pattern_rejects_other_text() {
    let e = ExpectType::Matches(String::from("^ok$"));
    assert_eq!(
        e.check("ok "),
        Err(String::from("Not matched against `^ok$`"))
    );
    assert_eq!(
        e.check("not ok"),
        Err(String::from("Not matched against `^ok$`"))
    );
}

#[test]
fn substring_pattern_matches_anywhere() {
    let e = ExpectType::Matches(String::from("o"));
    assert_eq!(e.check("ok"), Ok(String::new()));
}

#[test]
fn invalid_pattern_fails_at_check_time() {
    let e = ExpectType::Matches(String::from("("));
    let msg = e.check("anything").unwrap_err();
    assert!(msg.starts_with("Could not create regex from `(`.  Error is:"));
}

#[test]
fn greater_than_succeeds_on_larger_value() {
    let e = ExpectType::GreaterThan(String::from("5.0"));
    assert_eq!(e.check("6"), Ok(String::from("6")));
}

#[test]
fn greater_than_fails_on_equal_value() {
    let e = ExpectType::GreaterThan(String::from("5.0"));
    assert_eq!(
        e.check("5"),
        Err(String::from("the value `5` is less than `5.0`"))
    );
}

#[test]
fn greater_than_parse_failure_names_threshold() {
    let e = ExpectType::GreaterThan(String::from("5.0"));
    let msg = e.check("abc").unwrap_err();
    assert_eq!(msg, "Could not parse `5.0` as a number");
}

#[test]
fn less_than_is_symmetric() {
    let e = ExpectType::LessThan(String::from("5.0"));
    assert_eq!(e.check("4.5"), Ok(String::from("4.5")));
    assert_eq!(
        e.check("6"),
        Err(String::from("the value `6` is greater than `5.0`"))
    );
}

#[test]
fn anything_passes_text_through() {
    let e = ExpectType::Anything;
    assert_eq!(e.check("whatever"), Ok(String::from("whatever")));
    assert_eq!(e.check(""), Ok(String::new()));
}

#[test]
fn default_expectation_is_anything() {
    assert_eq!(ExpectType::default(), ExpectType::Anything);
}
