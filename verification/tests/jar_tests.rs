use stepcheck::jar::cookies_header;
use stepcheck::jar::parse_cookie_line;
use stepcheck::jar::CookieJar;

#[test]
fn set_cookie_line_splits_on_first_equals() {
    assert_eq!(
        parse_cookie_line("a=1"),
        (String::from("a"), String::from("1"))
    );
    assert_eq!(
        parse_cookie_line("k=v=w"),
        (String::from("k"), String::from("v=w"))
    );
}

#[test]
fn attributes_after_semicolon_are_dropped() {
    assert_eq!(
        parse_cookie_line("sid=abc; Path=/; HttpOnly"),
        (String::from("sid"), String::from("abc"))
    );
}

#[test]
fn line_without_equals_keeps_empty_value() {
    assert_eq!(
        parse_cookie_line("flag"),
        (String::from("flag"), String::new())
    );
}

#[test]
fn header_joins_pairs_in_order() {
    let lines = vec![String::from("a=1"), String::from("b=2; Secure")];
    assert_eq!(cookies_header(&lines), "a=1; b=2");
}

#[test]
fn cookie_round_trip_through_jar() {
    let jar = CookieJar::new();
    let header = cookies_header(&vec![String::from("a=1; Path=/")]);
    jar.store(String::from("example.test"), header);
    let sent = jar.lookup("example.test").unwrap();
    assert!(sent.contains("a=1"));
    assert_eq!(jar.lookup("other.test"), None);
}

#[test]
fn store_overwrites_entry_whole() {
    let jar = CookieJar::new();
    jar.store(String::from("h"), String::from("a=1"));
    jar.store(String::from("h"), String::from("b=2"));
    assert_eq!(jar.lookup("h"), Some(String::from("b=2")));
}

#[test]
fn stores_to_distinct_hosts_are_independent() {
    let jar = CookieJar::new();
    for i in 0..8 {
        let host = format!("host{}.test", i);
        jar.store(host, format!("c{}=v{}", i, i));
    }
    for i in 0..8 {
        let host = format!("host{}.test", i);
        assert_eq!(jar.lookup(&host), Some(format!("c{}=v{}", i, i)));
    }
}

#[test]
fn header_of_no_lines_is_empty() {
    assert_eq!(cookies_header(&vec![]), "");
}
