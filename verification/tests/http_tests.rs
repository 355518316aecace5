use stepcheck::expect::ExpectType;
use stepcheck::http::default_cookies;
use stepcheck::http::default_method;
use stepcheck::http::default_status;
use stepcheck::http::request_method;
use stepcheck::http::status_gate;
use stepcheck::http::status_mismatch_msg;
use stepcheck::http::HttpOptions;
use stepcheck::http::HttpVariant;
use stepcheck::jar::CookieJar;
use stepcheck::step::RunType;

#[test]
fn malformed_url_fails_naming_it() {
    let jar = CookieJar::new();
    let v = HttpVariant::UrlOnly(String::from("notaurl"));
    let msg = v.run(&jar).unwrap_err();
    assert!(msg.starts_with("Failed to parse url `notaurl`: "));
}

#[test]
fn url_without_host_fails() {
    let jar = CookieJar::new();
    let v = HttpVariant::UrlOnly(String::from("data:text/plain,hi"));
    let msg = v.run(&jar).unwrap_err();
    assert_eq!(msg, "No host could be found for url: data:text/plain,hi");
}

#[test]
fn http_action_through_execute() {
    let jar = CookieJar::new();
    let rt = RunType::Http(HttpVariant::UrlOnly(String::from("::bad::")));
    let o = rt.execute(&ExpectType::Anything, &jar, None, None);
    assert!(o
        .result
        .unwrap_err()
        .starts_with("Failed to parse url `::bad::`"));
}

#[test]
fn option_form_keeps_explicit_fields() {
    assert_eq!(default_status(), 200);
    assert!(!default_cookies());
    assert_eq!(default_method(), "GET");
    let o = HttpOptions {
        url: String::from("http://h/"),
        method: String::from("POST"),
        get_output: false,
        save_cookies: true,
        status: 302,
        user: Some(String::from("u")),
        pass: Some(String::from("p")),
        form: None,
    };
    let v = HttpVariant::Options(o);
    match v {
        HttpVariant::Options(opts) => {
            assert_eq!(opts.method, "POST");
            assert_eq!(opts.status, 302);
            assert!(opts.save_cookies);
        }
        HttpVariant::UrlOnly(_) => unreachable!(),
    }
}

#[test]
fn form_body_upgrades_default_get_to_post() {
    assert_eq!(request_method(&String::from("GET"), true), "POST");
    assert_eq!(request_method(&String::from("GET"), false), "GET");
    assert_eq!(request_method(&String::from("PUT"), true), "PUT");
    assert_eq!(request_method(&String::from("PROPFIND"), true), "PROPFIND");
}

#[test]
fn status_mismatch_names_both_codes() {
    assert_eq!(
        status_mismatch_msg(302, 200),
        "returned status `302` does not match expected `200`"
    );
    assert_eq!(status_gate(200, 200), None);
    assert_eq!(
        status_gate(301, 200),
        Some(String::from(
            "returned status `301` does not match expected `200`"
        ))
    );
}
