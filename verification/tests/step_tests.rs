use stepcheck::expect::ExpectType;
use stepcheck::jar::CookieJar;
use stepcheck::shell::BashVariant;
use stepcheck::shell::CmdOutput;
use stepcheck::step::Outcome;
use stepcheck::step::RunType;
use stepcheck::step::Step;

#[test]
fn literal_action_returns_exact_text() {
    let jar = CookieJar::new();
    let rt = RunType::Value(String::from("precise text"));
    assert_eq!(rt.run(&jar, None), Ok(String::from("precise text")));
}

#[test]
fn literal_action_execute_applies_expectation() {
    let jar = CookieJar::new();
    let rt = RunType::Value(String::from("ok"));
    let o = rt.execute(&ExpectType::Matches(String::from("^ok$")), &jar, None, None);
    assert_eq!(o.result, Ok(String::new()));
}

#[test]
fn literal_action_execute_with_threshold() {
    let jar = CookieJar::new();
    let rt = RunType::Value(String::from("6"));
    let o = rt.execute(&ExpectType::GreaterThan(String::from("5.0")), &jar, None, None);
    assert_eq!(o.result, Ok(String::from("6")));
}

#[test]
fn literal_action_succeeds_whatever_the_text() {
    let jar = CookieJar::new();
    let rt = RunType::Value(String::new());
    let o = rt.execute(&ExpectType::Anything, &jar, None, None);
    assert_eq!(o.result, Ok(String::new()));
}

#[test]
fn duration_is_zero_without_outcome() {
    let step = Step {
        name: String::from("s"),
        description: None,
        run: RunType::Value(String::new()),
        expect: ExpectType::Anything,
        outcome: None,
        require: vec![],
        required_by: vec![],
    };
    assert_eq!(step.get_duration_ms(), 0);
}

#[test]
fn duration_derives_milliseconds() {
    let o = Outcome {
        result: Ok(String::new()),
        duration_nanos: 2500000,
    };
    let step = Step {
        name: String::from("s"),
        description: None,
        run: RunType::Value(String::new()),
        expect: ExpectType::Anything,
        outcome: Some(o),
        require: vec![],
        required_by: vec![],
    };
    assert_eq!(step.get_duration_ms(), 2);
}

#[test]
fn bash_action_with_injected_spawn() {
    let jar = CookieJar::new();
    let rt = RunType::Bash(BashVariant::CmdOnly(String::from("echo hi")));
    let out = CmdOutput {
        success: true,
        code: Some(0),
        stdout: String::from("hi\n"),
        stderr: String::new(),
    };
    let o = rt.execute(&ExpectType::Anything, &jar, Some(Ok(out)), None);
    assert_eq!(o.result, Ok(String::from("hi\n")));
}

#[test]
fn execute_accepts_a_caller_start_instant() {
    let jar = CookieJar::new();
    let started = std::time::Instant::now();
    let rt = RunType::Value(String::from("x"));
    let o = rt.execute(&ExpectType::Anything, &jar, None, Some(started));
    assert_eq!(o.result, Ok(String::from("x")));
}
