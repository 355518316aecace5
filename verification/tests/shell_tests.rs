use stepcheck::shell::bash_result;
use stepcheck::shell::default_output;
use stepcheck::shell::shell_result;
use stepcheck::shell::BashOptions;
use stepcheck::shell::BashVariant;
use stepcheck::shell::CmdOutput;

#[test]
fn success_with_capture_returns_exact_stdout() {
    let out = CmdOutput {
        success: true,
        code: Some(0),
        stdout: String::from("hello\n"),
        stderr: String::new(),
    };
    assert_eq!(shell_result(&out, true), Ok(String::from("hello\n")));
}

#[test]
fn success_without_capture_returns_empty_text() {
    let out = CmdOutput {
        success: true,
        code: Some(0),
        stdout: String::from("hello\n"),
        stderr: String::new(),
    };
    assert_eq!(shell_result(&out, false), Ok(String::new()));
}

#[test]
fn nonzero_exit_message_contains_code_and_streams() {
    let out = CmdOutput {
        success: false,
        code: Some(3),
        stdout: String::from("partial"),
        stderr: String::from("boom"),
    };
    let msg = shell_result(&out, true).unwrap_err();
    assert_eq!(msg, "Exit Code:3, StdErr:boom, StdOut:partial");
    assert!(msg.contains("3"));
}

#[test]
fn missing_exit_code_is_reported_as_one() {
    let out = CmdOutput {
        success: false,
        code: None,
        stdout: String::new(),
        stderr: String::new(),
    };
    assert_eq!(
        shell_result(&out, true).unwrap_err(),
        "Exit Code:1, StdErr:, StdOut:"
    );
}

#[test]
fn negative_exit_code_formats() {
    let out = CmdOutput {
        success: false,
        code: Some(-9),
        stdout: String::new(),
        stderr: String::new(),
    };
    assert_eq!(
        shell_result(&out, true).unwrap_err(),
        "Exit Code:-9, StdErr:, StdOut:"
    );
}

#[test]
fn bare_command_captures_by_default() {
    let v = BashVariant::CmdOnly(String::from("true"));
    let o = v.options();
    assert!(o.get_output);
    assert_eq!(o.cmd, "true");
    assert!(default_output());
}

#[test]
fn spawn_failure_is_prefixed() {
    let v = BashVariant::Options(BashOptions {
        cmd: String::from("x"),
        get_output: true,
    });
    let r = bash_result(&v, &Err(String::from("no such shell")));
    assert_eq!(r, Err(String::from("Err:no such shell")));
}
