use busy::error::CliError;
use busy::input::{message_from, read_from};

struct FailingReader;

impl std::io::Read for FailingReader {
    fn read(&mut self, _buf: &mut [u8]) -> std::io::Result<usize> {
        Err(std::io::Error::other("no such device"))
    }
}

#[test]
fn a_failed_stdin_read_is_a_runtime_error_not_a_usage_error() {
    let error = read_from(&mut FailingReader).expect_err("should fail");
    assert!(
        matches!(error, CliError::Runtime(_)),
        "a stdin read failure must be a runtime error, not a usage error; got {error:?}"
    );
}

#[test]
fn empty_stdin_is_still_a_usage_error() {
    let error = read_from(&mut std::io::empty()).expect_err("should fail");
    assert!(
        matches!(error, CliError::Usage(_)),
        "empty stdin must stay a usage error; got {error:?}"
    );
}

#[test]
fn a_read_failure_names_its_cause() {
    let error = read_from(&mut FailingReader).expect_err("should fail");
    assert_eq!(error.message(), "could not read the message from stdin: no such device");
}

#[test]
fn one_trailing_newline_and_carriage_return_are_stripped() {
    let mut input: &[u8] = b"deploy done\r\n";
    assert_eq!(read_from(&mut input).expect("should read"), "deploy done");
    assert_eq!(message_from("two\n\n".to_owned()).expect("should read"), "two\n");
    assert_eq!(message_from("  spaced  ".to_owned()).expect("should read"), "  spaced  ");
}

#[test]
fn a_lone_line_ending_is_empty_input() {
    let error = message_from("\r\n".to_owned()).expect_err("should fail");
    assert_eq!(error.message(), "stdin was empty; `-` expects a message on stdin");
    assert_eq!(error.exit_code(), 2);
}
