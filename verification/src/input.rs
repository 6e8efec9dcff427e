//! Reading the message from standard input.
//!
//! `-` as the message means "read stdin", so
//! `git log -1 --format=%s | busy text -` works. One trailing newline is
//! stripped, and one carriage return before it, because that is what every
//! shell pipeline appends; any other whitespace is the user's.

use vstd::prelude::*;
use vstd::string::*;

use crate::error::{is_usage, CliError};

verus! {

/// The text without one trailing `\n`, then without one trailing `\r`.
pub open spec fn without_line_ending(text: Seq<char>) -> Seq<char> {
    let a = if text.len() > 0 && text.last() == '\n' {
        text.drop_last()
    } else {
        text
    };
    if a.len() > 0 && a.last() == '\r' {
        a.drop_last()
    } else {
        a
    }
}

/// Why empty input is refused.
pub open spec fn empty_stdin_text() -> Seq<char> {
    "stdin was empty; `-` expects a message on stdin"@
}

/// Why a failed read is reported, with the failure's own words.
pub open spec fn read_failure_text(detail: Seq<char>) -> Seq<char> {
    "could not read the message from stdin: "@ + detail
}

/// `std::io::Read::read_to_string` into a fresh `String`: everything the
/// reader yields, or the text of the I/O error. What a reader yields depends
/// on the world outside, so nothing is promised of it.
#[verifier::external_body]
fn read_all<R: std::io::Read>(reader: &mut R) -> (r: Result<String, String>) {
    let mut buffer = String::new();
    reader.read_to_string(&mut buffer).map(|_| buffer).map_err(|error| error.to_string())
}

/// Finish a message read from stdin: strip the line ending a pipeline adds,
/// and refuse what is left if it is empty.
pub fn message_from(text: String) -> (res: Result<String, CliError>)
    ensures
        if without_line_ending(text@).len() == 0 {
            res matches Err(e) && is_usage(e, empty_stdin_text())
        } else {
            res matches Ok(m) && m@ == without_line_ending(text@)
        },
{
    let mut chars = crate::strings::chars_of(text.as_str());
    if chars.len() > 0 && chars[chars.len() - 1] == '\n' {
        chars.pop();
    }
    if chars.len() > 0 && chars[chars.len() - 1] == '\r' {
        chars.pop();
    }
    proof {
        assert(chars@ =~= without_line_ending(text@));
    }
    if chars.len() == 0 {
        return Err(
            CliError::Usage(String::from_str("stdin was empty; `-` expects a message on stdin")),
        );
    }
    Ok(crate::strings::string_of(chars.as_slice()))
}

/// Read the whole message from `reader`. A failed read is a runtime error,
/// not a usage error; empty input is a usage error.
pub fn read_from<R: std::io::Read>(reader: &mut R) -> (res: Result<String, CliError>)
    ensures
        res matches Err(CliError::Runtime(m)) ==> exists|detail: Seq<char>|
            m@ == read_failure_text(detail),
        res matches Err(e) ==> e is Runtime || is_usage(e, empty_stdin_text()),
        res matches Ok(m) ==> m@.len() > 0,
{
    match read_all(reader) {
        Ok(text) => message_from(text),
        Err(detail) => {
            let mut m = String::from_str("could not read the message from stdin: ");
            m.append(detail.as_str());
            assert(m@ == read_failure_text(detail@));
            Err(CliError::Runtime(m))
        },
    }
}

} // verus!
