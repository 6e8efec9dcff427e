//! Errors the command line reports, and the exit status of each.

use vstd::prelude::*;
use vstd::string::*;

use crate::strings::{decimal, decimal_string};

verus! {

/// A failure the command line reports.
#[derive(Debug, Clone, PartialEq, Eq)]
pub enum CliError {
    /// The user asked for something impossible. Exits 2.
    Usage(String),
    /// Something failed at run time. Exits 1.
    Runtime(String),
    /// `display/draw` answered 409: the bar runs something of higher priority.
    PriorityConflict { requested: u8, config: String },
}

/// The exit status each kind of failure carries.
pub open spec fn spec_exit_code(e: CliError) -> int {
    match e {
        CliError::Usage(_) => 2,
        CliError::Runtime(_) => 1,
        CliError::PriorityConflict { .. } => 1,
    }
}

/// The text shown for a priority conflict.
pub open spec fn conflict_message(requested: u8, config: Seq<char>) -> Seq<char> {
    "the bar is running an app at a higher priority than this request (priority "@
        + decimal(requested as nat)
        + ").\nAn active BUSY or CUSTOM work session runs at 90; built-in apps run at 10.\nRetry with `--priority 95`, or set `priority` under [defaults] in "@
        + config + "."@
}

/// The text shown for an error.
pub open spec fn error_message(e: CliError) -> Seq<char> {
    match e {
        CliError::Usage(m) => m@,
        CliError::Runtime(m) => m@,
        CliError::PriorityConflict { requested, config } => conflict_message(requested, config@),
    }
}

/// Whether `e` is a usage error carrying exactly `message`.
pub open spec fn is_usage(e: CliError, message: Seq<char>) -> bool {
    e matches CliError::Usage(m) && m@ == message
}

impl CliError {
    /// The process exit status: 2 for a usage error, 1 otherwise.
    pub fn exit_code(&self) -> (code: i32)
        ensures
            code == spec_exit_code(*self),
    {
        match self {
            CliError::Usage(_) => 2,
            CliError::Runtime(_) | CliError::PriorityConflict { .. } => 1,
        }
    }

    /// A usage error.
    pub fn usage(message: String) -> (e: CliError)
        ensures
            e == CliError::Usage(message),
    {
        CliError::Usage(message)
    }

    /// A runtime error.
    pub fn runtime(message: String) -> (e: CliError)
        ensures
            e == CliError::Runtime(message),
    {
        CliError::Runtime(message)
    }

    /// A usage error whose text is `prefix` followed by `detail`.
    pub(crate) fn usage_with(prefix: &str, detail: &str) -> (e: CliError)
        ensures
            is_usage(e, prefix@ + detail@),
    {
        let mut m = String::from_str(prefix);
        m.append(detail);
        CliError::Usage(m)
    }

    /// A runtime error whose text is `prefix` followed by `detail`.
    pub(crate) fn runtime_with(prefix: &str, detail: &str) -> (e: CliError)
        ensures
            e matches CliError::Runtime(m) && m@ == prefix@ + detail@,
    {
        let mut m = String::from_str(prefix);
        m.append(detail);
        CliError::Runtime(m)
    }

    /// The message shown to the user.
    pub fn message(&self) -> (m: String)
        ensures
            m@ == error_message(*self),
    {
        match self {
            CliError::Usage(m) => m.clone(),
            CliError::Runtime(m) => m.clone(),
            CliError::PriorityConflict { requested, config } => {
                let mut m = String::from_str(
                    "the bar is running an app at a higher priority than this request (priority ",
                );
                let digits = decimal_string(*requested as u64);
                m.append(digits.as_str());
                m.append(
                    ").\nAn active BUSY or CUSTOM work session runs at 90; built-in apps run at 10.\nRetry with `--priority 95`, or set `priority` under [defaults] in ",
                );
                m.append(config.as_str());
                m.append(".");
                m
            },
        }
    }
}

/// How a request to the bar failed, as far as the next step depends on it.
#[derive(Debug, Clone, PartialEq, Eq)]
pub enum DeviceFailure {
    /// `409`: something of higher priority is running.
    Conflict,
    /// The bar wants an access key; the error's own text.
    Unauthorized(String),
    /// Anything else: the error's text followed by each cause's.
    Other(String),
}

/// The advice added to an authorization failure.
pub open spec fn unauthorized_text(detail: Seq<char>) -> Seq<char> {
    detail
        + "\nThe bar requires an access key. Set BUSY_TOKEN, or `token` in the config file. Configure the key on the device under Settings > HTTP API."@
}

/// Turn a failed request into something a user can act on. A `409` names
/// the priority that lost (the default one when the request carried none)
/// and the config file to change it in.
pub fn device_error(failure: DeviceFailure, requested: Option<u8>, config: Option<String>) -> (e:
    CliError)
    ensures
        match failure {
            DeviceFailure::Conflict => e matches CliError::PriorityConflict { requested: r, config: c }
                && r == match requested {
                    Some(p) => p,
                    None => 95u8,
                } && c@ == match config {
                    Some(path) => path@,
                    None => "~/.config/busy/config.toml"@,
                },
            DeviceFailure::Unauthorized(detail) => e matches CliError::Runtime(m) && m@
                == unauthorized_text(detail@),
            DeviceFailure::Other(chain) => e == CliError::Runtime(chain),
        },
{
    match failure {
        DeviceFailure::Conflict => CliError::PriorityConflict {
            requested: match requested {
                Some(p) => p,
                None => 95,
            },
            config: match config {
                Some(c) => c,
                None => String::from_str("~/.config/busy/config.toml"),
            },
        },
        DeviceFailure::Unauthorized(detail) => {
            let mut m = detail;
            m.append(
                "\nThe bar requires an access key. Set BUSY_TOKEN, or `token` in the config file. Configure the key on the device under Settings > HTTP API.",
            );
            CliError::Runtime(m)
        },
        DeviceFailure::Other(chain) => CliError::Runtime(chain),
    }
}

impl From<String> for CliError {
    fn from(message: String) -> (e: CliError) {
        CliError::Usage(message)
    }
}

impl vstd::std_specs::convert::FromSpecImpl<String> for CliError {
    open spec fn obeys_from_spec() -> bool {
        true
    }

    open spec fn from_spec(message: String) -> CliError {
        CliError::Usage(message)
    }
}

} // verus!
