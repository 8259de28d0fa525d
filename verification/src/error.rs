//! Why a configuration could not be resolved.

use vstd::prelude::*;
use vstd::string::StringExecFns;

verus! {

/// Why a configuration could not be resolved.  Neither failure can be retried:
/// both reflect what the user wrote.
#[derive(Debug, Clone, PartialEq, Eq)]
pub enum ConfigError {
    /// The command line or the environment does not fit the option schema.
    /// Holds the offending argument as it was written, or the name of the
    /// environment variable whose value cannot be read.
    MalformedArguments(String),
    /// The options are well formed, but the target of the selected mode is
    /// incomplete: a client without both port and address, or a server without a
    /// port.
    MissingTarget,
}

/// Mathematical model of a [`ConfigError`].
pub enum ConfigErrorView {
    MalformedArguments(Seq<char>),
    MissingTarget,
}

impl View for ConfigError {
    type V = ConfigErrorView;

    open spec fn view(&self) -> ConfigErrorView {
        match self {
            ConfigError::MalformedArguments(text) => ConfigErrorView::MalformedArguments(text@),
            ConfigError::MissingTarget => ConfigErrorView::MissingTarget,
        }
    }
}

impl ConfigErrorView {
    /// The exit status that goes with the error: 2 for malformed arguments, 1
    /// for a missing target.
    pub open spec fn exit_status(self) -> int {
        match self {
            ConfigErrorView::MalformedArguments(_) => 2,
            ConfigErrorView::MissingTarget => 1,
        }
    }

    /// The text of the error message.
    pub open spec fn message(self) -> Seq<char> {
        match self {
            ConfigErrorView::MalformedArguments(text) => "malformed argument: "@ + text,
            ConfigErrorView::MissingTarget => "missing target: a port is required, and an address unless listening"@,
        }
    }
}

impl ConfigError {
    /// The exit status of a process that stops on this error: never zero.
    pub fn exit_status(&self) -> (status: i32)
        ensures
            status == self@.exit_status(),
            status != 0,
    {
        match self {
            ConfigError::MalformedArguments(_) => 2,
            ConfigError::MissingTarget => 1,
        }
    }

    /// A message for the user.  For malformed arguments it lists the offender.
    pub fn message(&self) -> (m: String)
        ensures
            m@ == self@.message(),
    {
        match self {
            ConfigError::MalformedArguments(text) => {
                String::from_str("malformed argument: ").concat(text.as_str())
            },
            ConfigError::MissingTarget => String::from_str(
                "missing target: a port is required, and an address unless listening",
            ),
        }
    }
}

/// The model of a result: the view of what it holds on either side.
pub open spec fn result_view<T: View, E: View>(r: Result<T, E>) -> Result<T::V, E::V> {
    match r {
        Ok(t) => Ok(t@),
        Err(e) => Err(e@),
    }
}

} // verus!
