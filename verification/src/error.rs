//! The failures that an invocation can surface.

use vstd::prelude::*;
use vstd::string::*;

verus! {

/// The class of a failed filesystem or repository operation.
#[derive(Debug, Clone, Copy, PartialEq, Eq)]
pub enum IoErrorKind {
    NotFound,
    InvalidData,
    InvalidInput,
    Other,
}

/// Everything that can go wrong while a clean command is run and recorded.
#[derive(Debug, Clone, PartialEq, Eq)]
pub enum CleanError {
    /// The configuration tool could not be started, or its liveness probe
    /// did not exit with success.
    ConfigToolNotFound,
    /// The user's command was empty, could not be started, or failed.
    CommandExecutionFailed(String),
    /// One field could not be stored through the configuration tool.
    ConfigSaveFailed(String),
    /// The configuration tool could not be started for a query.
    ConfigReadFailed(String),
    /// The root override names something that is not a directory.
    InvalidEnvironmentRoot(String),
    /// A filesystem probe or a repository operation failed.
    IoError(IoErrorKind, String),
}

/// The mathematical value of a [`CleanError`].
pub enum CleanErrorView {
    ConfigToolNotFound,
    CommandExecutionFailed(Seq<char>),
    ConfigSaveFailed(Seq<char>),
    ConfigReadFailed(Seq<char>),
    InvalidEnvironmentRoot(Seq<char>),
    IoError(IoErrorKind, Seq<char>),
}

impl View for CleanError {
    type V = CleanErrorView;

    open spec fn view(&self) -> CleanErrorView {
        match *self {
            CleanError::ConfigToolNotFound => CleanErrorView::ConfigToolNotFound,
            CleanError::CommandExecutionFailed(m) => CleanErrorView::CommandExecutionFailed(m@),
            CleanError::ConfigSaveFailed(m) => CleanErrorView::ConfigSaveFailed(m@),
            CleanError::ConfigReadFailed(m) => CleanErrorView::ConfigReadFailed(m@),
            CleanError::InvalidEnvironmentRoot(p) => CleanErrorView::InvalidEnvironmentRoot(p@),
            CleanError::IoError(k, m) => CleanErrorView::IoError(k, m@),
        }
    }
}

/// The line shown to the user for an error.
pub open spec fn message_text(e: CleanErrorView) -> Seq<char> {
    match e {
        CleanErrorView::ConfigToolNotFound => {
            "c2rust-config not found. Please install c2rust-config first."@
        },
        CleanErrorView::CommandExecutionFailed(m) => "Command execution failed: "@ + m,
        CleanErrorView::ConfigSaveFailed(m) => "Failed to save configuration: "@ + m,
        CleanErrorView::ConfigReadFailed(m) => "Failed to read configuration: "@ + m,
        CleanErrorView::InvalidEnvironmentRoot(p) => {
            "C2RUST_PROJECT_ROOT path does not exist or is not a directory: "@ + p
        },
        CleanErrorView::IoError(_, m) => "IO error: "@ + m,
    }
}

/// `head` followed by `tail`.
pub fn prefixed(head: &str, tail: &str) -> (r: String)
    ensures
        r@ == head@ + tail@,
{
    let mut out = String::from_str(head);
    out.append(tail);
    out
}

impl CleanError {
    /// The human-readable message of this error.
    pub fn message(&self) -> (r: String)
        ensures
            r@ == message_text(self@),
    {
        match self {
            CleanError::ConfigToolNotFound => String::from_str(
                "c2rust-config not found. Please install c2rust-config first.",
            ),
            CleanError::CommandExecutionFailed(m) => prefixed(
                "Command execution failed: ",
                m.as_str(),
            ),
            CleanError::ConfigSaveFailed(m) => prefixed(
                "Failed to save configuration: ",
                m.as_str(),
            ),
            CleanError::ConfigReadFailed(m) => prefixed(
                "Failed to read configuration: ",
                m.as_str(),
            ),
            CleanError::InvalidEnvironmentRoot(p) => prefixed(
                "C2RUST_PROJECT_ROOT path does not exist or is not a directory: ",
                p.as_str(),
            ),
            CleanError::IoError(_, m) => prefixed("IO error: ", m.as_str()),
        }
    }
}

} // verus!
