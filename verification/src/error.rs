//! The errors that the interpreter finds by itself, before any
//! process runs.

use vstd::prelude::*;
use vstd::string::StringExecFns;

verus! {

/// An error of a pipe segment. It is reported and the interpreter
/// goes on.
#[derive(Debug, PartialEq, Eq)]
pub enum ShellError {
    /// The target pattern of a redirection expands to more than one
    /// file. Holds the pattern as it was written.
    AmbiguousRedirect(String),
    /// A builtin was misused: `cd` was given more than one directory.
    BuiltinUsage,
    /// The directory cannot be changed: `cd` was given no directory
    /// and no home directory is known.
    DirectoryChange,
}

/// A `ShellError` over character sequences.
pub enum ErrorView {
    AmbiguousRedirect(Seq<char>),
    BuiltinUsage,
    DirectoryChange,
}

impl View for ShellError {
    type V = ErrorView;

    open spec fn view(&self) -> ErrorView {
        match self {
            ShellError::AmbiguousRedirect(p) => ErrorView::AmbiguousRedirect(p@),
            ShellError::BuiltinUsage => ErrorView::BuiltinUsage,
            ShellError::DirectoryChange => ErrorView::DirectoryChange,
        }
    }
}

/// The line that reports an error.
pub open spec fn error_message(e: ErrorView) -> Seq<char> {
    match e {
        ErrorView::AmbiguousRedirect(p) => "shell: "@ + p + ": ambiguous redirect"@,
        ErrorView::BuiltinUsage => "shell: cd: too many arguments"@,
        ErrorView::DirectoryChange => "shell: cd: no home directory"@,
    }
}

impl ShellError {
    /// The line that reports this error.
    pub fn message(&self) -> (m: String)
        ensures
            m@ == error_message(self@),
    {
        match self {
            ShellError::AmbiguousRedirect(p) => {
                let m = String::from_str("shell: ");
                let m = m.concat(p.as_str());
                m.concat(": ambiguous redirect")
            },
            ShellError::BuiltinUsage => String::from_str("shell: cd: too many arguments"),
            ShellError::DirectoryChange => String::from_str("shell: cd: no home directory"),
        }
    }
}

} // verus!
