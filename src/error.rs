//! The errors a shell command reports.

use vstd::prelude::*;

use crate::text::push_str;

verus! {

/// What went wrong in a command.
#[derive(Clone, Debug, PartialEq, Eq)]
pub enum ShellError {
    /// An operating-system error, as its message.
    IoError(String),
    CommandNotFound(String),
    Backticks,
    ArgsNotFound(String),
    Other(String),
}

/// The message shown for an error.
pub open spec fn error_text(e: ShellError) -> Seq<char> {
    match e {
        ShellError::IoError(m) => m@,
        ShellError::CommandNotFound(c) => "command '"@ + c@ + "' not found"@,
        ShellError::Backticks => "command substitution with backticks (`) is not supported in our mini shell"@,
        ShellError::ArgsNotFound(c) => c@ + ": missing file operand"@,
        ShellError::Other(m) => m@,
    }
}

impl ShellError {
    /// The message shown for this error.
    pub fn message(&self) -> (r: String)
        ensures
            r@ == error_text(*self),
    {
        match self {
            ShellError::IoError(m) => m.clone(),
            ShellError::CommandNotFound(c) => {
                let mut s = "command '".to_string();
                push_str(&mut s, c.as_str());
                push_str(&mut s, "' not found");
                s
            },
            ShellError::Backticks => {
                "command substitution with backticks (`) is not supported in our mini shell".to_string()
            },
            ShellError::ArgsNotFound(c) => {
                let mut s = c.clone();
                push_str(&mut s, ": missing file operand");
                s
            },
            ShellError::Other(m) => m.clone(),
        }
    }
}

} // verus!
