//! The errors the backlight tool can report, and the message printed for each.

use vstd::prelude::*;

verus! {

/// What went wrong during one invocation of the tool.
#[derive(Clone, Copy, PartialEq, Eq, Debug)]
pub enum CheckErrors {
    /// The tool was not run as root.
    RootError,
    /// The brightness attribute file could not be opened.
    IntelFileError,
    /// The privileged write to the attribute file failed.
    WriteError,
    /// The attribute file did not hold a brightness value, or some other
    /// unexpected condition was met.
    UnknownError,
}

/// The error value every fallible operation of the library returns.
#[derive(Clone, Copy, PartialEq, Eq, Debug)]
pub struct BacklightError(pub CheckErrors);

/// The message printed for an error of the given kind.
pub open spec fn message_of(kind: CheckErrors) -> Seq<char> {
    match kind {
        CheckErrors::RootError => "Must be root"@,
        CheckErrors::UnknownError => "Something went wrong"@,
        CheckErrors::WriteError => (
            "Can not to write to file \"/sys/class/backlight/intel_backlight/brightness\""@
        ),
        CheckErrors::IntelFileError => (
            "Does not exist \"/sys/class/backlight/intel_backlight/brightness\""@
        ),
    }
}

impl BacklightError {
    /// The message the tool prints for this error.
    pub fn message(&self) -> (r: &'static str)
        ensures
            r@ == message_of(self.0),
    {
        match self.0 {
            CheckErrors::RootError => "Must be root",
            CheckErrors::UnknownError => "Something went wrong",
            CheckErrors::WriteError => (
                "Can not to write to file \"/sys/class/backlight/intel_backlight/brightness\""
            ),
            CheckErrors::IntelFileError => (
                "Does not exist \"/sys/class/backlight/intel_backlight/brightness\""
            ),
        }
    }
}

} // verus!
