//! What one invocation of the tool decides.
//!
//! A run of the tool is a short, fixed sequence: check that the user is
//! root, read the brightness attribute file, parse it, and act on the
//! subcommand — write a new raw value, or report the current percentage.
//! This module holds every decision in that sequence; the binary around the
//! library only gathers the user name, the file content and the command
//! line, and carries the chosen action out.

use crate::convert::{
    lemma_raw_of_percent_linear, percent_of_raw, raw_of_percent, to_percent, to_raw, MAX_RAW,
};
use crate::errors::{BacklightError, CheckErrors};
use crate::parse::{brightness_value, valid_brightness};
use vstd::prelude::*;

verus! {

/// A subcommand of the tool, with its percentage argument.
#[derive(Clone, Copy, PartialEq, Eq, Debug)]
pub enum Command {
    /// Set the backlight to the given percentage.
    SetTo { percent: u64 },
    /// Raise the backlight by the given number of percentage points.
    IncBy { percent: u64 },
    /// Lower the backlight by the given number of percentage points.
    DecBy { percent: u64 },
    /// Report the current backlight percentage.
    Get,
}

/// What the tool does for a command: write a raw value to the attribute
/// file, or report a percentage without touching the file.
#[derive(Clone, Copy, PartialEq, Eq, Debug)]
pub enum Action {
    /// Write this raw value to the attribute file.
    Write { raw: u64 },
    /// Print this percentage; the file stays as it is.
    Report { percent: u64 },
}

/// A percentage given on the command line lies in [0, 100].
pub open spec fn valid_command(cmd: Command) -> bool {
    match cmd {
        Command::SetTo { percent } => percent <= 100,
        Command::IncBy { percent } => percent <= 100,
        Command::DecBy { percent } => percent <= 100,
        Command::Get => true,
    }
}

/// The action planned for a command, given the current raw brightness.
///
/// `Set` converts its percentage to raw units. `Inc` and `Dec` first take
/// the current percentage, move it by the given amount, and convert back;
/// a decrement below zero bottoms out at a raw value of zero. `Get` only
/// reports the current percentage.
pub open spec fn plan_spec(cmd: Command, raw: int) -> Action {
    match cmd {
        Command::SetTo { percent } => Action::Write { raw: raw_of_percent(percent as int) as u64 },
        Command::IncBy { percent } => Action::Write {
            raw: raw_of_percent(percent_of_raw(raw) + percent) as u64,
        },
        Command::DecBy { percent } => Action::Write {
            raw: (if raw_of_percent(percent_of_raw(raw) - percent) >= 0 {
                raw_of_percent(percent_of_raw(raw) - percent)
            } else {
                0
            }) as u64,
        },
        Command::Get => Action::Report { percent: percent_of_raw(raw) as u64 },
    }
}

/// Decides what to do for a command, given the raw brightness read from
/// the attribute file.
pub fn plan(cmd: &Command, current_raw: u64) -> (r: Action)
    requires
        valid_command(*cmd),
        current_raw <= MAX_RAW,
    ensures
        r == plan_spec(*cmd, current_raw as int),
{
    match cmd {
        Command::SetTo { percent } => {
            proof {
                lemma_raw_of_percent_linear(*percent as int);
            }
            Action::Write { raw: to_raw(*percent) }
        },
        Command::IncBy { percent } => {
            let pct = to_percent(current_raw);
            proof {
                lemma_raw_of_percent_linear(pct + *percent);
            }
            Action::Write { raw: to_raw(pct + *percent) }
        },
        Command::DecBy { percent } => {
            let pct = to_percent(current_raw);
            if *percent <= pct {
                proof {
                    lemma_raw_of_percent_linear(pct - *percent);
                }
                Action::Write { raw: to_raw(pct - *percent) }
            } else {
                proof {
                    lemma_raw_of_percent_linear(pct - *percent);
                }
                Action::Write { raw: 0 }
            }
        },
        Command::Get => Action::Report { percent: to_percent(current_raw) },
    }
}

/// The user name under which the tool is allowed to work.
pub open spec fn root_user() -> Seq<char> {
    "root"@
}

/// Outcome of the privilege check. `None` stands for a user name that
/// could not be looked up at all.
pub open spec fn root_check(user: Option<Seq<char>>) -> Result<(), BacklightError> {
    match user {
        Option::None => Err(BacklightError(CheckErrors::UnknownError)),
        Option::Some(name) => if name == root_user() {
            Ok(())
        } else {
            Err(BacklightError(CheckErrors::RootError))
        },
    }
}

/// The user name as the specification sees it.
pub open spec fn user_view(user: Option<String>) -> Option<Seq<char>> {
    match user {
        Option::Some(name) => Option::Some(name@),
        Option::None => Option::None,
    }
}

/// Checks that the tool runs as root. The caller passes the user name the
/// environment reports, or `None` when the lookup failed.
pub fn check_root(user: &Option<String>) -> (r: Result<(), BacklightError>)
    ensures
        r == root_check(user_view(*user)),
{
    match user {
        Option::None => Err(BacklightError(CheckErrors::UnknownError)),
        Option::Some(name) => {
            let root: String = "root".to_owned();
            if *name == root {
                Ok(())
            } else {
                Err(BacklightError(CheckErrors::RootError))
            }
        },
    }
}

/// Everything one invocation decides, before any effect is carried out.
#[derive(Clone, Copy, PartialEq, Eq, Debug)]
pub enum SessionOutcome {
    /// The run goes ahead with this action.
    Act { action: Action },
    /// The run stops with this error.
    Fail { error: BacklightError },
}

/// The decision of a whole run: the user the environment reports, the
/// content of the attribute file (`None` when the file cannot be opened),
/// and the subcommand. The privilege check comes first; only then does the
/// file matter.
pub open spec fn session_spec(
    user: Option<Seq<char>>,
    content: Option<Seq<u8>>,
    cmd: Command,
) -> SessionOutcome {
    match root_check(user) {
        Result::Err(e) => SessionOutcome::Fail { error: e },
        Result::Ok(_) => match content {
            Option::None => SessionOutcome::Fail {
                error: BacklightError(CheckErrors::IntelFileError),
            },
            Option::Some(line) => if valid_brightness(line) {
                SessionOutcome::Act { action: plan_spec(cmd, brightness_value(line)) }
            } else {
                SessionOutcome::Fail { error: BacklightError(CheckErrors::UnknownError) }
            },
        },
    }
}

/// `Get` never writes the attribute file: the action planned for it is a
/// report, whatever the current brightness.
pub proof fn lemma_get_never_writes(raw: int)
    ensures
        plan_spec(Command::Get, raw) is Report,
        !(plan_spec(Command::Get, raw) is Write),
{
}

/// Run by anyone but root, the tool fails before the attribute file is
/// even looked at: the outcome is the privilege error and does not depend
/// on the file in any way.
pub proof fn lemma_nonroot_fails_before_file(
    user: Option<Seq<char>>,
    content: Option<Seq<u8>>,
    other: Option<Seq<u8>>,
    cmd: Command,
)
    requires
        user != Option::Some(root_user()),
    ensures
        session_spec(user, content, cmd) is Fail,
        session_spec(user, content, cmd) == session_spec(user, other, cmd),
        user is Some ==> session_spec(user, content, cmd) == (SessionOutcome::Fail {
            error: BacklightError(CheckErrors::RootError),
        }),
        user is None ==> session_spec(user, content, cmd) == (SessionOutcome::Fail {
            error: BacklightError(CheckErrors::UnknownError),
        }),
{
}

/// File content that does not hold a brightness value stops a root run
/// with `UnknownError`, whatever the subcommand. (A run by anyone else
/// fails earlier, at the privilege check.)
pub proof fn lemma_malformed_yields_unknown(content: Seq<u8>, cmd: Command)
    requires
        !valid_brightness(content),
    ensures
        session_spec(Option::Some(root_user()), Option::Some(content), cmd)
            == (SessionOutcome::Fail { error: BacklightError(CheckErrors::UnknownError) }),
{
}

} // verus!
