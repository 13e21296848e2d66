//! Core logic of a small backlight tool for the Intel sysfs driver.
//!
//! The tool reads one kernel attribute file holding a raw brightness value,
//! converts between raw device units and whole percentages, and decides for
//! each subcommand whether to write a new raw value back or to report the
//! current percentage. This crate holds everything the tool decides and
//! computes: the privilege check, the parser for the attribute file, the
//! unit conversion, and the command planner. Reading the file, parsing the
//! command line and running the privileged write are left to the binary
//! around it.

pub mod convert;
pub mod errors;
pub mod parse;
pub mod session;
