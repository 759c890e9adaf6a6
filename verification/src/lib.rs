//! Verified core of a one-shot wallpaper installer.
//!
//! The crate holds the decisions of the installer and none of its side
//! effects: which files go where, which commands are launched with which
//! arguments, how each raw result is judged, in which order the steps run and
//! which failures stop the run. A thin driver performs the steps on the real
//! machine and reports back what happened.
//!
//! - `asset`: assets and the manifest that lists them.
//! - `script`: the steps of a run, in order.
//! - `command`: the two command lines and the configuration call.
//! - `wide`: NUL-terminated UTF-16 strings for the configuration call.
//! - `outcome`: how raw results are judged and what they leave in the report.
//! - `notice`: the lines of the console.
//! - `run`: the run as a state machine.
//! - `course`: which steps a run attempts, for every way they can end.
//! - `disk` and `footprint`: a model of the root directory, and what a run
//!   leaves in it.

pub mod asset;
pub mod command;
pub mod course;
pub mod disk;
pub mod footprint;
pub mod notice;
pub mod outcome;
pub mod run;
pub mod script;
pub mod wide;
