//! What a step came to: the raw results that the driver reports, how each is
//! judged, and the status that a judged step leaves in the report.

use vstd::prelude::*;
use crate::script::Step;

verus! {

/// What the operating system or a child process said about a failure.
#[derive(Clone, Copy, Debug, PartialEq, Eq, Structural)]
pub enum Diagnostic {
    /// The error code that the operating system held after a failed
    /// configuration call.
    OsError(u32),
    /// The exit code of a child that ended without success.
    ExitCode(i32),
    /// The child ended without success and without an exit code.
    NoExitCode,
    /// A file operation or a launch failed with this error number.
    Io(i32),
    /// A file operation or a launch failed without an error number.
    IoUnnumbered,
}

/// A step as the driver saw it end.
#[derive(Clone, Copy, Debug, PartialEq, Eq, Structural)]
pub enum Outcome {
    Succeeded,
    Failed(Diagnostic),
}

/// What a step leaves in the report: that it is done, or which kind of
/// failure it was, with the diagnostic.
#[derive(Clone, Copy, Debug, PartialEq, Eq, Structural)]
pub enum Status {
    Done,
    WriteFailed(Diagnostic),
    InstallFailed(Diagnostic),
    WallpaperFailed(Diagnostic),
    LockScreenFailed(Diagnostic),
    CleanupFailed(Diagnostic),
}

/// How a launched child ended, as the driver reports it.
#[derive(Clone, Copy, Debug, PartialEq, Eq)]
pub enum Launch {
    /// The child ran and ended. `success` is the verdict of the platform on
    /// its exit status; `code` is the exit code, if it has one.
    Exited { success: bool, code: Option<i32> },
    /// The child could not be started; `error` is the error number, if any.
    NotStarted { error: Option<i32> },
}

/// The diagnostic of an I/O failure with the error number `error`.
pub open spec fn io_diagnostic(error: Option<i32>) -> Diagnostic {
    match error {
        Some(number) => Diagnostic::Io(number),
        None => Diagnostic::IoUnnumbered,
    }
}

/// A file operation succeeded if it returned no error.
pub open spec fn io_judgement(result: Result<(), Option<i32>>) -> Outcome {
    match result {
        Ok(_) => Outcome::Succeeded,
        Err(error) => Outcome::Failed(io_diagnostic(error)),
    }
}

/// A launch succeeded if the child started and the platform counts its exit
/// status as success. Otherwise the exit code is the diagnostic, or the
/// error that kept the child from starting.
pub open spec fn launch_judgement(launch: Launch) -> Outcome {
    match launch {
        Launch::NotStarted { error } => Outcome::Failed(io_diagnostic(error)),
        Launch::Exited { success, code } => if success {
            Outcome::Succeeded
        } else {
            match code {
                Some(c) => Outcome::Failed(Diagnostic::ExitCode(c)),
                None => Outcome::Failed(Diagnostic::NoExitCode),
            }
        },
    }
}

/// The configuration call succeeded if it returned anything but zero;
/// otherwise the error code that the operating system held is the
/// diagnostic.
pub open spec fn desktop_judgement(returned: i32, last_error: u32) -> Outcome {
    if returned != 0 {
        Outcome::Succeeded
    } else {
        Outcome::Failed(Diagnostic::OsError(last_error))
    }
}

/// The status that `step` leaves when it ends with `outcome`: each kind of
/// step has its own kind of failure.
pub open spec fn status_of(step: Step, outcome: Outcome) -> Status {
    match outcome {
        Outcome::Succeeded => Status::Done,
        Outcome::Failed(d) => match step {
            Step::CreateFolder { .. } => Status::WriteFailed(d),
            Step::WriteAsset { .. } => Status::WriteFailed(d),
            Step::InstallRuntime { .. } => Status::InstallFailed(d),
            Step::SetDesktop { .. } => Status::WallpaperFailed(d),
            Step::SetLockScreen { .. } => Status::LockScreenFailed(d),
            Step::RemoveFolder { .. } => Status::CleanupFailed(d),
            Step::RemoveFile { .. } => Status::CleanupFailed(d),
        },
    }
}

impl Status {
    /// A failed write stops the run; a failed removal makes it end in
    /// failure. Every other failure is only reported.
    pub open spec fn fatal(self) -> bool {
        self is WriteFailed || self is CleanupFailed
    }

    /// The step failed.
    pub open spec fn failed(self) -> bool {
        !(self is Done)
    }

    /// Whether this status is fatal.
    pub fn is_fatal(&self) -> (r: bool)
        ensures
            r == self.fatal(),
    {
        match self {
            Status::WriteFailed(_) => true,
            Status::CleanupFailed(_) => true,
            _ => false,
        }
    }

    /// Whether this status is a failure.
    pub fn is_failure(&self) -> (r: bool)
        ensures
            r == self.failed(),
    {
        match self {
            Status::Done => false,
            _ => true,
        }
    }

    /// The diagnostic of a failure.
    pub fn diagnostic(&self) -> (d: Option<Diagnostic>)
        ensures
            d == match *self {
                Status::Done => None,
                Status::WriteFailed(x) => Some(x),
                Status::InstallFailed(x) => Some(x),
                Status::WallpaperFailed(x) => Some(x),
                Status::LockScreenFailed(x) => Some(x),
                Status::CleanupFailed(x) => Some(x),
            },
    {
        match self {
            Status::Done => None,
            Status::WriteFailed(x) => Some(*x),
            Status::InstallFailed(x) => Some(*x),
            Status::WallpaperFailed(x) => Some(*x),
            Status::LockScreenFailed(x) => Some(*x),
            Status::CleanupFailed(x) => Some(*x),
        }
    }
}

/// Judges the result of a file operation: `Ok` if it went through, else the
/// error number of the failure, if it has one.
pub fn judge_io(result: Result<(), Option<i32>>) -> (outcome: Outcome)
    ensures
        outcome == io_judgement(result),
{
    match result {
        Ok(_) => Outcome::Succeeded,
        Err(Some(number)) => Outcome::Failed(Diagnostic::Io(number)),
        Err(None) => Outcome::Failed(Diagnostic::IoUnnumbered),
    }
}

/// Judges how a launched child ended.
pub fn judge_launch(launch: Launch) -> (outcome: Outcome)
    ensures
        outcome == launch_judgement(launch),
{
    match launch {
        Launch::NotStarted { error: Some(number) } => Outcome::Failed(Diagnostic::Io(number)),
        Launch::NotStarted { error: None } => Outcome::Failed(Diagnostic::IoUnnumbered),
        Launch::Exited { success, code } => {
            if success {
                Outcome::Succeeded
            } else {
                match code {
                    Some(c) => Outcome::Failed(Diagnostic::ExitCode(c)),
                    None => Outcome::Failed(Diagnostic::NoExitCode),
                }
            }
        },
    }
}

/// Judges the configuration call that sets the desktop wallpaper by the
/// value it `returned` and the error code that the operating system held
/// afterwards.
pub fn judge_desktop_call(returned: i32, last_error: u32) -> (outcome: Outcome)
    ensures
        outcome == desktop_judgement(returned, last_error),
{
    if returned != 0 {
        Outcome::Succeeded
    } else {
        Outcome::Failed(Diagnostic::OsError(last_error))
    }
}

/// The status that `step` leaves in the report when it ends with `outcome`.
pub fn classify(step: Step, outcome: Outcome) -> (status: Status)
    ensures
        status == status_of(step, outcome),
{
    match outcome {
        Outcome::Succeeded => Status::Done,
        Outcome::Failed(d) => match step {
            Step::CreateFolder { .. } => Status::WriteFailed(d),
            Step::WriteAsset { .. } => Status::WriteFailed(d),
            Step::InstallRuntime { .. } => Status::InstallFailed(d),
            Step::SetDesktop { .. } => Status::WallpaperFailed(d),
            Step::SetLockScreen { .. } => Status::LockScreenFailed(d),
            Step::RemoveFolder { .. } => Status::CleanupFailed(d),
            Step::RemoveFile { .. } => Status::CleanupFailed(d),
        },
    }
}

/// A step's status is fatal exactly if the step failed and belongs to
/// deployment or cleanup: the installer and both wallpaper steps never stop
/// or fail the run.
pub proof fn law_only_disk_steps_are_fatal(step: Step, outcome: Outcome)
    ensures
        status_of(step, outcome).fatal() <==> outcome is Failed && (step.deploys()
            || step.cleans()),
        status_of(step, outcome) is WriteFailed <==> outcome is Failed && step.deploys(),
        status_of(step, outcome) is CleanupFailed <==> outcome is Failed && step.cleans(),
{
}

} // verus!
