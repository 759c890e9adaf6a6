//! The lines that a run says on the console.

use vstd::prelude::*;
use vstd::string::StringExecFns;
use crate::outcome::{Diagnostic, Status};
use crate::script::Step;

verus! {

/// The decimal digit for a value below ten.
pub open spec fn digit(d: int) -> char {
    if d == 0 {
        '0'
    } else if d == 1 {
        '1'
    } else if d == 2 {
        '2'
    } else if d == 3 {
        '3'
    } else if d == 4 {
        '4'
    } else if d == 5 {
        '5'
    } else if d == 6 {
        '6'
    } else if d == 7 {
        '7'
    } else if d == 8 {
        '8'
    } else {
        '9'
    }
}

/// The decimal digits of a natural number, without leading zeros.
pub open spec fn digits(n: nat) -> Seq<char>
    decreases n,
{
    if n < 10 {
        seq![digit(n as int)]
    } else {
        digits(n / 10).push(digit((n % 10) as int))
    }
}

/// The decimal numeral of an integer, with a minus sign if it is negative.
pub open spec fn decimal(n: int) -> Seq<char> {
    if n < 0 {
        seq!['-'] + digits((-n) as nat)
    } else {
        digits(n as nat)
    }
}

/// How a diagnostic reads: its number, or `unknown` where it has none.
pub open spec fn diagnostic_wording(d: Diagnostic) -> Seq<char> {
    match d {
        Diagnostic::OsError(code) => decimal(code as int),
        Diagnostic::ExitCode(code) => decimal(code as int),
        Diagnostic::Io(number) => decimal(number as int),
        Diagnostic::NoExitCode => "unknown"@,
        Diagnostic::IoUnnumbered => "unknown"@,
    }
}

/// One digit as text.
fn digit_text(d: u64) -> (text: &'static str)
    requires
        d < 10,
    ensures
        text@ == seq![digit(d as int)],
{
    proof {
        reveal_strlit("0");
        reveal_strlit("1");
        reveal_strlit("2");
        reveal_strlit("3");
        reveal_strlit("4");
        reveal_strlit("5");
        reveal_strlit("6");
        reveal_strlit("7");
        reveal_strlit("8");
        reveal_strlit("9");
    }
    let text = if d == 0 {
        "0"
    } else if d == 1 {
        "1"
    } else if d == 2 {
        "2"
    } else if d == 3 {
        "3"
    } else if d == 4 {
        "4"
    } else if d == 5 {
        "5"
    } else if d == 6 {
        "6"
    } else if d == 7 {
        "7"
    } else if d == 8 {
        "8"
    } else {
        "9"
    };
    assert(text@ =~= seq![digit(d as int)]);
    text
}

/// The decimal digits of `n`.
pub fn render_digits(n: u64) -> (text: String)
    ensures
        text@ == digits(n as nat),
    decreases n,
{
    if n < 10 {
        String::from_str(digit_text(n))
    } else {
        let mut text = render_digits(n / 10);
        text.append(digit_text(n % 10));
        assert(text@ =~= digits(n as nat));
        text
    }
}

/// The decimal numeral of `n`.
pub fn render_number(n: i64) -> (text: String)
    ensures
        text@ == decimal(n as int),
{
    if n < 0 {
        let magnitude: u64 = if n == i64::MIN {
            9223372036854775808u64
        } else {
            (-n) as u64
        };
        proof {
            reveal_strlit("-");
        }
        let text = String::from_str("-").concat(render_digits(magnitude).as_str());
        assert(text@ =~= decimal(n as int));
        text
    } else {
        render_digits(n as u64)
    }
}

/// How `d` reads on the console.
pub fn render_diagnostic(d: Diagnostic) -> (text: String)
    ensures
        text@ == diagnostic_wording(d),
{
    match d {
        Diagnostic::OsError(code) => render_number(code as i64),
        Diagnostic::ExitCode(code) => render_number(code as i64),
        Diagnostic::Io(number) => render_number(number as i64),
        Diagnostic::NoExitCode => String::from_str("unknown"),
        Diagnostic::IoUnnumbered => String::from_str("unknown"),
    }
}

/// Something that the run tells the user.
#[derive(Clone, Copy, Debug, PartialEq, Eq, Structural)]
pub enum Notice {
    /// Every asset is on disk.
    Deployed,
    /// The runtime installer is about to be launched.
    Installing,
    /// The runtime installer ended with success.
    Installed,
    /// The runtime installer failed.
    InstallFailed(Diagnostic),
    /// The desktop wallpaper is set.
    DesktopSet,
    /// The desktop wallpaper could not be set.
    DesktopFailed(Diagnostic),
    /// The lock screen image is set.
    LockScreenSet,
    /// The lock screen image could not be set.
    LockScreenFailed(Diagnostic),
    /// A folder could not be created or an asset could not be written.
    WriteFailed(Diagnostic),
    /// A deployed file or folder could not be removed.
    RemovalFailed(Diagnostic),
}

impl Notice {
    /// The line that the notice stands for.
    pub open spec fn wording(self) -> Seq<char> {
        match self {
            Notice::Deployed => "Assets written to disk."@,
            Notice::Installing => "Installing the desktop runtime..."@,
            Notice::Installed => "Desktop runtime installed."@,
            Notice::InstallFailed(d) => "Failed to install the desktop runtime. Status: "@
                + diagnostic_wording(d),
            Notice::DesktopSet => "Desktop wallpaper set successfully!"@,
            Notice::DesktopFailed(d) => "Failed to set desktop wallpaper. Error code: "@
                + diagnostic_wording(d),
            Notice::LockScreenSet => "Lock screen wallpaper set successfully!"@,
            Notice::LockScreenFailed(_) => "Failed to set lock screen wallpaper."@,
            Notice::WriteFailed(d) => "Failed to write an asset. Error: "@ + diagnostic_wording(d),
            Notice::RemovalFailed(d) => "Failed to remove a deployed file or folder. Error: "@
                + diagnostic_wording(d),
        }
    }

    /// The line to print for this notice.
    pub fn text(&self) -> (line: String)
        ensures
            line@ == self.wording(),
    {
        match self {
            Notice::Deployed => String::from_str("Assets written to disk."),
            Notice::Installing => String::from_str("Installing the desktop runtime..."),
            Notice::Installed => String::from_str("Desktop runtime installed."),
            Notice::InstallFailed(d) => String::from_str(
                "Failed to install the desktop runtime. Status: ",
            ).concat(render_diagnostic(*d).as_str()),
            Notice::DesktopSet => String::from_str("Desktop wallpaper set successfully!"),
            Notice::DesktopFailed(d) => String::from_str(
                "Failed to set desktop wallpaper. Error code: ",
            ).concat(render_diagnostic(*d).as_str()),
            Notice::LockScreenSet => String::from_str("Lock screen wallpaper set successfully!"),
            Notice::LockScreenFailed(_) => String::from_str("Failed to set lock screen wallpaper."),
            Notice::WriteFailed(d) => String::from_str("Failed to write an asset. Error: ").concat(
                render_diagnostic(*d).as_str(),
            ),
            Notice::RemovalFailed(d) => String::from_str(
                "Failed to remove a deployed file or folder. Error: ",
            ).concat(render_diagnostic(*d).as_str()),
        }
    }
}

/// What is said when a step has ended with `status`: one line for each
/// errand, whether it went well or not, and one for each failure of a
/// deployment or cleanup step.
pub open spec fn heard(step: Step, status: Status) -> Seq<Notice> {
    match status {
        Status::Done => match step {
            Step::InstallRuntime { .. } => seq![Notice::Installed],
            Step::SetDesktop { .. } => seq![Notice::DesktopSet],
            Step::SetLockScreen { .. } => seq![Notice::LockScreenSet],
            _ => Seq::empty(),
        },
        Status::WriteFailed(d) => seq![Notice::WriteFailed(d)],
        Status::InstallFailed(d) => seq![Notice::InstallFailed(d)],
        Status::WallpaperFailed(d) => seq![Notice::DesktopFailed(d)],
        Status::LockScreenFailed(d) => seq![Notice::LockScreenFailed(d)],
        Status::CleanupFailed(d) => seq![Notice::RemovalFailed(d)],
    }
}

/// What is said before `step` is performed: the installer is announced,
/// after the word that deployment is through. Nothing else is.
pub open spec fn announced(step: Step) -> Seq<Notice> {
    if step is InstallRuntime {
        seq![Notice::Deployed, Notice::Installing]
    } else {
        Seq::empty()
    }
}

/// Appends to `notices` what is said when `step` has ended with `status`.
pub fn say_heard(notices: &mut Vec<Notice>, step: Step, status: Status)
    ensures
        final(notices)@ == old(notices)@ + heard(step, status),
{
    match status {
        Status::Done => match step {
            Step::InstallRuntime { .. } => notices.push(Notice::Installed),
            Step::SetDesktop { .. } => notices.push(Notice::DesktopSet),
            Step::SetLockScreen { .. } => notices.push(Notice::LockScreenSet),
            _ => {},
        },
        Status::WriteFailed(d) => notices.push(Notice::WriteFailed(d)),
        Status::InstallFailed(d) => notices.push(Notice::InstallFailed(d)),
        Status::WallpaperFailed(d) => notices.push(Notice::DesktopFailed(d)),
        Status::LockScreenFailed(d) => notices.push(Notice::LockScreenFailed(d)),
        Status::CleanupFailed(d) => notices.push(Notice::RemovalFailed(d)),
    }
    assert(notices@ =~= old(notices)@ + heard(step, status));
}

/// Appends to `notices` what is said before `step` is performed.
pub fn say_announced(notices: &mut Vec<Notice>, step: Step)
    ensures
        final(notices)@ == old(notices)@ + announced(step),
{
    match step {
        Step::InstallRuntime { .. } => {
            notices.push(Notice::Deployed);
            notices.push(Notice::Installing);
        },
        _ => {},
    }
    assert(notices@ =~= old(notices)@ + announced(step));
}

} // verus!
