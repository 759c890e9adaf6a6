//! The requests that the driver carries out for the three errands: the two
//! command lines and the configuration call.

use vstd::prelude::*;
use vstd::string::StringExecFns;
use crate::wide::{encode_wide, wide};

verus! {

/// A command line: the program, its arguments, and whether the child's
/// output streams are discarded.
#[derive(Clone, Debug, PartialEq, Eq)]
pub struct Invocation {
    pub program: String,
    pub arguments: Vec<String>,
    pub quiet: bool,
}

/// A command line, as plain mathematics.
pub struct InvocationView {
    pub program: Seq<char>,
    pub arguments: Seq<Seq<char>>,
    pub quiet: bool,
}

impl View for Invocation {
    type V = InvocationView;

    open spec fn view(&self) -> InvocationView {
        InvocationView {
            program: self.program@,
            arguments: self.arguments@.map_values(|a: String| a@),
            quiet: self.quiet,
        }
    }
}

/// The command line that installs the runtime: install mode, no user
/// interface, no restart. The child keeps the installer's output streams.
pub open spec fn installer_command(program: Seq<char>) -> InvocationView {
    InvocationView {
        program,
        arguments: seq!["/install"@, "/quiet"@, "/norestart"@],
        quiet: false,
    }
}

/// The command line that sets the lock screen image: the subcommand, then
/// the image. The helper's output streams are discarded.
pub open spec fn lock_screen_command(helper: Seq<char>, image: Seq<char>) -> InvocationView {
    InvocationView { program: helper, arguments: seq!["set-lock-screen"@, image], quiet: true }
}

/// The command line that runs the deployed installer at `program`.
pub fn installer_invocation(program: &str) -> (invocation: Invocation)
    ensures
        invocation@ == installer_command(program@),
{
    let mut arguments: Vec<String> = Vec::new();
    arguments.push(String::from_str("/install"));
    arguments.push(String::from_str("/quiet"));
    arguments.push(String::from_str("/norestart"));
    let invocation = Invocation { program: String::from_str(program), arguments, quiet: false };
    assert(invocation@.arguments =~= installer_command(program@).arguments);
    invocation
}

/// The command line that runs the deployed helper at `helper` on the
/// deployed image at `image`.
pub fn lock_screen_invocation(helper: &str, image: &str) -> (invocation: Invocation)
    ensures
        invocation@ == lock_screen_command(helper@, image@),
{
    let mut arguments: Vec<String> = Vec::new();
    arguments.push(String::from_str("set-lock-screen"));
    arguments.push(String::from_str(image));
    let invocation = Invocation { program: String::from_str(helper), arguments, quiet: true };
    assert(invocation@.arguments =~= lock_screen_command(helper@, image@).arguments);
    invocation
}

/// The action code of the configuration call that sets the desktop
/// wallpaper.
pub const SET_DESKTOP_WALLPAPER: u32 = 0x0014;

/// Flag of the configuration call: write the change to the user's profile,
/// so that it outlives the session.
pub const UPDATE_PROFILE: u32 = 0x0001;

/// Flag of the configuration call: tell every top-level window of the
/// change at once.
pub const BROADCAST_CHANGE: u32 = 0x0002;

/// The arguments of the configuration call that sets the desktop wallpaper.
#[derive(Clone, Debug, PartialEq, Eq)]
pub struct DesktopCall {
    /// What to configure.
    pub action: u32,
    /// Unused by this action.
    pub parameter: u32,
    /// The image's path as a NUL-terminated wide string.
    pub path: Vec<u16>,
    /// How to apply the change.
    pub flags: u32,
}

/// The arguments of the configuration call, as plain mathematics.
pub struct DesktopCallView {
    pub action: u32,
    pub parameter: u32,
    pub path: Seq<u16>,
    pub flags: u32,
}

impl View for DesktopCall {
    type V = DesktopCallView;

    open spec fn view(&self) -> DesktopCallView {
        DesktopCallView {
            action: self.action,
            parameter: self.parameter,
            path: self.path@,
            flags: self.flags,
        }
    }
}

/// The call that makes the image at `path` the desktop wallpaper, for good
/// and at once.
pub open spec fn desktop_request(path: Seq<char>) -> DesktopCallView {
    DesktopCallView {
        action: SET_DESKTOP_WALLPAPER,
        parameter: 0,
        path: wide(path),
        flags: UPDATE_PROFILE | BROADCAST_CHANGE,
    }
}

/// The arguments of the configuration call that makes the image at `path`
/// the desktop wallpaper.
pub fn desktop_call(path: &str) -> (call: DesktopCall)
    ensures
        call@ == desktop_request(path@),
{
    DesktopCall {
        action: SET_DESKTOP_WALLPAPER,
        parameter: 0,
        path: encode_wide(path),
        flags: UPDATE_PROFILE | BROADCAST_CHANGE,
    }
}

/// The request asks for both: the change is written to the profile and it
/// is broadcast.
pub proof fn law_desktop_request_persists_and_broadcasts(path: Seq<char>)
    ensures
        desktop_request(path).flags & UPDATE_PROFILE == UPDATE_PROFILE,
        desktop_request(path).flags & BROADCAST_CHANGE == BROADCAST_CHANGE,
        desktop_request(path).path.last() == 0,
        desktop_request(path).path.len() > 0,
{
    assert((0x0001u32 | 0x0002u32) & 0x0001u32 == 0x0001u32) by (bit_vector);
    assert((0x0001u32 | 0x0002u32) & 0x0002u32 == 0x0002u32) by (bit_vector);
}

} // verus!
