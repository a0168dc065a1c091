//! The choice of a clipboard tool for the platform, and the command that puts
//! a text on the clipboard with it. The caller runs the command.
use vstd::prelude::*;
use crate::error::OvaError;
use crate::text::same_text;

verus! {

/// The clipboard of the platform: which tool is at hand.
pub struct Clip {
    pub text: Option<String>,
    pub is_wayland: Option<bool>,
    pub is_x11: Option<bool>,
    pub is_windows: Option<bool>,
    pub is_mac: Option<bool>,
}

/// A program to run and its arguments.
pub struct ClipCommand {
    pub program: String,
    pub args: Vec<String>,
}

/// A flag of `Clip` that is set.
pub open spec fn is_set(f: Option<bool>) -> bool {
    f == Some(true)
}

/// The command `program -c script`.
pub open spec fn shell_command(c: ClipCommand, program: Seq<char>, script: Seq<char>) -> bool {
    c.program@ == program && c.args@.len() == 2 && c.args@[0]@ == "-c"@ && c.args@[1]@ == script
}

/// The command that runs `script` with `program -c`.
fn command(program: &str, script: String) -> (r: ClipCommand)
    ensures
        shell_command(r, program@, script@),
{
    let mut args: Vec<String> = Vec::new();
    args.push(String::from_str("-c"));
    args.push(script);
    ClipCommand { program: String::from_str(program), args }
}

impl Clip {
    /// The clipboard of the platform named `os` (as `std::env::consts::OS`
    /// names it); on Linux, Wayland where `wayland` holds, else X11 where
    /// `x11` holds, else none.
    ///
    /// Fails with `EnvironmentError` on any platform but Linux, macOS and
    /// Windows.
    pub fn new(os: &str, wayland: bool, x11: bool) -> (r: Result<Clip, OvaError>)
        ensures
            os@ == "linux"@ ==> (r matches Ok(c) && c.text is None && c.is_windows is None
                && c.is_mac is None && (c.is_wayland == if wayland {
                Some(true)
            } else {
                None::<bool>
            }) && (c.is_x11 == if !wayland && x11 {
                Some(true)
            } else {
                None::<bool>
            })),
            os@ == "windows"@ ==> r == Ok::<Clip, OvaError>(
                (Clip {
                    text: None,
                    is_wayland: None,
                    is_x11: None,
                    is_windows: Some(true),
                    is_mac: None,
                }),
            ),
            os@ == "macos"@ ==> r == Ok::<Clip, OvaError>(
                (Clip {
                    text: None,
                    is_wayland: None,
                    is_x11: None,
                    is_windows: None,
                    is_mac: Some(true),
                }),
            ),
            os@ != "linux"@ && os@ != "windows"@ && os@ != "macos"@ ==> r == Err::<Clip, OvaError>(
                OvaError::EnvironmentError,
            ),
    {
        proof {
            reveal_strlit("linux");
            reveal_strlit("windows");
            reveal_strlit("macos");
            assert("windows"@.len() != "linux"@.len());
            assert("macos"@[0] != "linux"@[0]);
            assert("macos"@.len() != "windows"@.len());
        }
        let mut clip = Clip { text: None, is_wayland: None, is_x11: None, is_windows: None, is_mac: None };
        if same_text(os, "linux") {
            if wayland {
                clip.is_wayland = Some(true);
            } else if x11 {
                clip.is_x11 = Some(true);
            }
        } else if same_text(os, "windows") {
            clip.is_windows = Some(true);
        } else if same_text(os, "macos") {
            clip.is_mac = Some(true);
        } else {
            return Err(OvaError::EnvironmentError);
        }
        Ok(clip)
    }

    /// The command that puts `text` on the clipboard with the first tool at
    /// hand: Wayland, X11, Windows, macOS, in that order.
    ///
    /// Fails with `EnvironmentError` where no tool is set.
    pub fn copy(&mut self, text: &str) -> (r: Result<ClipCommand, OvaError>)
        ensures
            *final(self) == *old(self),
            is_set(old(self).is_wayland) ==> (r matches Ok(c) && shell_command(
                c,
                "sh"@,
                "wl-copy "@ + text@,
            )),
            !is_set(old(self).is_wayland) && is_set(old(self).is_x11) ==> (r matches Ok(c)
                && shell_command(c, "sh"@, "echo -n "@ + text@ + " | xclip -selection clipboard"@)),
            !is_set(old(self).is_wayland) && !is_set(old(self).is_x11) && is_set(
                old(self).is_windows,
            ) ==> (r matches Ok(c) && shell_command(
                c,
                "powershell.exe"@,
                "Set-Clipboard -Value "@ + text@,
            )),
            !is_set(old(self).is_wayland) && !is_set(old(self).is_x11) && !is_set(
                old(self).is_windows,
            ) && is_set(old(self).is_mac) ==> (r matches Ok(c) && shell_command(
                c,
                "sh"@,
                "echo -n "@ + text@ + " | osascript -e 'set the clipboard to (read stdin)'"@,
            )),
            !is_set(old(self).is_wayland) && !is_set(old(self).is_x11) && !is_set(
                old(self).is_windows,
            ) && !is_set(old(self).is_mac) ==> r == Err::<ClipCommand, OvaError>(
                OvaError::EnvironmentError,
            ),
    {
        if matches!(self.is_wayland, Some(true)) {
            Ok(self.copy_wayland(text))
        } else if matches!(self.is_x11, Some(true)) {
            Ok(self.copy_x11(text))
        } else if matches!(self.is_windows, Some(true)) {
            Ok(self.copy_windows(text))
        } else if matches!(self.is_mac, Some(true)) {
            Ok(self.copy_macos(text))
        } else {
            Err(OvaError::EnvironmentError)
        }
    }

    /// The command that puts `text` on the X11 clipboard with `xclip`.
    pub fn copy_x11(&mut self, text: &str) -> (r: ClipCommand)
        ensures
            *final(self) == *old(self),
            shell_command(r, "sh"@, "echo -n "@ + text@ + " | xclip -selection clipboard"@),
    {
        let mut script = String::from_str("echo -n ");
        script.append(text);
        script.append(" | xclip -selection clipboard");
        command("sh", script)
    }

    /// The command that puts `text` on the Wayland clipboard with `wl-copy`.
    pub fn copy_wayland(&mut self, text: &str) -> (r: ClipCommand)
        ensures
            *final(self) == *old(self),
            shell_command(r, "sh"@, "wl-copy "@ + text@),
    {
        let mut script = String::from_str("wl-copy ");
        script.append(text);
        command("sh", script)
    }

    /// The command that puts `text` on the Windows clipboard with PowerShell.
    pub fn copy_windows(&mut self, text: &str) -> (r: ClipCommand)
        ensures
            *final(self) == *old(self),
            shell_command(r, "powershell.exe"@, "Set-Clipboard -Value "@ + text@),
    {
        let mut script = String::from_str("Set-Clipboard -Value ");
        script.append(text);
        command("powershell.exe", script)
    }

    /// The command that puts `text` on the macOS clipboard with `osascript`.
    pub fn copy_macos(&mut self, text: &str) -> (r: ClipCommand)
        ensures
            *final(self) == *old(self),
            shell_command(
                r,
                "sh"@,
                "echo -n "@ + text@ + " | osascript -e 'set the clipboard to (read stdin)'"@,
            ),
    {
        let mut script = String::from_str("echo -n ");
        script.append(text);
        script.append(" | osascript -e 'set the clipboard to (read stdin)'");
        command("sh", script)
    }
}

} // verus!
