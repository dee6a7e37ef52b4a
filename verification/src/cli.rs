//! Command-line actions and tray menu entries, read from their text.

use vstd::prelude::*;

use crate::config::Mode;
use crate::text::same_text;

verus! {

/// An action asked for on the command line.
#[derive(Debug, Clone, Copy, PartialEq, Eq, Structural)]
pub enum CliCommand {
    /// Print the configuration and the scheduling state.
    DumpState,
    /// Apply a mode now (theme and wallpaper); no mode if none was named.
    SetMode(Option<Mode>),
    /// Write the lock screen for a mode; no mode if none was named.
    ApplyLockScreen(Option<Mode>),
    /// Write the lock screen for the current system theme.
    ApplyLockScreenAuto,
    /// Register the elevated helper task.
    InstallLockHelper,
    /// Remove the helper task and give the lock screen back.
    UninstallLockHelper,
    /// Print the usage.
    Help,
}

/// The mode named by the argument after the command, if any.
pub open spec fn mode_argument(args: Seq<Seq<char>>) -> Option<Mode> {
    if args.len() > 1 {
        Mode::named(args[1])
    } else {
        None
    }
}

/// The action that the arguments (without the program name) ask for; none
/// when the first argument is not one of ours (the user interface then
/// starts, and takes the remaining arguments).
pub open spec fn cli_command(args: Seq<Seq<char>>) -> Option<CliCommand> {
    if args.len() == 0 {
        None
    } else {
        let first = args[0];
        if first == "--dump-state"@ {
            Some(CliCommand::DumpState)
        } else if first == "--set-mode"@ {
            Some(CliCommand::SetMode(mode_argument(args)))
        } else if first == "--apply-lockscreen"@ {
            Some(CliCommand::ApplyLockScreen(mode_argument(args)))
        } else if first == "--apply-lockscreen-auto"@ {
            Some(CliCommand::ApplyLockScreenAuto)
        } else if first == "--install-lock-helper"@ {
            Some(CliCommand::InstallLockHelper)
        } else if first == "--clear-lockscreen"@ || first == "--uninstall-lock-helper"@ {
            Some(CliCommand::UninstallLockHelper)
        } else if first == "--help"@ || first == "-h"@ {
            Some(CliCommand::Help)
        } else {
            None
        }
    }
}

/// The action that the arguments (without the program name) ask for.
pub fn parse_cli(args: &Vec<String>) -> (res: Option<CliCommand>)
    ensures
        res == cli_command(args@.map_values(|s: String| s@)),
{
    let ghost views = args@.map_values(|s: String| s@);
    if args.len() == 0 {
        return None;
    }
    let first = args[0].as_str();
    assert(views[0] == first@);
    let mode = if args.len() > 1 {
        assert(views[1] == args@[1]@);
        Mode::parse(args[1].as_str())
    } else {
        None
    };
    if same_text(first, "--dump-state") {
        Some(CliCommand::DumpState)
    } else if same_text(first, "--set-mode") {
        Some(CliCommand::SetMode(mode))
    } else if same_text(first, "--apply-lockscreen") {
        Some(CliCommand::ApplyLockScreen(mode))
    } else if same_text(first, "--apply-lockscreen-auto") {
        Some(CliCommand::ApplyLockScreenAuto)
    } else if same_text(first, "--install-lock-helper") {
        Some(CliCommand::InstallLockHelper)
    } else if same_text(first, "--clear-lockscreen") || same_text(first, "--uninstall-lock-helper") {
        Some(CliCommand::UninstallLockHelper)
    } else if same_text(first, "--help") || same_text(first, "-h") {
        Some(CliCommand::Help)
    } else {
        None
    }
}

/// An entry of the tray menu.
#[derive(Debug, Clone, Copy, PartialEq, Eq, Structural)]
pub enum MenuAction {
    /// Show the main window.
    Show,
    /// Apply a mode now.
    Apply(Mode),
    /// Pause or resume the scheduler.
    TogglePause,
    /// Quit the program.
    Quit,
}

/// The menu action that an entry identifier names.
pub open spec fn menu_action_of(id: Seq<char>) -> Option<MenuAction> {
    if id == "show"@ {
        Some(MenuAction::Show)
    } else if id == "light"@ {
        Some(MenuAction::Apply(Mode::Light))
    } else if id == "dark"@ {
        Some(MenuAction::Apply(Mode::Dark))
    } else if id == "pause"@ {
        Some(MenuAction::TogglePause)
    } else if id == "quit"@ {
        Some(MenuAction::Quit)
    } else {
        None
    }
}

/// The menu action that an entry identifier names.
pub fn menu_action(id: &str) -> (res: Option<MenuAction>)
    ensures
        res == menu_action_of(id@),
{
    if same_text(id, "show") {
        Some(MenuAction::Show)
    } else if same_text(id, "light") {
        Some(MenuAction::Apply(Mode::Light))
    } else if same_text(id, "dark") {
        Some(MenuAction::Apply(Mode::Dark))
    } else if same_text(id, "pause") {
        Some(MenuAction::TogglePause)
    } else if same_text(id, "quit") {
        Some(MenuAction::Quit)
    } else {
        None
    }
}

} // verus!
