//! The capture indicator: what its menu entries mean and what it shows.

use vstd::prelude::*;

verus! {

/// What a menu entry of the indicator asks for.
#[derive(Debug, Clone, Copy, PartialEq, Eq, Structural)]
pub enum TrayCommand {
    /// Flip the capture mode.
    Toggle,
    /// Open the settings.
    Settings,
    /// End the process.
    Quit,
    /// An entry that the indicator does not know.
    Unknown,
}

/// The command that the menu entry `id` stands for.
pub open spec fn command_of(id: Seq<char>) -> TrayCommand {
    if id == "toggle"@ {
        TrayCommand::Toggle
    } else if id == "settings"@ {
        TrayCommand::Settings
    } else if id == "quit"@ {
        TrayCommand::Quit
    } else {
        TrayCommand::Unknown
    }
}

/// The label of the toggle entry in a capture mode: it names what
/// choosing the entry does.
pub open spec fn label_of(listening: bool) -> Seq<char> {
    if listening {
        "Stop"@
    } else {
        "Start"@
    }
}

/// Tells what a menu entry of the indicator asks for.
pub fn tray_command(id: &str) -> (command: TrayCommand)
    ensures
        command == command_of(id@),
{
    let id = id.to_string();
    if id == "toggle".to_string() {
        TrayCommand::Toggle
    } else if id == "settings".to_string() {
        TrayCommand::Settings
    } else if id == "quit".to_string() {
        TrayCommand::Quit
    } else {
        TrayCommand::Unknown
    }
}

/// The label that the toggle entry shows in a capture mode.
pub fn indicator_label(listening: bool) -> (label: &'static str)
    ensures
        label@ == label_of(listening),
{
    if listening {
        "Stop"
    } else {
        "Start"
    }
}

} // verus!
