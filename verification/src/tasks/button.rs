//! The BOOT button: from how long it was held to the command to send.
//!
//! | Gesture                 | Held            | Command                   |
//! |-------------------------|-----------------|---------------------------|
//! | Single click            | under 500 ms    | [`Command::MenuNextItem`] |
//! | Ambiguous, ignored      | 500 to 1999 ms  | none                      |
//! | Long press              | 2000 ms or more | [`Command::MenuSelect`]   |
use crate::ipc::Command;
use vstd::prelude::*;

verus! {

/// A press shorter than this many milliseconds is a single click.
pub const CLICK_MAX_MS: u64 = 500;

/// A press of at least this many milliseconds is a long press.
pub const LONG_PRESS_MS: u64 = 2000;

/// Delay in milliseconds after each gesture, against phantom triggers.
pub const DEBOUNCE_MS: u64 = 50;

/// GPIO number of the BOOT button.
pub const BOOT_BUTTON_GPIO: u8 = 0;

/// The command that a press of `held_ms` milliseconds sends.
pub open spec fn press_command(held_ms: u64) -> Option<Command> {
    if held_ms < CLICK_MAX_MS {
        Some(Command::MenuNextItem)
    } else if held_ms >= LONG_PRESS_MS {
        Some(Command::MenuSelect)
    } else {
        None
    }
}

/// Tells the command that a press of `held_ms` milliseconds sends.
pub fn classify_press(held_ms: u64) -> (command: Option<Command>)
    ensures
        command == press_command(held_ms),
{
    if held_ms < CLICK_MAX_MS {
        Some(Command::MenuNextItem)
    } else if held_ms >= LONG_PRESS_MS {
        Some(Command::MenuSelect)
    } else {
        None
    }
}

/// The presses that are ignored are those between a click and a long press.
pub proof fn lemma_ambiguous_presses_are_ignored(held_ms: u64)
    ensures
        press_command(held_ms) is None <==> CLICK_MAX_MS <= held_ms < LONG_PRESS_MS,
{
}

/// A press shorter than a click is a click, and one longer than a long press is a
/// long press.
pub proof fn lemma_gestures_have_one_boundary(held_ms: u64, other_ms: u64)
    ensures
        press_command(held_ms) == Some(Command::MenuNextItem) && other_ms <= held_ms
            ==> press_command(other_ms) == Some(Command::MenuNextItem),
        press_command(held_ms) == Some(Command::MenuSelect) && other_ms >= held_ms
            ==> press_command(other_ms) == Some(Command::MenuSelect),
{
}

/// A press moves the cursor exactly if it is shorter than half a second, and selects
/// exactly if it lasts two seconds or more; it does nothing else.
pub proof fn lemma_gestures_are_told_apart(held_ms: u64)
    ensures
        press_command(held_ms) == Some(Command::MenuNextItem) <==> held_ms < 500,
        press_command(held_ms) == Some(Command::MenuSelect) <==> held_ms >= 2000,
        press_command(held_ms) matches Some(command) ==> command is MenuNextItem
            || command is MenuSelect,
{
}

} // verus!
