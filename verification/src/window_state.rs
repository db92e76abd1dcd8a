//! Whether the main window is hidden (minimised to the tray).

use vstd::prelude::*;

verus! {

/// The window flags the application keeps for its main window.
#[derive(Debug, Clone, Copy, PartialEq, Eq, Structural)]
pub struct WindowFlags {
    pub hidden: bool,
}

impl Default for WindowFlags {
    /// The window starts visible.
    fn default() -> (f: WindowFlags)
        ensures
            !f.hidden,
    {
        WindowFlags { hidden: false }
    }
}

/// Whether the window is hidden.
pub fn is_hidden(flags: &WindowFlags) -> (b: bool)
    ensures
        b == flags.hidden,
{
    flags.hidden
}

/// Records whether the window is hidden.
pub fn set_hidden(flags: &mut WindowFlags, hidden: bool)
    ensures
        final(flags).hidden == hidden,
{
    flags.hidden = hidden;
}

/// Marks the window as shown and returns whether it was hidden before.
pub fn restore_from_hidden(flags: &mut WindowFlags) -> (was_hidden: bool)
    ensures
        was_hidden == old(flags).hidden,
        !final(flags).hidden,
{
    let was = flags.hidden;
    flags.hidden = false;
    was
}

} // verus!
