//! The commands the tool understands.
use vstd::prelude::*;

verus! {

/// What to do with the active window.
#[derive(Clone, Copy, Debug, PartialEq, Eq, Structural)]
pub enum Command {
    /// Snap window to left half
    Left,
    /// Snap window to right half
    Right,
    /// Snap window to top half
    Up,
    /// Snap window to bottom half
    Down,
    /// Snap window to top-left quarter
    TopLeft,
    /// Snap window to top-right quarter
    TopRight,
    /// Snap window to bottom-left quarter
    BottomLeft,
    /// Snap window to bottom-right quarter
    BottomRight,
    /// Snap window to left third
    LeftThird,
    /// Snap window to center third
    CenterThird,
    /// Snap window to right third
    RightThird,
    /// Snap window to left two-thirds
    LeftTwoThird,
    /// Snap window to right two-thirds
    RightTwoThird,
    /// Maximize window (respecting gaps)
    Maximize,
    /// Center window at 75% size
    Center,
    /// Restore previous geometry of the active window
    Restore,
}

/// A parsed command line: the command and the monitor it targets (the
/// active one when `None`).
#[derive(Debug)]
pub struct Cli {
    pub command: Command,
    pub monitor: Option<String>,
}

} // verus!
