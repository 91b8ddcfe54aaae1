//! Rectangle-style window placement for Hyprland: the geometry of snapping
//! a window to halves, thirds, quarters, a centred box or the whole usable
//! area of a monitor, the parsing of Hyprland's gap settings, and the small
//! restore history that remembers where windows were before a snap.
pub mod area;
pub mod cli;
pub mod dims;
pub mod dispatch;
pub mod gaps;
pub mod state;
