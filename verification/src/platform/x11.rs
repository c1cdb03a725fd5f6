//! What the X server reports.
use vstd::prelude::*;

use crate::domain::state::WindowId;

verus! {

/// An event of the X server, as far as the bar cares.
#[derive(Clone, Debug, PartialEq)]
pub enum X11Event {
    RandrChanged,
    Expose(WindowId),
    ButtonPress { window: WindowId, x: i16, y: i16, button: u8, timestamp: u32 },
    ButtonRelease { window: WindowId, x: i16, y: i16, button: u8, timestamp: u32 },
    MotionNotify { window: WindowId, x: i16, y: i16 },
    KeyPress { keycode: u8, state: u16, timestamp: u32 },
    KeyRelease { keycode: u8, state: u16, timestamp: u32 },
    GtkWindowChanged(WindowId),
    GtkWindowsChanged,
    GtkWindowDestroyed(WindowId),
    WindowAttentionChanged { window: WindowId, app_name: String, attention: bool },
    InstanceLost,
    Close,
}

} // verus!
