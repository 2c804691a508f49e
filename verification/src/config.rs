//! The part of the configuration that discovery decides by.

use vstd::prelude::*;

verus! {

/// Where to draw hints: over the focused window only, or over the whole
/// screen.
#[derive(Debug, Clone, Copy, PartialEq, Eq, Structural)]
pub enum OverlayTarget {
    Window,
    Screen,
}

impl Default for OverlayTarget {
    fn default() -> (target: OverlayTarget)
        ensures
            target == OverlayTarget::Window,
    {
        OverlayTarget::Window
    }
}

} // verus!
