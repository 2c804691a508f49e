//! Targets from the outlines that a vision backend detects.

use super::walk::all_inside;
use super::{BackendError, BackendResult};
use crate::hints::{Child, Extents};
use crate::window_system::WindowSystemType;
use vstd::prelude::*;

verus! {

/// A program that can take a picture of the screen.
#[derive(Debug, Clone, Copy, PartialEq, Eq, Structural)]
pub enum Tool {
    Grim,
    Shotgun,
    Wayshot,
    Maim,
}

/// One way to get a picture of the screen: the tool, and whether it writes
/// the picture to its standard output or to a file.
#[derive(Debug, Clone, Copy, PartialEq, Eq, Structural)]
pub struct Capture {
    pub tool: Tool,
    pub to_stdout: bool,
}

/// The ways to get a picture of the screen, in the order in which to try
/// them: first the tool of the window system through its standard output,
/// then the tools that write a file.
pub open spec fn spec_capture_plan(window_system: WindowSystemType) -> Seq<Capture> {
    match window_system {
        WindowSystemType::Wayland => seq![
            Capture { tool: Tool::Grim, to_stdout: true },
            Capture { tool: Tool::Wayshot, to_stdout: false },
            Capture { tool: Tool::Grim, to_stdout: false },
        ],
        WindowSystemType::X11 => seq![
            Capture { tool: Tool::Shotgun, to_stdout: true },
            Capture { tool: Tool::Shotgun, to_stdout: false },
            Capture { tool: Tool::Maim, to_stdout: false },
        ],
    }
}

/// The ways to get a picture of the screen, in the order in which to try
/// them.
pub fn capture_plan(window_system: WindowSystemType) -> (plan: Vec<Capture>)
    ensures
        plan@ == spec_capture_plan(window_system),
{
    let mut plan: Vec<Capture> = Vec::new();
    match window_system {
        WindowSystemType::Wayland => {
            plan.push(Capture { tool: Tool::Grim, to_stdout: true });
            plan.push(Capture { tool: Tool::Wayshot, to_stdout: false });
            plan.push(Capture { tool: Tool::Grim, to_stdout: false });
        },
        WindowSystemType::X11 => {
            plan.push(Capture { tool: Tool::Shotgun, to_stdout: true });
            plan.push(Capture { tool: Tool::Shotgun, to_stdout: false });
            plan.push(Capture { tool: Tool::Maim, to_stdout: false });
        },
    }
    assert(plan@ =~= spec_capture_plan(window_system));
    plan
}

/// The least width and height of an outline that counts as a target.
pub const MIN_SIDE: i32 = 5;

/// The target that an outline's bounding box contributes: the box itself
/// unless a side is shorter than `MIN_SIDE` or the box leaves the focus
/// region.
pub open spec fn spec_outline_target(bounds: Extents, focus: Option<Extents>) -> Option<Child> {
    let child = Child {
        absolute_x: bounds.0,
        absolute_y: bounds.1,
        width: bounds.2,
        height: bounds.3,
    };
    if bounds.2 >= MIN_SIDE && bounds.3 >= MIN_SIDE && child.spec_inside_focus(focus) {
        Some(child)
    } else {
        None
    }
}

/// The targets that bounding boxes contribute, in their order.
pub open spec fn outline_targets(bounds: Seq<Extents>, focus: Option<Extents>) -> Seq<Child>
    decreases bounds.len(),
{
    if bounds.len() == 0 {
        Seq::empty()
    } else {
        match spec_outline_target(bounds.last(), focus) {
            Some(child) => outline_targets(bounds.drop_last(), focus).push(child),
            None => outline_targets(bounds.drop_last(), focus),
        }
    }
}

/// Every target that bounding boxes contribute lies inside the focus region
/// and has positive sides.
pub proof fn lemma_outline_targets_inside(bounds: Seq<Extents>, focus: Option<Extents>)
    ensures
        all_inside(outline_targets(bounds, focus), focus),
    decreases bounds.len(),
{
    if bounds.len() > 0 {
        lemma_outline_targets_inside(bounds.drop_last(), focus);
    }
}

/// Turns the bounding boxes of detected outlines into a result: tiny boxes
/// are dropped, and so are boxes that leave the focus region. Nothing left
/// is a failure.
pub fn targets_from_outlines(bounds: &Vec<Extents>, focus: Option<Extents>) -> (found: Result<
    BackendResult,
    BackendError,
>)
    ensures
        match found {
            Ok(result) => {
                &&& result.children@ == outline_targets(bounds@, focus)
                &&& result.focus_extents == focus
                &&& result.children@.len() > 0
                &&& result.well_formed()
            },
            Err(error) => error == BackendError::NoTargets && outline_targets(bounds@, focus).len()
                == 0,
        },
{
    let mut children: Vec<Child> = Vec::new();
    let mut i: usize = 0;
    assert(bounds@.take(0) =~= Seq::<Extents>::empty());
    while i < bounds.len()
        invariant
            i <= bounds@.len(),
            children@ == outline_targets(bounds@.take(i as int), focus),
        decreases bounds@.len() - i,
    {
        assert(bounds@.take(i + 1).drop_last() =~= bounds@.take(i as int));
        let (x, y, width, height) = bounds[i];
        let child = Child { absolute_x: x, absolute_y: y, width, height };
        if width >= MIN_SIDE && height >= MIN_SIDE && child.inside_focus(focus) {
            children.push(child);
        }
        i = i + 1;
    }
    assert(bounds@.take(i as int) =~= bounds@);
    proof {
        lemma_outline_targets_inside(bounds@, focus);
    }
    if children.len() == 0 {
        Err(BackendError::NoTargets)
    } else {
        Ok(BackendResult { children, focus_extents: focus })
    }
}

} // verus!
