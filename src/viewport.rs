use vstd::prelude::*;

verus! {

/// Adds a signed step to a coordinate, saturating at zero and at `usize::MAX`.
pub open spec fn delta_spec(value: usize, delta: i32) -> usize {
    let t = value as int + delta as int;
    if t < 0 {
        0
    } else if t > usize::MAX {
        usize::MAX
    } else {
        t as usize
    }
}

pub fn apply_delta(value: usize, delta: i32) -> (r: usize)
    ensures
        r == delta_spec(value, delta),
{
    if delta < 0 {
        let step: usize = if delta == i32::MIN {
            2147483648usize
        } else {
            (-delta) as usize
        };
        value.saturating_sub(step)
    } else {
        value.saturating_add(delta as usize)
    }
}

/// Position of the active cell.
#[derive(Clone, Copy, Debug, PartialEq, Eq, Structural)]
pub struct Cursor {
    pub row: usize,
    pub col: usize,
}

/// Top-left cell of the visible window.
#[derive(Clone, Copy, Debug, PartialEq, Eq, Structural)]
pub struct Viewport {
    pub row: usize,
    pub col: usize,
}

/// The new window origin on one axis: the least move that brings `pos` into
/// `[origin, origin + visible)`, or `pos` itself when nothing is visible.
pub open spec fn clamped_origin(origin: usize, pos: usize, visible: usize) -> usize {
    if pos < origin {
        pos
    } else if visible == 0 {
        pos
    } else if pos - origin >= visible {
        (pos + 1 - visible) as usize
    } else {
        origin
    }
}

/// `pos` lies in the window that starts at `origin` and spans `visible` cells;
/// with nothing visible, the window sits exactly on `pos`.
pub open spec fn shown(origin: usize, pos: usize, visible: usize) -> bool {
    if visible == 0 {
        origin == pos
    } else {
        origin <= pos < origin + visible
    }
}

/// Moves a window origin on one axis so that `pos` is shown.
pub fn clamp_origin(origin: usize, pos: usize, visible: usize) -> (r: usize)
    ensures
        r == clamped_origin(origin, pos, visible),
        shown(r, pos, visible),
{
    if pos < origin {
        pos
    } else if visible == 0 {
        pos
    } else if pos - origin >= visible {
        pos - (visible - 1)
    } else {
        origin
    }
}

} // verus!
