//! The interactive pointer-drag sub-state of the dispatcher: pure placement
//! functions and the state carried while a drag is in progress.

use vstd::prelude::*;
use crate::geometry::Dimensions;
use crate::geometry::clamp_u32;
use crate::layout::WINDOW_MIN_SIZE;

verus! {

/// What a drag does with pointer motion.
#[derive(Clone, Copy, Debug, PartialEq, Eq, Structural)]
pub enum DragKind {
    /// plain translation of the client
    Move,
    /// extension of the client, clamped to the minimum size
    Resize,
}

/// The sub-state of the dispatcher while an interactive drag is in progress:
/// the dragged client's original geometry and the pointer's original
/// position, recorded when exclusive capture succeeded.
#[derive(Clone, Copy, Debug)]
pub struct DragState {
    /// the dragged client's window handle
    pub window: u64,
    /// the client's position when the drag began
    pub orig_pos: (i32, i32),
    /// the client's size when the drag began
    pub orig_size: (u32, u32),
    /// the pointer's position when the drag began
    pub orig_pointer: (i32, i32),
    /// move or resize
    pub kind: DragKind,
}

/// The target geometry of a move drag: the original position translated by
/// the pointer delta, size unchanged.
pub fn mouse_action_move(
    orig_client_pos: (i32, i32),
    orig_client_size: (u32, u32),
    delta: (i32, i32),
) -> (r: Dimensions)
    requires
        i32::MIN <= orig_client_pos.0 + delta.0 <= i32::MAX,
        i32::MIN <= orig_client_pos.1 + delta.1 <= i32::MAX,
    ensures
        r.x == orig_client_pos.0 + delta.0,
        r.y == orig_client_pos.1 + delta.1,
        r.w == orig_client_size.0,
        r.h == orig_client_size.1,
{
    let dest_x = orig_client_pos.0 + delta.0;
    let dest_y = orig_client_pos.1 + delta.1;
    Dimensions { x: dest_x, y: dest_y, w: orig_client_size.0, h: orig_client_size.1 }
}

/// The target geometry of a resize drag: the original size extended by the
/// pointer delta, position unchanged; the minimum-size floor is enforced
/// symmetrically on width and height.
pub fn mouse_action_resize(
    orig_client_pos: (i32, i32),
    orig_client_size: (u32, u32),
    delta: (i32, i32),
) -> (r: Dimensions)
    ensures
        r.x == orig_client_pos.0,
        r.y == orig_client_pos.1,
        r.w == if orig_client_size.0 + delta.0 < WINDOW_MIN_SIZE {
            WINDOW_MIN_SIZE
        } else {
            clamp_u32(orig_client_size.0 + delta.0)
        },
        r.h == if orig_client_size.1 + delta.1 < WINDOW_MIN_SIZE {
            WINDOW_MIN_SIZE
        } else {
            clamp_u32(orig_client_size.1 + delta.1)
        },
        r.w >= WINDOW_MIN_SIZE,
        r.h >= WINDOW_MIN_SIZE,
{
    let dw: i64 = orig_client_size.0 as i64 + delta.0 as i64;
    let dh: i64 = orig_client_size.1 as i64 + delta.1 as i64;
    let w: u32 = if dw < WINDOW_MIN_SIZE as i64 {
        WINDOW_MIN_SIZE
    } else if dw > u32::MAX as i64 {
        u32::MAX
    } else {
        dw as u32
    };
    let h: u32 = if dh < WINDOW_MIN_SIZE as i64 {
        WINDOW_MIN_SIZE
    } else if dh > u32::MAX as i64 {
        u32::MAX
    } else {
        dh as u32
    };
    Dimensions { x: orig_client_pos.0, y: orig_client_pos.1, w, h }
}

/// The geometry a drag in state `st` assigns at pointer position `pointer`:
/// a move translates the original position by the pointer delta; a resize
/// extends the original size by it, with the minimum-size floor enforced
/// symmetrically.
pub open spec fn spec_motion_geometry(st: DragState, pointer: (i32, i32)) -> Dimensions {
    let dx = pointer.0 - st.orig_pointer.0;
    let dy = pointer.1 - st.orig_pointer.1;
    match st.kind {
        DragKind::Move => Dimensions {
            x: (st.orig_pos.0 + dx) as i32,
            y: (st.orig_pos.1 + dy) as i32,
            w: st.orig_size.0,
            h: st.orig_size.1,
        },
        DragKind::Resize => Dimensions {
            x: st.orig_pos.0,
            y: st.orig_pos.1,
            w: if st.orig_size.0 + dx < WINDOW_MIN_SIZE {
                WINDOW_MIN_SIZE
            } else {
                clamp_u32(st.orig_size.0 + dx)
            },
            h: if st.orig_size.1 + dy < WINDOW_MIN_SIZE {
                WINDOW_MIN_SIZE
            } else {
                clamp_u32(st.orig_size.1 + dy)
            },
        },
    }
}

impl DragState {
    /// The geometry the dragged client takes at pointer position `pointer`:
    /// the placement function of the drag kind applied to the delta from the
    /// original pointer position.
    pub fn motion_geometry(&self, pointer: (i32, i32)) -> (r: Dimensions)
        requires
            i32::MIN <= pointer.0 - self.orig_pointer.0 <= i32::MAX,
            i32::MIN <= pointer.1 - self.orig_pointer.1 <= i32::MAX,
            self.kind == DragKind::Move ==> i32::MIN <= self.orig_pos.0 + (pointer.0
                - self.orig_pointer.0) <= i32::MAX && i32::MIN <= self.orig_pos.1 + (pointer.1
                - self.orig_pointer.1) <= i32::MAX,
        ensures
            r == spec_motion_geometry(*self, pointer),
            self.kind == DragKind::Resize ==> r.w >= WINDOW_MIN_SIZE && r.h >= WINDOW_MIN_SIZE,
    {
        let delta = (pointer.0 - self.orig_pointer.0, pointer.1 - self.orig_pointer.1);
        match self.kind {
            DragKind::Move => mouse_action_move(self.orig_pos, self.orig_size, delta),
            DragKind::Resize => mouse_action_resize(self.orig_pos, self.orig_size, delta),
        }
    }
}

} // verus!
