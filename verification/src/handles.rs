//! What dragging a control point of a shape changes. The handles of a
//! rectangle (and of an elliptical arc) are numbered around the box from the
//! top-left corner: 0 corner, 1 left side, 2 corner, 3 bottom side, 4 corner,
//! 5 right side, 6 corner, 7 top side; a rectangle adds its center (8) and a
//! rotation knob (9), an arc has its rotation knob at 8.
use vstd::prelude::*;
use crate::interaction::{hover_spec, HoverAction, MOVE_CONTROL_POINT};

verus! {

/// The effect of dragging one control point of a box-shaped figure.
#[derive(Debug, Copy, Clone, PartialEq, Eq, Structural)]
pub enum Handle {
    /// The whole figure moves.
    Move,
    /// The figure turns about its center.
    Rotate,
    /// A left or right side: the width changes along the drag.
    Width,
    /// A top or bottom side: the height changes along the drag.
    Height,
    /// A corner: the opposite corner stays where it is.
    Corner { opposite: usize },
    /// Not a handle of this figure: nothing changes.
    Inert,
}

/// The corner across the box from corner `i`.
pub open spec fn opposite_corner(i: int) -> int {
    (i + 4) % 8
}

pub open spec fn is_corner(i: int) -> bool {
    i == 0 || i == 2 || i == 4 || i == 6
}

/// The side and corner handles, shared by rectangles and arcs.
pub open spec fn box_handle_spec(index: i32) -> Handle {
    if index == 1 || index == 5 {
        Handle::Width
    } else if index == 3 || index == 7 {
        Handle::Height
    } else if is_corner(index as int) {
        Handle::Corner { opposite: opposite_corner(index as int) as usize }
    } else {
        Handle::Inert
    }
}

/// A rectangle's handles: the center (8) moves it, the knob (9) turns it.
pub open spec fn rectangle_handle_spec(index: i32) -> Handle {
    if index == 8 {
        Handle::Move
    } else if index == 9 {
        Handle::Rotate
    } else {
        box_handle_spec(index)
    }
}

/// An elliptical arc's handles: the knob (8) turns it.
pub open spec fn arc_handle_spec(index: i32) -> Handle {
    if index == 8 {
        Handle::Rotate
    } else {
        box_handle_spec(index)
    }
}

fn box_handle(index: i32) -> (res: Handle)
    ensures
        res == box_handle_spec(index),
{
    if index == 1 || index == 5 {
        Handle::Width
    } else if index == 3 || index == 7 {
        Handle::Height
    } else if index == 0 || index == 2 || index == 4 || index == 6 {
        let opposite: usize = if index < 4 {
            (index + 4) as usize
        } else {
            (index - 4) as usize
        };
        Handle::Corner { opposite }
    } else {
        Handle::Inert
    }
}

/// What dragging the rectangle's control point `index` does.
pub fn rectangle_handle(index: i32) -> (res: Handle)
    ensures
        res == rectangle_handle_spec(index),
{
    if index == 8 {
        Handle::Move
    } else if index == 9 {
        Handle::Rotate
    } else {
        box_handle(index)
    }
}

/// What dragging the arc's control point `index` does.
pub fn arc_handle(index: i32) -> (res: Handle)
    ensures
        res == arc_handle_spec(index),
{
    if index == 8 {
        Handle::Rotate
    } else {
        box_handle(index)
    }
}

/// The point that dragging control point `index` moves, for a figure whose
/// control points are its `count` defining points (a line's two ends, a
/// Bézier's four points, the points of a stroke or polyline).
pub fn point_handle(index: i32, count: usize) -> (res: Option<usize>)
    ensures
        res == (if 0 <= index < count {
            Some(index as usize)
        } else {
            None::<usize>
        }),
{
    if index >= 0 && (index as usize) < count {
        Some(index as usize)
    } else {
        None
    }
}

/// Dragging a corner keeps the corner across the box fixed, and that
/// corner's own opposite is the dragged one.
pub proof fn lemma_opposite_corner_involution(i: int)
    requires
        is_corner(i),
    ensures
        is_corner(opposite_corner(i)),
        opposite_corner(opposite_corner(i)) == i,
        opposite_corner(i) != i,
{
}

/// Every control point that a rectangle shows (0 to 9) does something when
/// dragged, and so does every one of an arc's (0 to 8).
pub proof fn lemma_every_handle_acts(index: i32)
    ensures
        0 <= index < 10 ==> rectangle_handle_spec(index) != Handle::Inert,
        0 <= index < 9 ==> arc_handle_spec(index) != Handle::Inert,
        !(0 <= index < 10) ==> rectangle_handle_spec(index) == Handle::Inert,
        !(0 <= index < 9) ==> arc_handle_spec(index) == Handle::Inert,
{
}

/// The handles around the box act the same on an arc as on a rectangle; the
/// two handles on the left and right sides (1 and 5) change the width, the
/// two on the bottom and top sides (3 and 7) the height, so opposite sides
/// act alike, and each corner keeps the corner across the box fixed.
pub proof fn lemma_box_handles(index: i32)
    ensures
        0 <= index < 8 ==> arc_handle_spec(index) == rectangle_handle_spec(index),
        0 <= index < 8 ==> arc_handle_spec(index) == arc_handle_spec(
            if index < 4 {
                (index + 4) as i32
            } else {
                (index - 4) as i32
            },
        ) || arc_handle_spec(index) is Corner,
        arc_handle_spec(1) == Handle::Width && arc_handle_spec(5) == Handle::Width,
        arc_handle_spec(3) == Handle::Height && arc_handle_spec(7) == Handle::Height,
        rectangle_handle_spec(1) == Handle::Width && rectangle_handle_spec(5) == Handle::Width,
        rectangle_handle_spec(3) == Handle::Height && rectangle_handle_spec(7) == Handle::Height,
        arc_handle_spec(0) == (Handle::Corner { opposite: 4 }),
        arc_handle_spec(2) == (Handle::Corner { opposite: 6 }),
        arc_handle_spec(4) == (Handle::Corner { opposite: 0 }),
        arc_handle_spec(6) == (Handle::Corner { opposite: 2 }),
        rectangle_handle_spec(8) == Handle::Move,
        rectangle_handle_spec(9) == Handle::Rotate,
        arc_handle_spec(8) == Handle::Rotate,
{
}

/// The handle under which the canvas shows the move cursor is the one that
/// moves a rectangle when dragged.
pub proof fn lemma_move_cursor_moves_rectangle(hit: bool)
    ensures
        hover_spec(true, MOVE_CONTROL_POINT, hit) == HoverAction::MoveCursor,
        rectangle_handle_spec(MOVE_CONTROL_POINT) == Handle::Move,
{
}

} // verus!
