//! Decisions of the canvas event handlers: what a mouse press, move or
//! release, a key press or a mode button does, given the editor state.
//! The caller performs the drawing and the geometry.
use vstd::prelude::*;
use crate::chars::str_eq;
use crate::state::{ActionMode, DrawingMode, State, StateView};

verus! {

/// The middle mouse button (`MouseEvent.button()`).
pub const MIDDLE_BUTTON: i16 = 1;

/// The secondary (right) mouse button.
pub const SECONDARY_BUTTON: i16 = 2;

/// What a mouse press on the canvas starts.
#[derive(Debug, Copy, Clone, PartialEq, Eq, Structural)]
pub enum MouseDownAction {
    /// Middle button: start panning.
    Pan,
    /// Selection mode: select the shapes under the mouse.
    Select,
    /// Drawing mode: add a point (or start a text box).
    Draw,
    /// Eraser mode: nothing until the mouse moves.
    Nothing,
}

pub open spec fn mouse_down_spec(button: i16, mode: ActionMode) -> MouseDownAction {
    if button == MIDDLE_BUTTON {
        MouseDownAction::Pan
    } else {
        match mode {
            ActionMode::Selection => MouseDownAction::Select,
            ActionMode::Drawing => MouseDownAction::Draw,
            ActionMode::Eraser => MouseDownAction::Nothing,
        }
    }
}

pub fn mouse_down_action(button: i16, mode: ActionMode) -> (res: MouseDownAction)
    ensures
        res == mouse_down_spec(button, mode),
{
    if button == MIDDLE_BUTTON {
        MouseDownAction::Pan
    } else {
        match mode {
            ActionMode::Selection => MouseDownAction::Select,
            ActionMode::Drawing => MouseDownAction::Draw,
            ActionMode::Eraser => MouseDownAction::Nothing,
        }
    }
}

/// A press changes the selection when it hits nothing while something is
/// selected, or hits a shape that is not selected yet. Shapes are given by
/// their index in the drawing.
pub open spec fn selection_changed_spec(unders: Seq<usize>, selected: Seq<usize>) -> bool {
    (unders.len() == 0 && selected.len() > 0) || exists|i: int|
        0 <= i < unders.len() && !selected.contains(#[trigger] unders[i])
}

fn contains_index(v: &Vec<usize>, x: usize) -> (res: bool)
    ensures
        res == v@.contains(x),
{
    let mut i: usize = 0;
    while i < v.len()
        invariant
            i <= v@.len(),
            forall|k: int| 0 <= k < i ==> v@[k] != x,
        decreases v@.len() - i,
    {
        if v[i] == x {
            assert(v@[i as int] == x);
            return true;
        }
        i += 1;
    }
    false
}

pub fn selection_changed(unders: &Vec<usize>, selected: &Vec<usize>) -> (res: bool)
    ensures
        res == selection_changed_spec(unders@, selected@),
{
    if unders.len() == 0 && selected.len() > 0 {
        return true;
    }
    let mut i: usize = 0;
    while i < unders.len()
        invariant
            i <= unders@.len(),
            forall|k: int| 0 <= k < i ==> selected@.contains(#[trigger] unders@[k]),
        decreases unders@.len() - i,
    {
        if !contains_index(selected, unders[i]) {
            return true;
        }
        i += 1;
    }
    false
}

/// Whether releasing the mouse finishes the shape being drawn from
/// `point_count` clicked points: a pencil stroke always, a polyline on the
/// secondary button, a line, rectangle or ellipse at two points, a cubic
/// Bézier at four points, an elliptical arc at five (center, axis end,
/// second radius, start, end); a text box never.
pub open spec fn shape_completed_spec(mode: DrawingMode, point_count: nat, button: i16) -> bool {
    match mode {
        DrawingMode::Pencil => true,
        DrawingMode::Polyline => button == SECONDARY_BUTTON,
        DrawingMode::Line => point_count == 2,
        DrawingMode::Rectangle => point_count == 2,
        DrawingMode::Ellipse => point_count == 2,
        DrawingMode::EllipticalArc => point_count == 5,
        DrawingMode::CubicBez => point_count == 4,
        DrawingMode::Text => false,
    }
}

pub fn shape_completed(mode: DrawingMode, point_count: usize, button: i16) -> (res: bool)
    ensures
        res == shape_completed_spec(mode, point_count as nat, button),
{
    match mode {
        DrawingMode::Pencil => true,
        DrawingMode::Polyline => button == SECONDARY_BUTTON,
        DrawingMode::Line => point_count == 2,
        DrawingMode::Rectangle => point_count == 2,
        DrawingMode::Ellipse => point_count == 2,
        DrawingMode::EllipticalArc => point_count == 5,
        DrawingMode::CubicBez => point_count == 4,
        DrawingMode::Text => false,
    }
}

/// What a mouse release does.
#[derive(Debug, Copy, Clone, PartialEq, Eq, Structural)]
pub enum MouseUpAction {
    /// Stop panning; nothing else.
    StopPanning,
    /// Build the shape of this mode from the points, forget the points, redraw.
    Complete { mode: DrawingMode },
    /// Redraw only.
    Redraw,
    /// Nothing but remembering the mouse position.
    Nothing,
}

pub open spec fn mouse_up_spec(s: StateView, point_count: nat, button: i16) -> MouseUpAction {
    if s.is_panning {
        MouseUpAction::StopPanning
    } else if s.action_mode == ActionMode::Drawing {
        if shape_completed_spec(s.drawing_mode, point_count, button) {
            MouseUpAction::Complete { mode: s.drawing_mode }
        } else {
            MouseUpAction::Redraw
        }
    } else {
        MouseUpAction::Nothing
    }
}

/// Decides a mouse release; ends panning in `state` when it was panning.
pub fn mouse_up(state: &mut State, point_count: usize, button: i16) -> (res: MouseUpAction)
    ensures
        res == mouse_up_spec(old(state)@, point_count as nat, button),
        final(state)@ == (if old(state)@.is_panning {
            StateView { is_panning: false, ..old(state)@ }
        } else {
            old(state)@
        }),
{
    if state.is_panning() {
        state.set_is_panning(&false);
        return MouseUpAction::StopPanning;
    }
    let mode = state.drawing_mode();
    if state.action_mode() == ActionMode::Drawing {
        if shape_completed(mode, point_count, button) {
            MouseUpAction::Complete { mode }
        } else {
            MouseUpAction::Redraw
        }
    } else {
        MouseUpAction::Nothing
    }
}

/// What moving the mouse does.
#[derive(Debug, Copy, Clone, PartialEq, Eq, Structural)]
pub enum MouseMoveAction {
    /// Button held while panning: shift the view.
    Pan,
    /// Button held in eraser mode: erase what the mouse hits.
    Erase,
    /// Button held while drawing with the pencil: extend the stroke.
    ExtendStroke,
    /// Button held while drawing another shape: nothing to do.
    Unsupported,
    /// Button held in selection mode: drag the selected shapes.
    DragSelection,
    /// Button up: redraw, preview the shape in progress, update hovering.
    Hover,
}

pub open spec fn mouse_move_spec(pressed: bool, s: StateView) -> MouseMoveAction {
    if !pressed {
        MouseMoveAction::Hover
    } else if s.is_panning {
        MouseMoveAction::Pan
    } else if s.action_mode == ActionMode::Eraser {
        MouseMoveAction::Erase
    } else if s.action_mode == ActionMode::Drawing {
        if s.drawing_mode == DrawingMode::Pencil {
            MouseMoveAction::ExtendStroke
        } else {
            MouseMoveAction::Unsupported
        }
    } else {
        MouseMoveAction::DragSelection
    }
}

pub fn mouse_move_action(pressed: bool, state: &State) -> (res: MouseMoveAction)
    ensures
        res == mouse_move_spec(pressed, state@),
{
    if !pressed {
        MouseMoveAction::Hover
    } else if state.is_panning() {
        MouseMoveAction::Pan
    } else if state.action_mode() == ActionMode::Eraser {
        MouseMoveAction::Erase
    } else if state.action_mode() == ActionMode::Drawing {
        if state.drawing_mode() == DrawingMode::Pencil {
            MouseMoveAction::ExtendStroke
        } else {
            MouseMoveAction::Unsupported
        }
    } else {
        MouseMoveAction::DragSelection
    }
}

/// The dashed preview drawn while a shape is in progress.
#[derive(Debug, Copy, Clone, PartialEq, Eq, Structural)]
pub enum Preview {
    /// Nothing to preview.
    Nothing,
    /// A segment from the first point to the mouse.
    Segment,
    /// The path through the points.
    Path,
    /// The path through the points and on to the mouse.
    PathToMouse,
    /// The rectangle from the last point to the mouse.
    Rect,
    /// The ellipse inscribed between the last point and the mouse.
    Ellipse,
    /// The cubic Bézier through the three points, ending at the mouse.
    Cubic,
    /// Arc with its center only: the radius line to the mouse and its circle.
    ArcRadius,
    /// Arc with center and first axis: the ellipse whose second radius the mouse sets.
    ArcAxes,
    /// Arc with both radii: the ellipse and the start point nearest the mouse.
    ArcStart,
    /// Arc with its start: the arc from the start to the point nearest the mouse.
    ArcSweep,
}

/// The stage of an elliptical arc in progress, by its clicked points.
pub open spec fn arc_preview_spec(point_count: nat) -> Preview {
    if point_count == 1 {
        Preview::ArcRadius
    } else if point_count == 2 {
        Preview::ArcAxes
    } else if point_count == 3 {
        Preview::ArcStart
    } else if point_count == 4 {
        Preview::ArcSweep
    } else {
        Preview::Nothing
    }
}

pub open spec fn preview_spec(mode: DrawingMode, point_count: nat) -> Preview {
    if point_count == 0 {
        Preview::Nothing
    } else {
        match mode {
            DrawingMode::Line => Preview::Segment,
            DrawingMode::Pencil => Preview::Path,
            DrawingMode::Rectangle => Preview::Rect,
            DrawingMode::Polyline => Preview::PathToMouse,
            DrawingMode::Ellipse => Preview::Ellipse,
            DrawingMode::EllipticalArc => arc_preview_spec(point_count),
            DrawingMode::CubicBez => if point_count == 3 {
                Preview::Cubic
            } else {
                Preview::PathToMouse
            },
            DrawingMode::Text => Preview::Nothing,
        }
    }
}

pub fn preview_kind(mode: DrawingMode, point_count: usize) -> (res: Preview)
    ensures
        res == preview_spec(mode, point_count as nat),
{
    if point_count == 0 {
        return Preview::Nothing;
    }
    match mode {
        DrawingMode::Line => Preview::Segment,
        DrawingMode::Pencil => Preview::Path,
        DrawingMode::Rectangle => Preview::Rect,
        DrawingMode::Polyline => Preview::PathToMouse,
        DrawingMode::Ellipse => Preview::Ellipse,
        DrawingMode::EllipticalArc => if point_count == 1 {
            Preview::ArcRadius
        } else if point_count == 2 {
            Preview::ArcAxes
        } else if point_count == 3 {
            Preview::ArcStart
        } else if point_count == 4 {
            Preview::ArcSweep
        } else {
            Preview::Nothing
        },
        DrawingMode::CubicBez => if point_count == 3 {
            Preview::Cubic
        } else {
            Preview::PathToMouse
        },
        DrawingMode::Text => Preview::Nothing,
    }
}

/// The preview drawn while the mouse moves with no button held: that of
/// the shape in progress, except for a pencil stroke, which is previewed
/// only while the button is held.
pub fn hover_preview(mode: DrawingMode, point_count: usize) -> (res: Preview)
    ensures
        res == (if mode == DrawingMode::Pencil {
            Preview::Nothing
        } else {
            preview_spec(mode, point_count as nat)
        }),
{
    if mode == DrawingMode::Pencil {
        Preview::Nothing
    } else {
        preview_kind(mode, point_count)
    }
}

/// The control point index that moves the whole shape.
pub const MOVE_CONTROL_POINT: i32 = 8;

/// What hovering over one shape does.
#[derive(Debug, Copy, Clone, PartialEq, Eq, Structural)]
pub enum HoverAction {
    /// A selected shape's move handle is under the mouse: `cursor-move`.
    MoveCursor,
    /// Another control point of a selected shape is under the mouse: `cursor-pointer`.
    PointerCursor,
    /// A selected shape with no control point under the mouse: nothing.
    Nothing,
    /// An unselected shape under the mouse: mark it hovered and highlight it.
    Hovered,
    /// An unselected shape away from the mouse: not hovered.
    NotHovered,
}

pub open spec fn hover_spec(selected: bool, control_point: i32, hit: bool) -> HoverAction {
    if selected {
        if control_point == -1 {
            HoverAction::Nothing
        } else if control_point == MOVE_CONTROL_POINT {
            HoverAction::MoveCursor
        } else {
            HoverAction::PointerCursor
        }
    } else if hit {
        HoverAction::Hovered
    } else {
        HoverAction::NotHovered
    }
}

/// `control_point` is the shape's control point under the mouse (-1 for
/// none); `hit` whether the mouse is over the shape.
pub fn hover_action(selected: bool, control_point: i32, hit: bool) -> (res: HoverAction)
    ensures
        res == hover_spec(selected, control_point, hit),
{
    if selected {
        if control_point == -1 {
            HoverAction::Nothing
        } else if control_point == MOVE_CONTROL_POINT {
            HoverAction::MoveCursor
        } else {
            HoverAction::PointerCursor
        }
    } else if hit {
        HoverAction::Hovered
    } else {
        HoverAction::NotHovered
    }
}

/// The canvas class name for a cursor action, if it sets one.
pub fn cursor_class(action: HoverAction) -> (res: Option<&'static str>)
    ensures
        action == HoverAction::MoveCursor ==> (res matches Some(s) && s@ == "cursor-move"@),
        action == HoverAction::PointerCursor ==> (res matches Some(s) && s@ == "cursor-pointer"@),
        action != HoverAction::MoveCursor && action != HoverAction::PointerCursor ==> res is None,
{
    match action {
        HoverAction::MoveCursor => Some("cursor-move"),
        HoverAction::PointerCursor => Some("cursor-pointer"),
        _ => None,
    }
}

/// What a drag does to a selected shape: move its selected control point,
/// or the whole shape when none is selected (-1).
#[derive(Debug, Copy, Clone, PartialEq, Eq, Structural)]
pub enum DragTarget {
    ControlPoint { index: i32 },
    WholeShape,
}

pub fn drag_target(selected_control_point: i32) -> (res: DragTarget)
    ensures
        selected_control_point != -1 ==> res == (DragTarget::ControlPoint {
            index: selected_control_point,
        }),
        selected_control_point == -1 ==> res == DragTarget::WholeShape,
{
    if selected_control_point != -1 {
        DragTarget::ControlPoint { index: selected_control_point }
    } else {
        DragTarget::WholeShape
    }
}

/// What a key press on the page does.
#[derive(Debug, Copy, Clone, PartialEq, Eq, Structural)]
pub enum ShortcutAction {
    /// A text box is being edited: hand the key to it, then delete the
    /// selected shapes and redraw.
    TextBoxKey,
    /// Ctrl+A: select every shape.
    SelectAll,
    /// Escape with no shape in progress: deselect every shape.
    DeselectAll,
    /// Escape while drawing: forget the clicked points and redraw.
    CancelDrawing,
    /// Delete: remove the selected shapes and redraw.
    DeleteSelected,
    /// Any other key.
    Nothing,
}

pub open spec fn shortcut_spec(
    text_box_active: bool,
    ctrl: bool,
    key: Seq<char>,
    pending_points: nat,
) -> ShortcutAction {
    if text_box_active {
        ShortcutAction::TextBoxKey
    } else if ctrl && key == "a"@ {
        ShortcutAction::SelectAll
    } else if key == "Escape"@ {
        if pending_points == 0 {
            ShortcutAction::DeselectAll
        } else {
            ShortcutAction::CancelDrawing
        }
    } else if key == "Delete"@ {
        ShortcutAction::DeleteSelected
    } else {
        ShortcutAction::Nothing
    }
}

/// `pending_points` is the number of points clicked for the shape in progress.
pub fn shortcut_action(text_box_active: bool, ctrl: bool, key: &str, pending_points: usize) -> (res:
    ShortcutAction)
    ensures
        res == shortcut_spec(text_box_active, ctrl, key@, pending_points as nat),
{
    if text_box_active {
        ShortcutAction::TextBoxKey
    } else if ctrl && str_eq(key, "a") {
        ShortcutAction::SelectAll
    } else if str_eq(key, "Escape") {
        if pending_points == 0 {
            ShortcutAction::DeselectAll
        } else {
            ShortcutAction::CancelDrawing
        }
    } else if str_eq(key, "Delete") {
        ShortcutAction::DeleteSelected
    } else {
        ShortcutAction::Nothing
    }
}

/// The mode buttons of the tool bar.
#[derive(Debug, Copy, Clone, PartialEq, Eq, Structural)]
pub enum ModeButton {
    Selection,
    Eraser,
    Pencil,
    Line,
    Rectangle,
    Polygon,
    Ellipse,
    Arc,
    Bezier,
    Text,
}

/// The modes a button selects: an action mode, and for the drawing tools
/// also a drawing mode (the polygon button draws polylines).
pub open spec fn button_modes(b: ModeButton) -> (ActionMode, Option<DrawingMode>) {
    match b {
        ModeButton::Selection => (ActionMode::Selection, None),
        ModeButton::Eraser => (ActionMode::Eraser, None),
        ModeButton::Pencil => (ActionMode::Drawing, Some(DrawingMode::Pencil)),
        ModeButton::Line => (ActionMode::Drawing, Some(DrawingMode::Line)),
        ModeButton::Rectangle => (ActionMode::Drawing, Some(DrawingMode::Rectangle)),
        ModeButton::Polygon => (ActionMode::Drawing, Some(DrawingMode::Polyline)),
        ModeButton::Ellipse => (ActionMode::Drawing, Some(DrawingMode::Ellipse)),
        ModeButton::Arc => (ActionMode::Drawing, Some(DrawingMode::EllipticalArc)),
        ModeButton::Bezier => (ActionMode::Drawing, Some(DrawingMode::CubicBez)),
        ModeButton::Text => (ActionMode::Drawing, Some(DrawingMode::Text)),
    }
}

/// Sets the modes of a clicked mode button; the drawing mode stays for
/// the selection and eraser buttons.
pub fn apply_mode_button(state: &mut State, b: ModeButton)
    ensures
        final(state)@ == (StateView {
            action_mode: button_modes(b).0,
            drawing_mode: match button_modes(b).1 {
                Some(d) => d,
                None => old(state)@.drawing_mode,
            },
            ..old(state)@
        }),
{
    match b {
        ModeButton::Selection => state.set_action_mode(&ActionMode::Selection),
        ModeButton::Eraser => state.set_action_mode(&ActionMode::Eraser),
        ModeButton::Pencil => {
            state.set_action_mode(&ActionMode::Drawing);
            state.set_drawing_mode(&DrawingMode::Pencil);
        },
        ModeButton::Line => {
            state.set_action_mode(&ActionMode::Drawing);
            state.set_drawing_mode(&DrawingMode::Line);
        },
        ModeButton::Rectangle => {
            state.set_action_mode(&ActionMode::Drawing);
            state.set_drawing_mode(&DrawingMode::Rectangle);
        },
        ModeButton::Polygon => {
            state.set_action_mode(&ActionMode::Drawing);
            state.set_drawing_mode(&DrawingMode::Polyline);
        },
        ModeButton::Ellipse => {
            state.set_action_mode(&ActionMode::Drawing);
            state.set_drawing_mode(&DrawingMode::Ellipse);
        },
        ModeButton::Arc => {
            state.set_action_mode(&ActionMode::Drawing);
            state.set_drawing_mode(&DrawingMode::EllipticalArc);
        },
        ModeButton::Bezier => {
            state.set_action_mode(&ActionMode::Drawing);
            state.set_drawing_mode(&DrawingMode::CubicBez);
        },
        ModeButton::Text => {
            state.set_action_mode(&ActionMode::Drawing);
            state.set_drawing_mode(&DrawingMode::Text);
        },
    }
}

/// What the fill button now shows.
#[derive(Debug, Copy, Clone, PartialEq, Eq, Structural)]
pub enum FillButton {
    /// The background is filled with the picked color: caption "Fill", class "active".
    Filled,
    /// No background: caption "No Fill", no class.
    Cleared,
}

/// The fill button was clicked while showing `caption`: "No Fill" turns the
/// background on with `fill_value`, any other caption turns it off.
pub fn toggle_fill(state: &mut State, caption: &str, fill_value: String) -> (res: FillButton)
    ensures
        caption@ == "No Fill"@ ==> res == FillButton::Filled && final(state)@ == (StateView {
            background: Some(fill_value@),
            ..old(state)@
        }),
        caption@ != "No Fill"@ ==> res == FillButton::Cleared && final(state)@ == (StateView {
            background: None,
            ..old(state)@
        }),
{
    if str_eq(caption, "No Fill") {
        state.set_background(Some(fill_value));
        FillButton::Filled
    } else {
        state.set_background(None);
        FillButton::Cleared
    }
}

/// The shapes given by two points (line, rectangle, ellipse from its
/// bounding corners) are finished by the release after the second click,
/// and only then; a cubic Bézier needs four points and an elliptical arc
/// five; a pencil stroke ends at every release, a polyline at a release of
/// the secondary button, and a text box is never finished by the mouse. Each shape is finished right after the click that followed the
/// preview of the whole shape.
pub proof fn lemma_two_point_shapes_complete(n: nat, button: i16)
    ensures
        shape_completed_spec(DrawingMode::Line, n, button) <==> n == 2,
        shape_completed_spec(DrawingMode::Rectangle, n, button) <==> n == 2,
        shape_completed_spec(DrawingMode::Ellipse, n, button) <==> n == 2,
        shape_completed_spec(DrawingMode::CubicBez, n, button) <==> n == 4,
        shape_completed_spec(DrawingMode::EllipticalArc, n, button) <==> n == 5,
        shape_completed_spec(DrawingMode::Pencil, n, button),
        shape_completed_spec(DrawingMode::Polyline, n, button) <==> button == SECONDARY_BUTTON,
        !shape_completed_spec(DrawingMode::Text, n, button),
        shape_completed_spec(DrawingMode::Line, n, button) ==> preview_spec(DrawingMode::Line, (n - 1) as nat)
            == Preview::Segment,
        shape_completed_spec(DrawingMode::Rectangle, n, button) ==> preview_spec(
            DrawingMode::Rectangle,
            (n - 1) as nat,
        ) == Preview::Rect,
        shape_completed_spec(DrawingMode::Ellipse, n, button) ==> preview_spec(
            DrawingMode::Ellipse,
            (n - 1) as nat,
        ) == Preview::Ellipse,
        shape_completed_spec(DrawingMode::CubicBez, n, button) ==> preview_spec(
            DrawingMode::CubicBez,
            (n - 1) as nat,
        ) == Preview::Cubic,
        shape_completed_spec(DrawingMode::EllipticalArc, n, button) ==> preview_spec(
            DrawingMode::EllipticalArc,
            (n - 1) as nat,
        ) == Preview::ArcSweep,
{
}

/// Releasing the mouse in drawing mode (not panning) after the second click
/// with the ellipse tool finishes an ellipse; after one click it only
/// redraws.
pub proof fn lemma_ellipse_release(s: StateView, button: i16)
    requires
        !s.is_panning,
        s.action_mode == ActionMode::Drawing,
        s.drawing_mode == DrawingMode::Ellipse,
    ensures
        mouse_up_spec(s, 2, button) == (MouseUpAction::Complete { mode: DrawingMode::Ellipse }),
        mouse_up_spec(s, 1, button) == MouseUpAction::Redraw,
{
}

/// Every tool button for a shape switches to drawing that shape: the
/// rectangle button draws rectangles, the polygon button polylines, and so
/// on; no two tool buttons draw the same shape, and every shape has its
/// button. The selection and eraser buttons keep the drawing mode.
pub proof fn lemma_tool_buttons(b1: ModeButton, b2: ModeButton, mode: DrawingMode)
    ensures
        button_modes(ModeButton::Pencil) == (ActionMode::Drawing, Some(DrawingMode::Pencil)),
        button_modes(ModeButton::Line) == (ActionMode::Drawing, Some(DrawingMode::Line)),
        button_modes(ModeButton::Rectangle) == (ActionMode::Drawing, Some(DrawingMode::Rectangle)),
        button_modes(ModeButton::Polygon) == (ActionMode::Drawing, Some(DrawingMode::Polyline)),
        button_modes(ModeButton::Ellipse) == (ActionMode::Drawing, Some(DrawingMode::Ellipse)),
        button_modes(ModeButton::Arc) == (ActionMode::Drawing, Some(DrawingMode::EllipticalArc)),
        button_modes(ModeButton::Bezier) == (ActionMode::Drawing, Some(DrawingMode::CubicBez)),
        button_modes(ModeButton::Text) == (ActionMode::Drawing, Some(DrawingMode::Text)),
        button_modes(ModeButton::Selection) == (ActionMode::Selection, None::<DrawingMode>),
        button_modes(ModeButton::Eraser) == (ActionMode::Eraser, None::<DrawingMode>),
        b1 != b2 && button_modes(b1).1 is Some ==> button_modes(b1).1 != button_modes(b2).1,
        exists|b: ModeButton| button_modes(b) == (ActionMode::Drawing, Some(mode)),
{
    let b = match mode {
        DrawingMode::Pencil => ModeButton::Pencil,
        DrawingMode::Line => ModeButton::Line,
        DrawingMode::Rectangle => ModeButton::Rectangle,
        DrawingMode::Polyline => ModeButton::Polygon,
        DrawingMode::Ellipse => ModeButton::Ellipse,
        DrawingMode::EllipticalArc => ModeButton::Arc,
        DrawingMode::CubicBez => ModeButton::Bezier,
        DrawingMode::Text => ModeButton::Text,
    };
    assert(button_modes(b) == (ActionMode::Drawing, Some(mode)));
}

/// Pressing the middle button always pans, whatever the mode; releasing it
/// while panning only stops the panning.
pub proof fn lemma_pan_round_trip(s: StateView, mode: ActionMode, point_count: nat, button: i16)
    requires
        s.is_panning,
    ensures
        mouse_down_spec(MIDDLE_BUTTON, mode) == MouseDownAction::Pan,
        mouse_up_spec(s, point_count, button) == MouseUpAction::StopPanning,
{
}

/// A press on nothing changes the selection exactly when something was
/// selected, and a press on shapes that are all selected already never does.
pub proof fn lemma_selection_change_cases(unders: Seq<usize>, selected: Seq<usize>)
    ensures
        unders.len() == 0 ==> (selection_changed_spec(unders, selected) <==> selected.len() > 0),
        unders.len() > 0 && (forall|i: int| 0 <= i < unders.len() ==> selected.contains(unders[i]))
            ==> !selection_changed_spec(unders, selected),
{
}

} // verus!
