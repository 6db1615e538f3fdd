use vec_draw::interaction::{
    apply_mode_button, cursor_class, drag_target, hover_action, mouse_down_action, mouse_move_action,
    mouse_up, preview_kind, selection_changed, shape_completed, shortcut_action, toggle_fill, DragTarget,
    FillButton, HoverAction, ModeButton, MouseDownAction, MouseMoveAction, MouseUpAction, Preview,
    ShortcutAction,
};
use vec_draw::state::{ActionMode, DrawingMode, State};

#[test]
fn mouse_down_decisions() {
    assert_eq!(mouse_down_action(1, ActionMode::Selection), MouseDownAction::Pan);
    assert_eq!(mouse_down_action(0, ActionMode::Selection), MouseDownAction::Select);
    assert_eq!(mouse_down_action(0, ActionMode::Drawing), MouseDownAction::Draw);
    assert_eq!(mouse_down_action(2, ActionMode::Eraser), MouseDownAction::Nothing);
}

#[test]
fn selection_change() {
    assert!(selection_changed(&vec![], &vec![1]));
    assert!(!selection_changed(&vec![], &vec![]));
    assert!(!selection_changed(&vec![1, 2], &vec![2, 1, 3]));
    assert!(selection_changed(&vec![1, 4], &vec![1]));
}

#[test]
fn shape_completion() {
    assert!(shape_completed(DrawingMode::Pencil, 0, 0));
    assert!(shape_completed(DrawingMode::Polyline, 5, 2));
    assert!(!shape_completed(DrawingMode::Polyline, 5, 0));
    assert!(shape_completed(DrawingMode::Line, 2, 0));
    assert!(!shape_completed(DrawingMode::Rectangle, 1, 0));
    assert!(shape_completed(DrawingMode::CubicBez, 4, 0));
    assert!(!shape_completed(DrawingMode::Text, 2, 0));
}

#[test]
fn mouse_up_decisions() {
    let mut s = State::new("#000".to_string());
    s.set_is_panning(&true);
    assert_eq!(mouse_up(&mut s, 0, 0), MouseUpAction::StopPanning);
    assert!(!s.is_panning());
    s.set_drawing_mode(&DrawingMode::Line);
    assert_eq!(mouse_up(&mut s, 1, 0), MouseUpAction::Redraw);
    assert_eq!(mouse_up(&mut s, 2, 0), MouseUpAction::Complete { mode: DrawingMode::Line });
    s.set_action_mode(&ActionMode::Selection);
    assert_eq!(mouse_up(&mut s, 2, 0), MouseUpAction::Nothing);
}

#[test]
fn mouse_move_decisions() {
    let mut s = State::new("#000".to_string());
    assert_eq!(mouse_move_action(false, &s), MouseMoveAction::Hover);
    assert_eq!(mouse_move_action(true, &s), MouseMoveAction::Unsupported);
    s.set_drawing_mode(&DrawingMode::Pencil);
    assert_eq!(mouse_move_action(true, &s), MouseMoveAction::ExtendStroke);
    s.set_action_mode(&ActionMode::Eraser);
    assert_eq!(mouse_move_action(true, &s), MouseMoveAction::Erase);
    s.set_action_mode(&ActionMode::Selection);
    assert_eq!(mouse_move_action(true, &s), MouseMoveAction::DragSelection);
    s.set_is_panning(&true);
    assert_eq!(mouse_move_action(true, &s), MouseMoveAction::Pan);
}

#[test]
fn previews() {
    assert_eq!(preview_kind(DrawingMode::Line, 0), Preview::Nothing);
    assert_eq!(preview_kind(DrawingMode::Line, 1), Preview::Segment);
    assert_eq!(preview_kind(DrawingMode::CubicBez, 3), Preview::Cubic);
    assert_eq!(preview_kind(DrawingMode::CubicBez, 2), Preview::PathToMouse);
    assert_eq!(preview_kind(DrawingMode::Text, 2), Preview::Nothing);
}

#[test]
fn hover_and_drag() {
    assert_eq!(hover_action(true, 8, true), HoverAction::MoveCursor);
    assert_eq!(hover_action(true, 2, false), HoverAction::PointerCursor);
    assert_eq!(hover_action(true, -1, true), HoverAction::Nothing);
    assert_eq!(hover_action(false, 3, true), HoverAction::Hovered);
    assert_eq!(hover_action(false, 3, false), HoverAction::NotHovered);
    assert_eq!(cursor_class(HoverAction::MoveCursor), Some("cursor-move"));
    assert_eq!(cursor_class(HoverAction::PointerCursor), Some("cursor-pointer"));
    assert_eq!(cursor_class(HoverAction::Hovered), None);
    assert_eq!(drag_target(-1), DragTarget::WholeShape);
    assert_eq!(drag_target(3), DragTarget::ControlPoint { index: 3 });
}

#[test]
fn shortcuts() {
    assert_eq!(shortcut_action(true, true, "a", 0), ShortcutAction::TextBoxKey);
    assert_eq!(shortcut_action(false, true, "a", 0), ShortcutAction::SelectAll);
    assert_eq!(shortcut_action(false, false, "a", 0), ShortcutAction::Nothing);
    assert_eq!(shortcut_action(false, false, "Escape", 0), ShortcutAction::DeselectAll);
    assert_eq!(shortcut_action(false, false, "Escape", 2), ShortcutAction::CancelDrawing);
    assert_eq!(shortcut_action(false, false, "Delete", 2), ShortcutAction::DeleteSelected);
}

#[test]
fn mode_buttons_and_fill() {
    let mut s = State::new("#000".to_string());
    apply_mode_button(&mut s, ModeButton::Polygon);
    assert_eq!((s.action_mode(), s.drawing_mode()), (ActionMode::Drawing, DrawingMode::Polyline));
    apply_mode_button(&mut s, ModeButton::Eraser);
    assert_eq!((s.action_mode(), s.drawing_mode()), (ActionMode::Eraser, DrawingMode::Polyline));
    assert_eq!(toggle_fill(&mut s, "No Fill", "#abcdef".to_string()), FillButton::Filled);
    assert_eq!(s.background(), Some("#abcdef".to_string()));
    assert_eq!(toggle_fill(&mut s, "Fill", "#abcdef".to_string()), FillButton::Cleared);
    assert_eq!(s.background(), None);
}
