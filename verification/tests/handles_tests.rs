use vec_draw::handles::{arc_handle, point_handle, rectangle_handle, Handle};
use vec_draw::interaction::{
    apply_mode_button, hover_action, hover_preview, preview_kind, shape_completed, HoverAction, ModeButton,
    Preview, MOVE_CONTROL_POINT,
};
use vec_draw::state::{ActionMode, DrawingMode, State};
use vec_draw::svg_style::{is_none_paint, paints, text_align};
use vec_draw::vec_draw_doc::{is_major_tick, step_positions};

#[test]
fn rectangle_handles() {
    assert_eq!(rectangle_handle(8), Handle::Move);
    assert_eq!(rectangle_handle(9), Handle::Rotate);
    assert_eq!(rectangle_handle(1), Handle::Width);
    assert_eq!(rectangle_handle(5), Handle::Width);
    assert_eq!(rectangle_handle(3), Handle::Height);
    assert_eq!(rectangle_handle(7), Handle::Height);
    assert_eq!(rectangle_handle(0), Handle::Corner { opposite: 4 });
    assert_eq!(rectangle_handle(2), Handle::Corner { opposite: 6 });
    assert_eq!(rectangle_handle(4), Handle::Corner { opposite: 0 });
    assert_eq!(rectangle_handle(6), Handle::Corner { opposite: 2 });
    assert_eq!(rectangle_handle(-1), Handle::Inert);
    assert_eq!(rectangle_handle(10), Handle::Inert);
}

#[test]
fn arc_handles() {
    assert_eq!(arc_handle(8), Handle::Rotate);
    assert_eq!(arc_handle(9), Handle::Inert);
    assert_eq!(arc_handle(5), Handle::Width);
    assert_eq!(arc_handle(7), Handle::Height);
    assert_eq!(arc_handle(6), Handle::Corner { opposite: 2 });
}

#[test]
fn opposite_corner_round_trip() {
    for i in [0, 2, 4, 6] {
        match rectangle_handle(i) {
            Handle::Corner { opposite } => {
                assert_ne!(opposite as i32, i);
                assert_eq!(rectangle_handle(opposite as i32), Handle::Corner { opposite: i as usize });
            }
            other => panic!("corner {} gave {:?}", i, other),
        }
    }
}

#[test]
fn point_handles() {
    assert_eq!(point_handle(0, 2), Some(0));
    assert_eq!(point_handle(1, 2), Some(1));
    assert_eq!(point_handle(2, 2), None);
    assert_eq!(point_handle(-1, 4), None);
    assert_eq!(point_handle(3, 4), Some(3));
}

#[test]
fn ruler_positions() {
    assert_eq!(step_positions(35, 10), vec![0, 10, 20, 30]);
    assert_eq!(step_positions(30, 10), vec![0, 10, 20]);
    assert_eq!(step_positions(1, 10), vec![0]);
    assert_eq!(step_positions(0, 10), Vec::<i32>::new());
    assert_eq!(step_positions(-5, 10), Vec::<i32>::new());
    assert_eq!(step_positions(7, 3), vec![0, 3, 6]);
    let std_steps: Vec<i32> = (0..817).step_by(10).collect();
    assert_eq!(step_positions(817, 10), std_steps);
    assert_eq!(step_positions(i32::MAX, usize::MAX), vec![0]);
}

#[test]
fn major_ticks() {
    assert!(is_major_tick(0));
    assert!(is_major_tick(50));
    assert!(is_major_tick(100));
    assert!(!is_major_tick(10));
    assert!(!is_major_tick(60));
}

#[test]
fn paint_checks() {
    assert!(is_none_paint("none"));
    assert!(is_none_paint("NONE"));
    assert!(!is_none_paint(""));
    assert!(!is_none_paint("red"));
    assert!(paints("red"));
    assert!(paints("#00FF00"));
    assert!(!paints(""));
    assert!(!paints("None"));
}

#[test]
fn text_alignment() {
    assert_eq!(text_align("middle"), "center");
    assert_eq!(text_align("end"), "right");
    assert_eq!(text_align("start"), "left");
    assert_eq!(text_align(""), "left");
}

#[test]
fn elliptical_arc_mode() {
    assert!(shape_completed(DrawingMode::EllipticalArc, 5, 0));
    assert!(!shape_completed(DrawingMode::EllipticalArc, 4, 0));
    assert_eq!(preview_kind(DrawingMode::EllipticalArc, 0), Preview::Nothing);
    assert_eq!(preview_kind(DrawingMode::EllipticalArc, 1), Preview::ArcRadius);
    assert_eq!(preview_kind(DrawingMode::EllipticalArc, 2), Preview::ArcAxes);
    assert_eq!(preview_kind(DrawingMode::EllipticalArc, 3), Preview::ArcStart);
    assert_eq!(preview_kind(DrawingMode::EllipticalArc, 4), Preview::ArcSweep);
    assert_eq!(preview_kind(DrawingMode::EllipticalArc, 5), Preview::Nothing);
    assert_eq!(DrawingMode::EllipticalArc.label(), "EllipticalArc Mode");
    let mut state = State::new("#0000FF".to_string());
    apply_mode_button(&mut state, ModeButton::Arc);
    assert_eq!(state.action_mode(), ActionMode::Drawing);
    assert_eq!(state.drawing_mode(), DrawingMode::EllipticalArc);
}

#[test]
fn hover_previews() {
    assert_eq!(hover_preview(DrawingMode::Pencil, 3), Preview::Nothing);
    assert_eq!(preview_kind(DrawingMode::Pencil, 3), Preview::Path);
    assert_eq!(hover_preview(DrawingMode::Line, 1), Preview::Segment);
    assert_eq!(hover_preview(DrawingMode::CubicBez, 3), Preview::Cubic);
    assert_eq!(hover_preview(DrawingMode::Polyline, 0), Preview::Nothing);
}

#[test]
fn move_cursor_handle_moves_rectangle() {
    assert_eq!(hover_action(true, MOVE_CONTROL_POINT, false), HoverAction::MoveCursor);
    assert_eq!(rectangle_handle(MOVE_CONTROL_POINT), Handle::Move);
}
