use vec_draw::undo_redo_manager::{StateCommand, StateCommandMode, UndoRedoManager};
use vec_draw::vec_draw_doc::VecDrawDoc;
use vec_draw::state::{ActionMode, DrawingMode, State};
use vec_draw::generate_pdf::generate_piet_svg;
use vec_draw::request::{get_svgs_url, save_result, save_svg_url, server_url};
use std::sync::{Arc, Mutex};

#[test]
fn undo_redo_moves_commands() {
    let mut m: UndoRedoManager<u32> = UndoRedoManager::new();
    m.undo();
    assert_eq!((m.undo_count(), m.redo_count()), (0, 0));
    m.push(StateCommand::new(StateCommandMode::Create, vec![1]));
    m.push(StateCommand::new(StateCommandMode::Delete, vec![2, 3]));
    assert_eq!((m.undo_count(), m.redo_count()), (2, 0));
    m.undo();
    assert_eq!((m.undo_count(), m.redo_count()), (1, 1));
    m.undo();
    m.undo();
    assert_eq!((m.undo_count(), m.redo_count()), (0, 2));
    m.redo();
    assert_eq!((m.undo_count(), m.redo_count()), (1, 1));
    m.redo();
    m.redo();
    assert_eq!((m.undo_count(), m.redo_count()), (2, 0));
}

#[test]
fn push_keeps_redo_stack() {
    let mut m: UndoRedoManager<u32> = UndoRedoManager::new();
    m.push(StateCommand::new(StateCommandMode::Modify, vec![]));
    m.undo();
    m.push(StateCommand::new(StateCommandMode::Create, vec![5]));
    assert_eq!((m.undo_count(), m.redo_count()), (1, 1));
}

#[test]
fn command_holds_its_content() {
    let c = StateCommand::new(StateCommandMode::Delete, vec![7u8, 8]);
    assert_eq!(c.state, StateCommandMode::Delete);
    assert_eq!(c.content, vec![7, 8]);
}

#[test]
fn document_add_count_nth() {
    let mut doc: VecDrawDoc<&str> = VecDrawDoc::new();
    assert_eq!(doc.count(), 0);
    assert_eq!(doc.nth(0), None);
    doc.add_shape("line");
    doc.add_shape("rect");
    assert_eq!(doc.count(), 2);
    assert_eq!(doc.nth(1), Some("rect"));
    assert_eq!(doc.nth(2), None);
    doc.clear();
    assert_eq!(doc.count(), 0);
}

#[test]
fn document_delete_selected_and_erase() {
    let mut doc: VecDrawDoc<u32> = VecDrawDoc::new();
    for i in 0..5 {
        doc.add_shape(i);
    }
    doc.delete_selected(&vec![false, true, false, true, false]);
    assert_eq!(doc.shapes, vec![0, 2, 4]);
    doc.erase(&vec![true, false, false]);
    assert_eq!(doc.shapes, vec![2, 4]);
}

#[test]
fn document_filters_keep_order() {
    let mut doc: VecDrawDoc<Arc<Mutex<u32>>> = VecDrawDoc::new();
    for i in 0..4 {
        doc.add_shape(Arc::new(Mutex::new(i)));
    }
    let under = doc.get_shapes_under_mouse(&vec![true, false, true, false]);
    assert_eq!(under.len(), 2);
    assert!(Arc::ptr_eq(&under[0], &doc.shapes[0]));
    assert!(Arc::ptr_eq(&under[1], &doc.shapes[2]));
    let selected = doc.get_selected_shapes(&vec![false, false, false, true]);
    assert_eq!(*selected[0].lock().unwrap(), 3);
}

#[test]
fn state_defaults_and_setters() {
    let mut s = State::new("#0000FF".to_string());
    assert_eq!(s.color(), "#0000FF");
    assert_eq!(s.fill_color(), "#ffffff");
    assert_eq!(s.action_mode(), ActionMode::Drawing);
    assert_eq!(s.drawing_mode(), DrawingMode::CubicBez);
    assert_eq!(s.background(), None);
    assert!(!s.is_panning());
    assert_eq!(s.selected_control_point(), None);
    s.set_color(&"red".to_string());
    s.set_background(Some("blue".to_string()));
    s.set_is_panning(&true);
    s.set_action_mode(&ActionMode::Eraser);
    s.set_drawing_mode(&DrawingMode::Text);
    s.set_selected_control_point(Some((1, 2)));
    let c = s.clone();
    assert_eq!(c.color(), "red");
    assert_eq!(c.background(), Some("blue".to_string()));
    assert!(c.is_panning());
    assert_eq!(c.action_mode(), ActionMode::Eraser);
    assert_eq!(c.drawing_mode(), DrawingMode::Text);
    assert_eq!(c.selected_control_point(), Some((1, 2)));
}

#[test]
fn mode_labels() {
    assert_eq!(ActionMode::Selection.label(), "Selection Mode");
    assert_eq!(ActionMode::Eraser.label(), "Eraser Mode");
    assert_eq!(DrawingMode::CubicBez.label(), "CubicBez Mode");
    assert_eq!(DrawingMode::Text.label(), "Text Mode");
}

#[test]
fn sample_svg() {
    let svg = generate_piet_svg();
    assert!(svg.contains("<circle cx=\"130\" cy=\"160\" r=\"30\" fill=\"green\"/>"));
    assert!(svg.contains("Hello, Piet!"));
}

#[test]
fn request_urls() {
    assert_eq!(server_url(None), "http://127.0.0.1:1073");
    let s = "https://draw.example".to_string();
    assert_eq!(server_url(Some(&s)), "https://draw.example");
    assert_eq!(save_svg_url("http://h"), "http://h/save_svg");
    assert_eq!(get_svgs_url("http://h"), "http://h/get_svgs");
    assert_eq!(save_result(true), Ok("SVG saved successfully"));
    assert_eq!(save_result(false), Err("Failed to save SVG"));
}
