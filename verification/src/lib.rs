//! Verified core of a vector drawing editor: editing state, text boxes,
//! undo/redo history, the shape document, colors and input decisions.
pub mod chars;
pub mod lines;
pub mod handles;
pub mod text_box;
pub mod undo_redo_manager;
pub mod vec_draw_doc;
pub mod state;
pub mod color;
pub mod interaction;
pub mod svg_style;
pub mod generate_pdf;
pub mod request;
