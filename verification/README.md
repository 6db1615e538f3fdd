# vec_draw

A vector drawing editor for the browser (WebAssembly): pencil strokes, lines,
rectangles, polylines, ellipses, elliptical arcs, cubic Béziers and text
boxes on a zoomable canvas, with selection, erasing, SVG import and export,
and saving to a drawing server.

## Layout

- `src/` is the verified library (Verus). It holds what the editor decides
  and computes without floating point:
  - `state.rs`: the modes and settings of the editor;
  - `interaction.rs`: what a mouse press, move or release, a key or a tool
    button does in a given state;
  - `handles.rs`: what dragging each control point of a shape changes;
  - `text_box.rs`, `lines.rs`, `chars.rs`: text box editing (typing,
    deleting, cursor movement across lines, input-method composition);
  - `vec_draw_doc.rs`: the ordered shape list (add, erase, delete the
    selection, queries) and the ruler tick positions;
  - `undo_redo_manager.rs`: the undo/redo history;
  - `color.rs`: `#rrggbb` and named colors, converted to `piet::Color`;
  - `svg_style.rs`: SVG `style` attributes, `<style>` class rules, CSS
    variables and fill sources;
  - `request.rs`, `generate_pdf.rs`: server addresses and replies, the
    sample drawing.
  Laws that relate several operations are public proof functions next to
  them (for example `lemma_undo_redo_inverse`, `lemma_type_then_backspace`).
- `app/` is the browser side: DOM events, canvas painting with piet and
  kurbo, the shapes' floating-point geometry, SVG parsing through the DOM,
  file and network access. It calls the library for every decision.
- `tests/` runs the library on concrete inputs.
