//! The editable text of a text box: its characters, the cursor (a character
//! position) and the text being composed by an input method.
use vstd::prelude::*;
use vstd::utf8::encode_utf8;
use crate::chars::{lemma_ascii_utf8_len, str_eq, chars_of, string_of, utf8_prefix_len, lemma_encode_utf8_prefix_len};
use crate::lines::{split_lines, segments, segments_total, lemma_segments_len, lemma_position_in_piece, lemma_segment_bounds, lemma_lines_without_cr, clamped_prefix, cursor_col, cursor_row, line_lengths, line_start, line_start_of, lemma_line_bounds, lemma_row_in_range, row_and_col, split_lines_spec};

verus! {

broadcast use vstd::string::group_string_axioms;

/// The text after `v` is typed at position `c` (a position past the end types at the end).
pub open spec fn inserted_text(t: Seq<char>, c: nat, v: Seq<char>) -> Seq<char> {
    if c <= t.len() {
        t.take(c as int) + v + t.skip(c as int)
    } else {
        t + v
    }
}

/// The text after Backspace at position `c`: the character before the
/// (clamped) position goes.
pub open spec fn deleted_before_text(t: Seq<char>, c: nat) -> Seq<char> {
    let p = if c <= t.len() {
        c
    } else {
        t.len()
    };
    if c > 0 && p > 0 {
        t.take(p - 1) + t.skip(p as int)
    } else {
        t
    }
}

/// The cursor after Backspace.
pub open spec fn deleted_before_cursor(c: nat) -> nat {
    if c > 0 {
        (c - 1) as nat
    } else {
        c
    }
}

/// The text after Delete at position `c`: the character at `c` goes, unless
/// it is the only character, which stays.
pub open spec fn deleted_at_text(t: Seq<char>, c: nat) -> Seq<char> {
    if c + 1 < t.len() {
        t.take(c as int) + t.skip(c + 1 as int)
    } else {
        t
    }
}

/// Delete at position `c` is defined: it fails on the last character of a
/// text of two or more characters.
pub open spec fn delete_at_defined(t: Seq<char>, c: nat) -> bool {
    !(c + 1 == t.len() && c > 0)
}

/// The cursor after moving one character back.
pub open spec fn moved_left(c: nat) -> nat {
    if c > 0 {
        (c - 1) as nat
    } else {
        0
    }
}

/// The cursor after moving one character forward.
pub open spec fn moved_right(t: Seq<char>, c: nat) -> nat {
    if c < t.len() {
        c + 1
    } else {
        c
    }
}

/// The cursor after moving one line up: same column, clamped to the length of
/// the line above; unchanged on the first line.
pub open spec fn moved_up(t: Seq<char>, c: nat) -> nat {
    let r = cursor_row(t, c);
    let col = cursor_col(t, c);
    let lines = split_lines_spec(t);
    if c == 0 || r == 0 {
        c
    } else {
        let l = lines[r - 1];
        line_start(lines, (r - 1) as nat) + if l.len() < col {
            l.len()
        } else {
            col
        }
    }
}

/// The cursor after moving one line down: same column, clamped to the length
/// of the line below; unchanged on the last line.
pub open spec fn moved_down(t: Seq<char>, c: nat) -> nat {
    let r = cursor_row(t, c);
    let col = cursor_col(t, c);
    let lines = split_lines_spec(t);
    if r + 1 < lines.len() {
        let l = lines[r + 1 as int];
        line_start(lines, r + 1) + if l.len() < col {
            l.len()
        } else {
            col
        }
    } else {
        c
    }
}

/// The cursor after Home: the start of its line.
pub open spec fn moved_line_start(t: Seq<char>, c: nat) -> nat {
    line_start(split_lines_spec(t), cursor_row(t, c))
}

/// The cursor after End: the end of its line.
pub open spec fn moved_line_end(t: Seq<char>, c: nat) -> nat {
    let lines = split_lines_spec(t);
    let r = cursor_row(t, c);
    line_start(lines, r) + lines[r as int].len()
}

/// The editable part of a text box.
#[derive(Debug, Clone)]
pub struct TextBox {
    pub text: String,
    pub selected: bool,
    pub hovered: bool,
    pub color: String,
    pub background_color: String,
    pub selected_control_point: i32,
    pub composition_text: String,
    pub cursor_position: usize,
}

impl TextBox {
    /// An empty, unselected text box: black text on light gray, cursor at 0,
    /// no control point selected.
    pub fn new() -> (tb: Self)
        ensures
            tb.text@ == Seq::<char>::empty(),
            tb.composition_text@ == Seq::<char>::empty(),
            tb.cursor_position == 0,
            !tb.selected,
            !tb.hovered,
            tb.color@ == "#000000"@,
            tb.background_color@ == "lightgray"@,
            tb.selected_control_point == -1,
    {
        TextBox {
            text: String::new(),
            selected: false,
            hovered: false,
            color: String::from_str("#000000"),
            background_color: String::from_str("lightgray"),
            selected_control_point: -1,
            composition_text: String::new(),
            cursor_position: 0,
        }
    }

    /// The text box keeps everything but the text and the cursor.
    pub open spec fn same_frame(&self, other: &TextBox) -> bool {
        &&& self.composition_text@ == other.composition_text@
        &&& self.selected == other.selected
        &&& self.hovered == other.hovered
        &&& self.color@ == other.color@
        &&& self.background_color@ == other.background_color@
        &&& self.selected_control_point == other.selected_control_point
    }

    pub fn color(&self) -> (res: &str)
        ensures
            res@ == self.color@,
    {
        self.color.as_str()
    }

    pub fn background_color(&self) -> (res: &str)
        ensures
            res@ == self.background_color@,
    {
        self.background_color.as_str()
    }

    pub fn is_selected(&self) -> (res: bool)
        ensures
            res == self.selected,
    {
        self.selected
    }

    pub fn set_selected(&mut self, value: bool)
        ensures
            final(self).selected == value,
            final(self).text@ == old(self).text@,
            final(self).cursor_position == old(self).cursor_position,
            final(self).composition_text@ == old(self).composition_text@,
            final(self).hovered == old(self).hovered,
            final(self).color@ == old(self).color@,
            final(self).background_color@ == old(self).background_color@,
            final(self).selected_control_point == old(self).selected_control_point,
    {
        self.selected = value;
    }

    pub fn is_hovered(&self) -> (res: bool)
        ensures
            res == self.hovered,
    {
        self.hovered
    }

    pub fn set_hovered(&mut self, value: bool)
        ensures
            final(self).hovered == value,
            final(self).text@ == old(self).text@,
            final(self).cursor_position == old(self).cursor_position,
            final(self).composition_text@ == old(self).composition_text@,
            final(self).selected == old(self).selected,
            final(self).color@ == old(self).color@,
            final(self).background_color@ == old(self).background_color@,
            final(self).selected_control_point == old(self).selected_control_point,
    {
        self.hovered = value;
    }

    pub fn get_selected_control_point(&self) -> (res: i32)
        ensures
            res == self.selected_control_point,
    {
        self.selected_control_point
    }

    pub fn set_selected_control_point(&mut self, index: i32)
        ensures
            final(self).selected_control_point == index,
            final(self).text@ == old(self).text@,
            final(self).cursor_position == old(self).cursor_position,
            final(self).composition_text@ == old(self).composition_text@,
            final(self).selected == old(self).selected,
            final(self).hovered == old(self).hovered,
            final(self).color@ == old(self).color@,
            final(self).background_color@ == old(self).background_color@,
    {
        self.selected_control_point = index;
    }

    /// The cursor as a character index.
    pub fn get_char_index_at_cursor(&self) -> (res: usize)
        ensures
            res == self.cursor_position,
    {
        self.cursor_position
    }

    /// The cursor as a byte index into the UTF-8 text: the byte length of the
    /// characters before it, or of the whole text when it is past the end.
    pub fn get_byte_index_at_cursor(&self) -> (res: usize)
        ensures
            res == encode_utf8(clamped_prefix(self.text@, self.cursor_position as nat)).len(),
            res <= encode_utf8(self.text@).len(),
    {
        let bytes = self.text.as_str().as_bytes();
        proof {
            vstd::slice::axiom_spec_len(bytes);
        }
        assert(encode_utf8(self.text@).len() <= usize::MAX);
        let t = chars_of(self.text.as_str());
        assert(t@.len() == t.len());
        let n = if self.cursor_position <= t.len() {
            self.cursor_position
        } else {
            t.len()
        };
        proof {
            lemma_encode_utf8_prefix_len(t@, n as int);
            assert(clamped_prefix(self.text@, self.cursor_position as nat) =~= t@.take(n as int));
        }
        utf8_prefix_len(&t, n)
    }

    /// Types `value` at the cursor and moves the cursor past it.
    pub fn insert_at_cursor(&mut self, value: &str)
        requires
            old(self).cursor_position + value@.len() <= usize::MAX,
        ensures
            final(self).text@ == inserted_text(
                old(self).text@,
                old(self).cursor_position as nat,
                value@,
            ),
            final(self).cursor_position == old(self).cursor_position + value@.len(),
            final(self).same_frame(old(self)),
    {
        let t = chars_of(self.text.as_str());
        let v = chars_of(value);
        let c = self.cursor_position;
        let res = splice(&t, c, &v);
        self.text = string_of(&res);
        self.cursor_position = c + v.len();
    }

    /// The text as drawn: the text being composed shown at the cursor.
    pub fn composed_text(&self) -> (res: String)
        ensures
            res@ == inserted_text(self.text@, self.cursor_position as nat, self.composition_text@),
    {
        let t = chars_of(self.text.as_str());
        let v = chars_of(self.composition_text.as_str());
        let res = splice(&t, self.cursor_position, &v);
        string_of(&res)
    }

    /// Removes the character before the cursor and moves the cursor back one.
    pub fn delete_before_cursor(&mut self)
        ensures
            final(self).text@ == deleted_before_text(old(self).text@, old(self).cursor_position as nat),
            final(self).cursor_position == deleted_before_cursor(old(self).cursor_position as nat),
            final(self).same_frame(old(self)),
    {
        if self.cursor_position > 0 {
            let t = chars_of(self.text.as_str());
        assert(t@.len() == t.len());
            let c = self.cursor_position;
            let p = if c <= t.len() {
                c
            } else {
                t.len()
            };
            if p > 0 {
                let res = remove_char(&t, p - 1);
                assert(t@.take(p - 1) + t@.skip(p as int) =~= t@.take(p - 1) + t@.skip(p - 1 + 1));
                self.text = string_of(&res);
            }
            self.cursor_position = c - 1;
        }
    }

    /// Removes the character at the cursor; the cursor stays.
    pub fn delete_at_cursor(&mut self)
        requires
            delete_at_defined(old(self).text@, old(self).cursor_position as nat),
        ensures
            final(self).text@ == deleted_at_text(old(self).text@, old(self).cursor_position as nat),
            final(self).cursor_position == old(self).cursor_position,
            final(self).same_frame(old(self)),
    {
        let t = chars_of(self.text.as_str());
        assert(t@.len() == t.len());
        let c = self.cursor_position;
        if c < t.len() && c + 1 < t.len() {
            let res = remove_char(&t, c);
            self.text = string_of(&res);
        }
    }

    /// Moves the cursor one character back, if it is not at 0.
    pub fn move_cursor_left(&mut self)
        ensures
            final(self).cursor_position == moved_left(old(self).cursor_position as nat),
            final(self).text@ == old(self).text@,
            final(self).same_frame(old(self)),
    {
        if self.cursor_position > 0 {
            self.cursor_position -= 1;
        }
    }

    /// Moves the cursor one character forward, if it is before the end.
    pub fn move_cursor_right(&mut self)
        ensures
            final(self).cursor_position == moved_right(old(self).text@, old(self).cursor_position as nat),
            final(self).text@ == old(self).text@,
            final(self).same_frame(old(self)),
    {
        let n = chars_of(self.text.as_str()).len();
        if self.cursor_position < n {
            self.cursor_position += 1;
        }
    }

    /// The row of the cursor: the number of line feeds before it.
    pub fn get_row_index_at_cursor(&self) -> (res: usize)
        ensures
            res == cursor_row(self.text@, self.cursor_position as nat),
            res < split_lines_spec(self.text@).len(),
    {
        let t = chars_of(self.text.as_str());
        assert(t@.len() == t.len());
        proof {
            lemma_row_in_range(t@, self.cursor_position as nat);
        }
        row_and_col(&t, self.cursor_position).0
    }

    /// The column of the cursor: the number of characters since the last line feed before it.
    pub fn get_column_index_at_cursor(&self) -> (res: usize)
        ensures
            res == cursor_col(self.text@, self.cursor_position as nat),
    {
        let t = chars_of(self.text.as_str());
        assert(t@.len() == t.len());
        row_and_col(&t, self.cursor_position).1
    }

    /// Moves the cursor one line up.
    pub fn move_cursor_up(&mut self)
        ensures
            final(self).cursor_position == moved_up(old(self).text@, old(self).cursor_position as nat),
            final(self).text@ == old(self).text@,
            final(self).same_frame(old(self)),
    {
        if self.cursor_position == 0 {
            return;
        }
        let t = chars_of(self.text.as_str());
        assert(t@.len() == t.len());
        let (row, col) = row_and_col(&t, self.cursor_position);
        proof {
            lemma_row_in_range(t@, self.cursor_position as nat);
        }
        if row > 0 {
            let lens = line_lengths(&t);
            let r = row - 1;
            let l = lens[r];
            let c = if l < col {
                l
            } else {
                col
            };
            let start = line_start_of(&lens, r, Ghost(t@));
            proof {
                lemma_line_bounds(t@, r as nat);
            }
            self.cursor_position = start + c;
        }
    }

    /// Moves the cursor one line down.
    pub fn move_cursor_down(&mut self)
        ensures
            final(self).cursor_position == moved_down(old(self).text@, old(self).cursor_position as nat),
            final(self).text@ == old(self).text@,
            final(self).same_frame(old(self)),
    {
        let t = chars_of(self.text.as_str());
        assert(t@.len() == t.len());
        let (row, col) = row_and_col(&t, self.cursor_position);
        let lens = line_lengths(&t);
        proof {
            lemma_row_in_range(t@, self.cursor_position as nat);
        }
        if row < lens.len() - 1 {
            let r = row + 1;
            let l = lens[r];
            let c = if l < col {
                l
            } else {
                col
            };
            let start = line_start_of(&lens, r, Ghost(t@));
            proof {
                lemma_line_bounds(t@, r as nat);
            }
            self.cursor_position = start + c;
        }
    }

    /// Moves the cursor to the start of its line.
    pub fn move_cursor_to_line_start(&mut self)
        ensures
            final(self).cursor_position == moved_line_start(
                old(self).text@,
                old(self).cursor_position as nat,
            ),
            final(self).text@ == old(self).text@,
            final(self).same_frame(old(self)),
    {
        let t = chars_of(self.text.as_str());
        assert(t@.len() == t.len());
        let (row, _col) = row_and_col(&t, self.cursor_position);
        let lens = line_lengths(&t);
        proof {
            lemma_row_in_range(t@, self.cursor_position as nat);
        }
        self.cursor_position = line_start_of(&lens, row, Ghost(t@));
    }

    /// Moves the cursor to the end of its line.
    pub fn move_cursor_to_line_end(&mut self)
        ensures
            final(self).cursor_position == moved_line_end(
                old(self).text@,
                old(self).cursor_position as nat,
            ),
            final(self).text@ == old(self).text@,
            final(self).same_frame(old(self)),
    {
        let t = chars_of(self.text.as_str());
        assert(t@.len() == t.len());
        let (row, _col) = row_and_col(&t, self.cursor_position);
        let lens = line_lengths(&t);
        proof {
            lemma_row_in_range(t@, self.cursor_position as nat);
            lemma_line_bounds(t@, row as nat);
        }
        let start = line_start_of(&lens, row, Ghost(t@));
        self.cursor_position = start + lens[row];
    }
}

/// The line whose width is the width of the text before a cursor: none when
/// the text ends with a line feed (the width is 0), else its last line.
pub fn width_line(text: &str) -> (res: Option<String>)
    ensures
        (text@.len() > 0 && text@.last() == '\n') ==> res is None,
        !(text@.len() > 0 && text@.last() == '\n') ==> (res matches Some(l) && l@
            == split_lines_spec(text@).last()),
{
    let t = chars_of(text);
    if t.len() > 0 && t[t.len() - 1] == '\n' {
        return None;
    }
    let mut lines = split_lines(text);
    let n = lines.len();
    proof {
        lemma_row_in_range(text@, 0);
    }
    let last = lines.remove(n - 1);
    Some(last)
}

/// A key that the text box reacts to.
#[derive(Debug, Copy, Clone, PartialEq, Eq, Structural)]
pub enum KeyCommand {
    Backspace,
    Delete,
    Enter,
    ArrowLeft,
    ArrowRight,
    ArrowUp,
    ArrowDown,
    Home,
    End,
    Escape,
    Other,
}

/// The command of a `KeyboardEvent.key` value.
pub open spec fn key_command_spec(key: Seq<char>) -> KeyCommand {
    if key == "Backspace"@ {
        KeyCommand::Backspace
    } else if key == "Delete"@ {
        KeyCommand::Delete
    } else if key == "Enter"@ {
        KeyCommand::Enter
    } else if key == "ArrowLeft"@ {
        KeyCommand::ArrowLeft
    } else if key == "ArrowRight"@ {
        KeyCommand::ArrowRight
    } else if key == "ArrowUp"@ {
        KeyCommand::ArrowUp
    } else if key == "ArrowDown"@ {
        KeyCommand::ArrowDown
    } else if key == "Home"@ {
        KeyCommand::Home
    } else if key == "End"@ {
        KeyCommand::End
    } else if key == "Escape"@ {
        KeyCommand::Escape
    } else {
        KeyCommand::Other
    }
}

pub fn key_command(key: &str) -> (res: KeyCommand)
    ensures
        res == key_command_spec(key@),
{
    if str_eq(key, "Backspace") {
        KeyCommand::Backspace
    } else if str_eq(key, "Delete") {
        KeyCommand::Delete
    } else if str_eq(key, "Enter") {
        KeyCommand::Enter
    } else if str_eq(key, "ArrowLeft") {
        KeyCommand::ArrowLeft
    } else if str_eq(key, "ArrowRight") {
        KeyCommand::ArrowRight
    } else if str_eq(key, "ArrowUp") {
        KeyCommand::ArrowUp
    } else if str_eq(key, "ArrowDown") {
        KeyCommand::ArrowDown
    } else if str_eq(key, "Home") {
        KeyCommand::Home
    } else if str_eq(key, "End") {
        KeyCommand::End
    } else if str_eq(key, "Escape") {
        KeyCommand::Escape
    } else {
        KeyCommand::Other
    }
}

/// The text box after `cmd` (Escape and other keys change nothing).
pub open spec fn key_edit(t: Seq<char>, c: nat, cmd: KeyCommand) -> (Seq<char>, nat) {
    match cmd {
        KeyCommand::Backspace => (deleted_before_text(t, c), deleted_before_cursor(c)),
        KeyCommand::Delete => (deleted_at_text(t, c), c),
        KeyCommand::Enter => (inserted_text(t, c, seq!['\n']), c + 1),
        KeyCommand::ArrowLeft => (t, moved_left(c)),
        KeyCommand::ArrowRight => (t, moved_right(t, c)),
        KeyCommand::ArrowUp => (t, moved_up(t, c)),
        KeyCommand::ArrowDown => (t, moved_down(t, c)),
        KeyCommand::Home => (t, moved_line_start(t, c)),
        KeyCommand::End => (t, moved_line_end(t, c)),
        _ => (t, c),
    }
}

/// What the caller has left to do after a key press: nothing (the key was
/// ignored), finish the input (Escape), or resize and redraw after
/// `command` was applied to the text box.
#[derive(Debug, Copy, Clone, PartialEq, Eq, Structural)]
pub enum KeyOutcome {
    Ignored,
    Finish,
    Redraw { command: KeyCommand },
}

/// What is left to do after an input method finishes composing.
#[derive(Debug, Copy, Clone, PartialEq, Eq, Structural)]
pub enum CompositionEndOutcome {
    /// No text box is attached: nothing more.
    Inactive,
    /// The composed text was typed into the text box: resize, redraw, clear the input.
    Inserted,
    /// Nothing was typed: redraw and clear the input.
    NoData,
}

/// The manager's state, as values.
pub struct TextBoxManagerView<A> {
    pub attached: Option<A>,
    pub active_index: Option<usize>,
    pub cursor_visible: bool,
    pub is_composing: bool,
    pub composition_text: Seq<char>,
}

/// Routes keyboard and input-method events to the attached text box and
/// keeps the cursor blink and composition state. `A` is the handle of the
/// attached shape.
pub struct TextBoxManager<A> {
    attached: Option<A>,
    active_index: Option<usize>,
    cursor_visible: bool,
    is_composing: bool,
    composition_text: String,
}

impl<A> View for TextBoxManager<A> {
    type V = TextBoxManagerView<A>;

    closed spec fn view(&self) -> TextBoxManagerView<A> {
        TextBoxManagerView {
            attached: self.attached,
            active_index: self.active_index,
            cursor_visible: self.cursor_visible,
            is_composing: self.is_composing,
            composition_text: self.composition_text@,
        }
    }
}

/// The manager after an input method starts composing.
pub open spec fn composition_started<A>(m: TextBoxManagerView<A>) -> TextBoxManagerView<A> {
    TextBoxManagerView { is_composing: true, composition_text: Seq::<char>::empty(), ..m }
}

/// Typed input goes into the text box: one is attached and no composition
/// is running.
pub open spec fn input_applies<A>(m: TextBoxManagerView<A>) -> bool {
    !m.is_composing && m.attached is Some
}

/// The manager after one blink: the cursor shown if it was hidden and the
/// other way round.
pub open spec fn blinked<A>(m: TextBoxManagerView<A>) -> TextBoxManagerView<A> {
    TextBoxManagerView { cursor_visible: !m.cursor_visible, ..m }
}

/// The text box after a key press: edited when a text box is attached and
/// no composition is running.
pub open spec fn keydown_applies<A>(m: TextBoxManagerView<A>) -> bool {
    !m.is_composing && m.attached is Some
}

impl<A> TextBoxManager<A> {
    /// No text box attached, cursor shown, not composing.
    pub fn new() -> (m: Self)
        ensures
            m@ == (TextBoxManagerView::<A> {
                attached: None,
                active_index: None,
                cursor_visible: true,
                is_composing: false,
                composition_text: Seq::<char>::empty(),
            }),
    {
        Self {
            attached: None,
            active_index: None,
            cursor_visible: true,
            is_composing: false,
            composition_text: String::new(),
        }
    }

    /// Attaches a text box (the caller then focuses the input and redraws).
    pub fn attach(&mut self, attached: A)
        ensures
            final(self)@ == (TextBoxManagerView { attached: Some(attached), ..old(self)@ }),
    {
        self.attached = Some(attached);
    }

    /// Detaches the text box.
    pub fn detach(&mut self)
        ensures
            final(self)@ == (TextBoxManagerView::<A> { attached: None, ..old(self)@ }),
    {
        self.attached = None;
    }

    /// Whether a text box is attached.
    pub fn is_active(&self) -> (res: bool)
        ensures
            res == self@.attached is Some,
    {
        self.attached.is_some()
    }

    /// The attached text box, if any.
    pub fn attached(&self) -> (res: Option<&A>)
        ensures
            res matches Some(a) ==> self@.attached == Some(*a),
            res is None <==> self@.attached is None,
    {
        match &self.attached {
            Some(a) => Some(a),
            None => None,
        }
    }

    /// Whether the cursor is currently shown.
    pub fn cursor_visible(&self) -> (res: bool)
        ensures
            res == self@.cursor_visible,
    {
        self.cursor_visible
    }

    /// Whether an input method is composing.
    pub fn is_composing(&self) -> (res: bool)
        ensures
            res == self@.is_composing,
    {
        self.is_composing
    }

    /// Ends the input: detaches the text box (the caller clears the input and redraws).
    pub fn finish_input(&mut self)
        ensures
            final(self)@ == (TextBoxManagerView::<A> { attached: None, ..old(self)@ }),
    {
        self.detach();
    }

    /// An input method starts composing.
    pub fn on_composition_start(&mut self)
        ensures
            final(self)@ == composition_started(old(self)@),
    {
        self.is_composing = true;
        self.composition_text = String::new();
    }

    /// The input method shows `data` as the text being composed; the text box
    /// `tb` is the attached one. Returns whether to redraw: not when no text
    /// box is attached.
    pub fn on_composition_update(&mut self, data: &str, tb: &mut TextBox) -> (redraw: bool)
        ensures
            redraw == (old(self)@.attached is Some),
            redraw ==> final(self)@ == (TextBoxManagerView::<A> {
                composition_text: data@,
                ..old(self)@
            }),
            redraw ==> final(tb).composition_text@ == data@,
            !redraw ==> final(self)@ == old(self)@,
            !redraw ==> final(tb).composition_text@ == old(tb).composition_text@,
            final(tb).text@ == old(tb).text@,
            final(tb).cursor_position == old(tb).cursor_position,
    {
        if !self.is_active() {
            return false;
        }
        self.composition_text = String::from_str(data);
        tb.composition_text = String::from_str(data);
        true
    }

    /// The input method finishes with the composed `data`; the text box `tb`
    /// is the attached one.
    pub fn on_composition_end(&mut self, data: Option<&str>, tb: &mut TextBox) -> (res:
        CompositionEndOutcome)
        requires
            old(self)@.attached is Some ==> (data matches Some(d) ==> old(tb).cursor_position
                + d@.len() <= usize::MAX),
        ensures
            final(self)@ == (TextBoxManagerView::<A> { is_composing: false, ..old(self)@ }),
            res == (if old(self)@.attached is None {
                CompositionEndOutcome::Inactive
            } else if data is Some {
                CompositionEndOutcome::Inserted
            } else {
                CompositionEndOutcome::NoData
            }),
            res == CompositionEndOutcome::Inserted ==> {
                &&& final(tb).text@ == inserted_text(
                    old(tb).text@,
                    old(tb).cursor_position as nat,
                    data.unwrap()@,
                )
                &&& final(tb).cursor_position == old(tb).cursor_position + data.unwrap()@.len()
                &&& final(tb).composition_text@ == Seq::<char>::empty()
            },
            res != CompositionEndOutcome::Inserted ==> final(tb).text@ == old(tb).text@
                && final(tb).cursor_position == old(tb).cursor_position
                && final(tb).composition_text@ == old(tb).composition_text@,
    {
        self.is_composing = false;
        if !self.is_active() {
            return CompositionEndOutcome::Inactive;
        }
        match data {
            Some(d) => {
                tb.insert_at_cursor(d);
                tb.composition_text = String::new();
                CompositionEndOutcome::Inserted
            },
            None => CompositionEndOutcome::NoData,
        }
    }

    /// Typed input `data` (no data types nothing); ignored while composing or
    /// with no text box attached. Returns whether the text box took the input.
    pub fn on_input(&mut self, data: Option<&str>, tb: &mut TextBox) -> (taken: bool)
        requires
            input_applies(old(self)@) ==> (data matches Some(d) ==> old(tb).cursor_position
                + d@.len() <= usize::MAX),
        ensures
            final(self)@ == old(self)@,
            taken == input_applies(old(self)@),
            taken ==> final(tb).text@ == inserted_text(
                old(tb).text@,
                old(tb).cursor_position as nat,
                match data {
                    Some(d) => d@,
                    None => Seq::<char>::empty(),
                },
            ),
            taken ==> final(tb).cursor_position == old(tb).cursor_position + match data {
                Some(d) => d@.len(),
                None => 0,
            },
            !taken ==> final(tb).text@ == old(tb).text@ && final(tb).cursor_position
                == old(tb).cursor_position,
            final(tb).composition_text@ == old(tb).composition_text@,
    {
        if self.is_composing || !self.is_active() {
            return false;
        }
        match data {
            Some(d) => tb.insert_at_cursor(d),
            None => {
                proof {
                    reveal_strlit("");
                }
                tb.insert_at_cursor("")
            },
        }
        true
    }

    /// A key press for the attached text box `tb`: edits the text or moves
    /// the cursor; ignored while composing or with no text box attached.
    pub fn on_keydown(&mut self, key: &str, tb: &mut TextBox) -> (res: KeyOutcome)
        requires
            keydown_applies(old(self)@) && key_command_spec(key@) == KeyCommand::Delete
                ==> delete_at_defined(old(tb).text@, old(tb).cursor_position as nat),
            keydown_applies(old(self)@) && key_command_spec(key@) == KeyCommand::Enter
                ==> old(tb).cursor_position + 1 <= usize::MAX,
        ensures
            final(self)@ == old(self)@,
            !keydown_applies(old(self)@) ==> res == KeyOutcome::Ignored,
            keydown_applies(old(self)@) && key_command_spec(key@) == KeyCommand::Escape ==> res
                == KeyOutcome::Finish,
            keydown_applies(old(self)@) && key_command_spec(key@) != KeyCommand::Escape ==> res
                == (KeyOutcome::Redraw { command: key_command_spec(key@) }),
            keydown_applies(old(self)@) ==> (final(tb).text@, final(tb).cursor_position as nat)
                == key_edit(old(tb).text@, old(tb).cursor_position as nat, key_command_spec(key@)),
            !keydown_applies(old(self)@) ==> final(tb).text@ == old(tb).text@
                && final(tb).cursor_position == old(tb).cursor_position,
            final(tb).composition_text@ == old(tb).composition_text@,
    {
        if self.is_composing || !self.is_active() {
            return KeyOutcome::Ignored;
        }
        let cmd = key_command(key);
        match cmd {
            KeyCommand::Backspace => tb.delete_before_cursor(),
            KeyCommand::Delete => tb.delete_at_cursor(),
            KeyCommand::Enter => {
                proof {
                    reveal_strlit("\n");
                }
                tb.insert_at_cursor("\n")
            },
            KeyCommand::ArrowLeft => tb.move_cursor_left(),
            KeyCommand::ArrowRight => tb.move_cursor_right(),
            KeyCommand::ArrowUp => tb.move_cursor_up(),
            KeyCommand::ArrowDown => tb.move_cursor_down(),
            KeyCommand::Home => tb.move_cursor_to_line_start(),
            KeyCommand::End => tb.move_cursor_to_line_end(),
            KeyCommand::Escape => {
                return KeyOutcome::Finish;
            },
            KeyCommand::Other => {},
        }
        KeyOutcome::Redraw { command: cmd }
    }

    /// The cursor blinks: its visibility flips while a text box is attached.
    /// Returns whether to redraw.
    pub fn toggle_cursor(&mut self) -> (redraw: bool)
        ensures
            redraw == (old(self)@.attached is Some),
            redraw ==> final(self)@ == blinked(old(self)@),
            !redraw ==> final(self)@ == old(self)@,
    {
        if !self.is_active() {
            return false;
        }
        self.cursor_visible = !self.cursor_visible;
        true
    }
}

/// Two blinks of the cursor leave the manager as it was.
pub proof fn lemma_blink_twice<A>(m: TextBoxManagerView<A>)
    ensures
        blinked(blinked(m)) == m,
{
}

/// Typing a character and then pressing Backspace gives back the text and
/// the cursor (past the end, the character is typed at the end and
/// Backspace removes it there).
pub proof fn lemma_type_then_backspace(t: Seq<char>, c: nat, x: char)
    ensures
        deleted_before_text(inserted_text(t, c, seq![x]), c + 1) == t,
        deleted_before_cursor(c + 1) == c,
{
    let u = inserted_text(t, c, seq![x]);
    if c <= t.len() {
        assert(u.take(c as int) =~= t.take(c as int));
        assert(u.skip(c + 1 as int) =~= t.skip(c as int));
        assert(t.take(c as int) + t.skip(c as int) =~= t);
    } else {
        assert(u.take(t.len() as int) =~= t);
        assert(u.skip(t.len() + 1 as int) =~= Seq::<char>::empty());
        assert(t + Seq::<char>::empty() =~= t);
    }
}

/// The text and cursor after `k` presses of Backspace.
pub open spec fn backspaced(t: Seq<char>, c: nat, k: nat) -> (Seq<char>, nat)
    decreases k,
{
    if k == 0 {
        (t, c)
    } else {
        let (t1, c1) = backspaced(t, c, (k - 1) as nat);
        (deleted_before_text(t1, c1), deleted_before_cursor(c1))
    }
}

/// Backspace right after typing `w` removes the last typed character.
proof fn lemma_backspace_after_typing(t: Seq<char>, c: nat, w: Seq<char>)
    requires
        w.len() > 0,
    ensures
        deleted_before_text(inserted_text(t, c, w), c + w.len()) == inserted_text(t, c, w.drop_last()),
        deleted_before_cursor(c + w.len()) == c + w.len() - 1,
{
    let u = inserted_text(t, c, w);
    if c <= t.len() {
        let p = c + w.len();
        assert(u.take(p - 1) =~= t.take(c as int) + w.drop_last());
        assert(u.skip(p as int) =~= t.skip(c as int));
    } else {
        let n = u.len();
        assert(u.take(n - 1) =~= t + w.drop_last());
        assert(u.skip(n as int) =~= Seq::<char>::empty());
        assert(t + w.drop_last() + Seq::<char>::empty() =~= t + w.drop_last());
    }
}

/// `j` Backspaces after typing `v` leave the first `|v| - j` typed characters.
proof fn lemma_backspaces_partial(t: Seq<char>, c: nat, v: Seq<char>, j: nat)
    requires
        j <= v.len(),
    ensures
        backspaced(inserted_text(t, c, v), c + v.len(), j) == (
            inserted_text(t, c, v.take(v.len() - j)),
            (c + v.len() - j) as nat,
        ),
    decreases j,
{
    if j == 0 {
        assert(v.take(v.len() as int) =~= v);
    } else {
        lemma_backspaces_partial(t, c, v, (j - 1) as nat);
        let w = v.take(v.len() - j + 1);
        assert(w.len() == v.len() - j + 1);
        lemma_backspace_after_typing(t, c, w);
        assert(w.drop_last() =~= v.take(v.len() - j));
    }
}

/// Typing a text and then pressing Backspace once per typed character gives
/// back the text and the cursor; Backspace at position 0 changes nothing.
pub proof fn lemma_type_then_backspaces(t: Seq<char>, c: nat, v: Seq<char>)
    ensures
        backspaced(inserted_text(t, c, v), c + v.len(), v.len()) == (t, c),
        deleted_before_text(t, 0) == t,
        deleted_before_cursor(0) == 0,
{
    lemma_backspaces_partial(t, c, v, v.len());
    let e = v.take(0);
    assert(e =~= Seq::<char>::empty());
    if c <= t.len() {
        assert(t.take(c as int) + e + t.skip(c as int) =~= t);
    } else {
        assert(t + e =~= t);
    }
}

/// Each named key does the edit it is named for, at a cursor inside a text
/// without carriage returns: Backspace removes the character before the
/// cursor, Delete the one at it, Enter types a line feed, the arrows move one
/// character or one row, Home goes to column 0 and End to the last column of
/// the cursor's row, and Escape changes nothing.
pub proof fn lemma_named_keys_edit(t: Seq<char>, c: nat)
    requires
        c <= t.len(),
        has_no_cr(t),
    ensures
        c > 0 ==> key_edit(t, c, key_command_spec("Backspace"@)) == (
            t.take(c - 1) + t.skip(c as int),
            (c - 1) as nat,
        ),
        c + 1 < t.len() ==> key_edit(t, c, key_command_spec("Delete"@)) == (
            t.take(c as int) + t.skip(c + 1 as int),
            c,
        ),
        key_edit(t, c, key_command_spec("Enter"@)) == (
            t.take(c as int) + seq!['\n'] + t.skip(c as int),
            c + 1,
        ),
        c > 0 ==> key_edit(t, c, key_command_spec("ArrowLeft"@)) == (t, (c - 1) as nat),
        c < t.len() ==> key_edit(t, c, key_command_spec("ArrowRight"@)) == (t, c + 1),
        cursor_row(t, c) > 0 ==> key_edit(t, c, key_command_spec("ArrowUp"@)).0 == t
            && cursor_row(t, key_edit(t, c, key_command_spec("ArrowUp"@)).1) == cursor_row(t, c)
            - 1,
        cursor_row(t, c) + 1 < split_lines_spec(t).len() ==> key_edit(
            t,
            c,
            key_command_spec("ArrowDown"@),
        ).0 == t && cursor_row(t, key_edit(t, c, key_command_spec("ArrowDown"@)).1) == cursor_row(
            t,
            c,
        ) + 1,
        key_edit(t, c, key_command_spec("Home"@)).0 == t,
        cursor_row(t, key_edit(t, c, key_command_spec("Home"@)).1) == cursor_row(t, c),
        cursor_col(t, key_edit(t, c, key_command_spec("Home"@)).1) == 0,
        key_edit(t, c, key_command_spec("End"@)).0 == t,
        cursor_row(t, key_edit(t, c, key_command_spec("End"@)).1) == cursor_row(t, c),
        cursor_col(t, key_edit(t, c, key_command_spec("End"@)).1) == split_lines_spec(t)[cursor_row(
            t,
            c,
        ) as int].len(),
        key_edit(t, c, key_command_spec("Escape"@)) == (t, c),
{
    reveal_strlit("Backspace");
    reveal_strlit("Delete");
    reveal_strlit("Enter");
    reveal_strlit("ArrowLeft");
    reveal_strlit("ArrowRight");
    reveal_strlit("ArrowUp");
    reveal_strlit("ArrowDown");
    reveal_strlit("Home");
    reveal_strlit("End");
    reveal_strlit("Escape");
    lemma_home_end_stay_on_row(t, c);
    lemma_up_down_keep_column(t, c);
    assert("Backspace"@.len() == 9 && "Backspace"@[0] == 'B');
    assert("Delete"@.len() == 6 && "Delete"@[0] == 'D');
    assert("Enter"@.len() == 5);
    assert("ArrowLeft"@.len() == 9 && "ArrowLeft"@[5] == 'L');
    assert("ArrowRight"@.len() == 10);
    assert("ArrowUp"@.len() == 7);
    assert("ArrowDown"@.len() == 9 && "ArrowDown"@[5] == 'D');
    assert("Home"@.len() == 4);
    assert("End"@.len() == 3);
    assert("Escape"@.len() == 6 && "Escape"@[0] == 'E');
    if c + 1 < t.len() {
        assert(deleted_at_text(t, c) =~= t.take(c as int) + t.skip(c + 1 as int));
    }
    assert(inserted_text(t, c, seq!['\n']) =~= t.take(c as int) + seq!['\n'] + t.skip(c as int));
    if cursor_row(t, c) > 0 {
        assert(c > 0) by {
            if c == 0 {
                assert(clamped_prefix(t, c) =~= Seq::<char>::empty());
            }
        }
    }
}

/// A key that is none of the named editing keys leaves the text and the
/// cursor as they are.
pub proof fn lemma_other_keys_ignored(t: Seq<char>, c: nat, key: Seq<char>)
    requires
        key != "Backspace"@,
        key != "Delete"@,
        key != "Enter"@,
        key != "ArrowLeft"@,
        key != "ArrowRight"@,
        key != "ArrowUp"@,
        key != "ArrowDown"@,
        key != "Home"@,
        key != "End"@,
        key != "Escape"@,
    ensures
        key_edit(t, c, key_command_spec(key)) == (t, c),
{
}

/// Once an input method starts composing, typed input and key presses leave
/// the text box alone until the composition ends; the attached text box
/// stays attached.
pub proof fn lemma_composition_holds_edits<A>(m: TextBoxManagerView<A>)
    ensures
        composition_started(m).is_composing,
        composition_started(m).composition_text == Seq::<char>::empty(),
        composition_started(m).attached == m.attached,
        !input_applies(composition_started(m)),
        !keydown_applies(composition_started(m)),
{
}

/// Moving left and then right, or right and then left, comes back to the
/// same position when the first move was possible.
pub proof fn lemma_left_right_inverse(t: Seq<char>, c: nat)
    ensures
        0 < c <= t.len() ==> moved_right(t, moved_left(c)) == c,
        c < t.len() ==> moved_left(moved_right(t, c)) == c,
{
}

/// Every edit and every cursor move keeps a cursor that is inside the text
/// inside the text.
pub proof fn lemma_edits_keep_cursor_in_text(t: Seq<char>, c: nat, v: Seq<char>)
    requires
        c <= t.len(),
    ensures
        c + v.len() <= inserted_text(t, c, v).len(),
        deleted_before_cursor(c) <= deleted_before_text(t, c).len(),
        c <= deleted_at_text(t, c).len() || !delete_at_defined(t, c),
        moved_left(c) <= t.len(),
        moved_right(t, c) <= t.len(),
        moved_up(t, c) <= t.len(),
        moved_down(t, c) <= t.len(),
        moved_line_start(t, c) <= t.len(),
        moved_line_end(t, c) <= t.len(),
{
    let lines = split_lines_spec(t);
    let r = cursor_row(t, c);
    lemma_row_in_range(t, c);
    lemma_line_bounds(t, r);
    if r > 0 {
        lemma_line_bounds(t, (r - 1) as nat);
    }
    if r + 1 < lines.len() {
        lemma_line_bounds(t, r + 1);
    }
}

/// Enter starts a new line: after typing a line feed, the cursor is on the
/// next row, at column 0.
pub proof fn lemma_enter_starts_new_line(t: Seq<char>, c: nat)
    ensures
        cursor_row(inserted_text(t, c, seq!['\n']), c + 1) == cursor_row(t, c) + 1,
        cursor_col(inserted_text(t, c, seq!['\n']), c + 1) == 0,
{
    let u = inserted_text(t, c, seq!['\n']);
    let p = clamped_prefix(u, c + 1);
    assert(p.drop_last() =~= clamped_prefix(t, c));
    assert(p.last() == '\n');
    assert(segments(p) == segments(clamped_prefix(t, c)).push(Seq::<char>::empty()));
    lemma_segments_len(clamped_prefix(t, c));
}

/// In an ASCII text the byte index of the cursor is its character index
/// (the text length when the cursor is past the end).
pub proof fn lemma_ascii_byte_index(t: Seq<char>, c: nat)
    requires
        forall|i: int| 0 <= i < t.len() ==> (t[i] as u32) < 0x80,
    ensures
        encode_utf8(clamped_prefix(t, c)).len() == if c <= t.len() {
            c
        } else {
            t.len()
        },
{
    lemma_ascii_utf8_len(clamped_prefix(t, c));
}

/// The text holds no carriage return.
pub open spec fn has_no_cr(t: Seq<char>) -> bool {
    forall|i: int| 0 <= i < t.len() ==> t[i] != '\r'
}

/// Row and column of the position at column `k` of line `r`.
proof fn lemma_row_col_at(t: Seq<char>, r: nat, k: nat)
    requires
        has_no_cr(t),
        r < split_lines_spec(t).len(),
        k <= split_lines_spec(t)[r as int].len(),
    ensures
        line_start(split_lines_spec(t), r) + k <= t.len(),
        cursor_row(t, line_start(split_lines_spec(t), r) + k) == r,
        cursor_col(t, line_start(split_lines_spec(t), r) + k) == k,
{
    lemma_lines_without_cr(t, r);
    lemma_segment_bounds(t, r);
    lemma_position_in_piece(t, r, k);
    let p = line_start(split_lines_spec(t), r) + k;
    assert(clamped_prefix(t, p) == t.take(p as int));
}

/// In a text without carriage returns, Home moves the cursor to column 0 of
/// its row and End to the last column of its row; Home twice is Home once.
pub proof fn lemma_home_end_stay_on_row(t: Seq<char>, c: nat)
    requires
        has_no_cr(t),
    ensures
        cursor_row(t, moved_line_start(t, c)) == cursor_row(t, c),
        cursor_col(t, moved_line_start(t, c)) == 0,
        moved_line_start(t, moved_line_start(t, c)) == moved_line_start(t, c),
        cursor_row(t, moved_line_end(t, c)) == cursor_row(t, c),
        cursor_col(t, moved_line_end(t, c)) == split_lines_spec(t)[cursor_row(t, c) as int].len(),
{
    let r = cursor_row(t, c);
    lemma_row_in_range(t, c);
    lemma_row_col_at(t, r, 0);
    lemma_row_col_at(t, r, split_lines_spec(t)[r as int].len());
}

/// In a text without carriage returns, moving up or down changes the row by
/// one and keeps the column, clamped to the length of the new line.
pub proof fn lemma_up_down_keep_column(t: Seq<char>, c: nat)
    requires
        has_no_cr(t),
    ensures
        c > 0 && cursor_row(t, c) > 0 ==> {
            let l = split_lines_spec(t)[cursor_row(t, c) - 1].len();
            &&& cursor_row(t, moved_up(t, c)) == cursor_row(t, c) - 1
            &&& cursor_col(t, moved_up(t, c)) == if l < cursor_col(t, c) {
                l
            } else {
                cursor_col(t, c)
            }
        },
        cursor_row(t, c) + 1 < split_lines_spec(t).len() ==> {
            let l = split_lines_spec(t)[cursor_row(t, c) + 1 as int].len();
            &&& cursor_row(t, moved_down(t, c)) == cursor_row(t, c) + 1
            &&& cursor_col(t, moved_down(t, c)) == if l < cursor_col(t, c) {
                l
            } else {
                cursor_col(t, c)
            }
        },
{
    let r = cursor_row(t, c);
    let col = cursor_col(t, c);
    let lines = split_lines_spec(t);
    lemma_row_in_range(t, c);
    if c > 0 && r > 0 {
        let l = lines[r - 1].len();
        lemma_row_col_at(t, (r - 1) as nat, if l < col { l } else { col });
    }
    if r + 1 < lines.len() {
        let l = lines[r + 1 as int].len();
        lemma_row_col_at(t, r + 1, if l < col { l } else { col });
    }
}

/// `v` put into `t` at position `c` (at the end when `c` is past it).
fn splice(t: &Vec<char>, c: usize, v: &Vec<char>) -> (res: Vec<char>)
    ensures
        res@ == inserted_text(t@, c as nat, v@),
{
    let mut res: Vec<char> = Vec::new();
    let p = if c <= t.len() {
        c
    } else {
        t.len()
    };
    let mut i: usize = 0;
    while i < p
        invariant
            p <= t@.len(),
            i <= p,
            res@ == t@.take(i as int),
        decreases p - i,
    {
        res.push(t[i]);
        assert(t@.take(i as int).push(t@[i as int]) =~= t@.take(i + 1));
        i += 1;
    }
    let mut j: usize = 0;
    while j < v.len()
        invariant
            j <= v@.len(),
            res@ == t@.take(p as int) + v@.take(j as int),
        decreases v.len() - j,
    {
        res.push(v[j]);
        assert((t@.take(p as int) + v@.take(j as int)).push(v@[j as int]) =~= t@.take(p as int)
            + v@.take(j + 1));
        j += 1;
    }
    let mut k: usize = p;
    while k < t.len()
        invariant
            p <= k <= t@.len(),
            res@ == t@.take(p as int) + v@ + t@.subrange(p as int, k as int),
        decreases t.len() - k,
    {
        res.push(t[k]);
        assert((t@.take(p as int) + v@ + t@.subrange(p as int, k as int)).push(t@[k as int])
            =~= t@.take(p as int) + v@ + t@.subrange(p as int, k + 1));
        k += 1;
    }
    assert(v@.take(v@.len() as int) =~= v@);
    assert(t@.subrange(p as int, t@.len() as int) =~= t@.skip(p as int));
    assert(c > t@.len() ==> t@.take(p as int) =~= t@ && t@.skip(p as int) =~= Seq::<char>::empty());
    assert(c > t@.len() ==> t@.take(p as int) + v@ + t@.skip(p as int) =~= t@ + v@);
    res
}

/// `t` without its character at `k`.
fn remove_char(t: &Vec<char>, k: usize) -> (res: Vec<char>)
    requires
        k < t@.len(),
    ensures
        res@ == t@.take(k as int) + t@.skip(k + 1),
{
    let mut res: Vec<char> = Vec::new();
    let mut i: usize = 0;
    while i < t.len()
        invariant
            k < t@.len(),
            i <= t@.len(),
            res@ == (if i <= k {
                t@.take(i as int)
            } else {
                t@.take(k as int) + t@.subrange(k + 1, i as int)
            }),
        decreases t.len() - i,
    {
        if i != k {
            res.push(t[i]);
        }
        proof {
            if i < k {
                assert(t@.take(i as int).push(t@[i as int]) =~= t@.take(i + 1));
            } else if i == k {
                assert(t@.take(k as int) + t@.subrange(k + 1, k + 1) =~= t@.take(k as int));
            } else {
                assert((t@.take(k as int) + t@.subrange(k + 1, i as int)).push(t@[i as int])
                    =~= t@.take(k as int) + t@.subrange(k + 1, i + 1));
            }
        }
        i += 1;
    }
    assert(t@.subrange(k + 1, t@.len() as int) =~= t@.skip(k + 1));
    res
}

} // verus!
