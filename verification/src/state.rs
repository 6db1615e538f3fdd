//! The editor's modes and its non-geometric settings.
use vstd::prelude::*;

verus! {

/// What a mouse press on the canvas does.
#[derive(Debug, Copy, Clone, PartialEq, Eq, Structural)]
pub enum ActionMode {
    Selection,
    Eraser,
    Drawing,
}

/// Which shape the drawing mode draws.
#[derive(Debug, Copy, Clone, PartialEq, Eq, Structural)]
pub enum DrawingMode {
    Pencil,
    Line,
    Rectangle,
    Polyline,
    Ellipse,
    EllipticalArc,
    CubicBez,
    Text,
}

pub open spec fn action_mode_label(m: ActionMode) -> Seq<char> {
    match m {
        ActionMode::Selection => "Selection Mode"@,
        ActionMode::Eraser => "Eraser Mode"@,
        ActionMode::Drawing => "Drawing Mode"@,
    }
}

pub open spec fn drawing_mode_label(m: DrawingMode) -> Seq<char> {
    match m {
        DrawingMode::Pencil => "Pencil Mode"@,
        DrawingMode::Line => "Line Mode"@,
        DrawingMode::Rectangle => "Rectangle Mode"@,
        DrawingMode::Polyline => "Polyline Mode"@,
        DrawingMode::Ellipse => "Ellipse Mode"@,
        DrawingMode::EllipticalArc => "EllipticalArc Mode"@,
        DrawingMode::CubicBez => "CubicBez Mode"@,
        DrawingMode::Text => "Text Mode"@,
    }
}

impl ActionMode {
    /// The mode's name as shown to the user.
    pub fn label(&self) -> (s: String)
        ensures
            s@ == action_mode_label(*self),
    {
        match self {
            ActionMode::Selection => String::from_str("Selection Mode"),
            ActionMode::Eraser => String::from_str("Eraser Mode"),
            ActionMode::Drawing => String::from_str("Drawing Mode"),
        }
    }
}

impl DrawingMode {
    /// The mode's name as shown to the user.
    pub fn label(&self) -> (s: String)
        ensures
            s@ == drawing_mode_label(*self),
    {
        match self {
            DrawingMode::Pencil => String::from_str("Pencil Mode"),
            DrawingMode::Line => String::from_str("Line Mode"),
            DrawingMode::Rectangle => String::from_str("Rectangle Mode"),
            DrawingMode::Polyline => String::from_str("Polyline Mode"),
            DrawingMode::Ellipse => String::from_str("Ellipse Mode"),
            DrawingMode::EllipticalArc => String::from_str("EllipticalArc Mode"),
            DrawingMode::CubicBez => String::from_str("CubicBez Mode"),
            DrawingMode::Text => String::from_str("Text Mode"),
        }
    }
}

/// The settings of the editor, as values.
pub struct StateView {
    pub is_panning: bool,
    pub action_mode: ActionMode,
    pub drawing_mode: DrawingMode,
    pub color: Seq<char>,
    pub background: Option<Seq<char>>,
    pub fill_color: Seq<char>,
    /// Shape index and control point index.
    pub selected_control_point: Option<(i32, i32)>,
}

pub open spec fn option_string_view(o: Option<String>) -> Option<Seq<char>> {
    match o {
        Some(s) => Some(s@),
        None => None,
    }
}

/// The editor's settings that are not geometry: panning, the modes, the
/// stroke color, the optional background (fill) color, the canvas fill color
/// and the selected control point.
#[derive(Debug)]
pub struct State {
    is_panning: bool,
    action_mode: ActionMode,
    drawing_mode: DrawingMode,
    color: String,
    background: Option<String>,
    fill_color: String,
    selected_control_point: Option<(i32, i32)>,
}

impl View for State {
    type V = StateView;

    closed spec fn view(&self) -> StateView {
        StateView {
            is_panning: self.is_panning,
            action_mode: self.action_mode,
            drawing_mode: self.drawing_mode,
            color: self.color@,
            background: option_string_view(self.background),
            fill_color: self.fill_color@,
            selected_control_point: self.selected_control_point,
        }
    }
}

fn clone_option_string(o: &Option<String>) -> (res: Option<String>)
    ensures
        option_string_view(res) == option_string_view(*o),
{
    match o {
        Some(s) => Some(s.clone()),
        None => None,
    }
}

impl State {
    /// The start-up settings: drawing cubic Béziers in `color`, not panning,
    /// no background, a white canvas, no control point selected.
    pub fn new(color: String) -> (s: Self)
        ensures
            s@ == (StateView {
                is_panning: false,
                action_mode: ActionMode::Drawing,
                drawing_mode: DrawingMode::CubicBez,
                color: color@,
                background: None,
                fill_color: "#ffffff"@,
                selected_control_point: None,
            }),
    {
        State {
            is_panning: false,
            action_mode: ActionMode::Drawing,
            drawing_mode: DrawingMode::CubicBez,
            color: color,
            background: None,
            fill_color: String::from_str("#ffffff"),
            selected_control_point: None,
        }
    }

    pub fn fill_color(&self) -> (res: &str)
        ensures
            res@ == self@.fill_color,
    {
        self.fill_color.as_str()
    }

    pub fn color(&self) -> (res: &str)
        ensures
            res@ == self@.color,
    {
        self.color.as_str()
    }

    pub fn set_color(&mut self, value: &String)
        ensures
            final(self)@ == (StateView { color: value@, ..old(self)@ }),
    {
        self.color = value.clone();
    }

    pub fn background(&self) -> (res: Option<String>)
        ensures
            option_string_view(res) == self@.background,
    {
        clone_option_string(&self.background)
    }

    pub fn set_background(&mut self, value: Option<String>)
        ensures
            final(self)@ == (StateView { background: option_string_view(value), ..old(self)@ }),
    {
        self.background = value;
    }

    pub fn is_panning(&self) -> (res: bool)
        ensures
            res == self@.is_panning,
    {
        self.is_panning
    }

    pub fn set_is_panning(&mut self, value: &bool)
        ensures
            final(self)@ == (StateView { is_panning: *value, ..old(self)@ }),
    {
        self.is_panning = *value;
    }

    pub fn action_mode(&self) -> (res: ActionMode)
        ensures
            res == self@.action_mode,
    {
        self.action_mode
    }

    pub fn set_action_mode(&mut self, value: &ActionMode)
        ensures
            final(self)@ == (StateView { action_mode: *value, ..old(self)@ }),
    {
        self.action_mode = *value;
    }

    pub fn drawing_mode(&self) -> (res: DrawingMode)
        ensures
            res == self@.drawing_mode,
    {
        self.drawing_mode
    }

    pub fn set_drawing_mode(&mut self, value: &DrawingMode)
        ensures
            final(self)@ == (StateView { drawing_mode: *value, ..old(self)@ }),
    {
        self.drawing_mode = *value;
    }

    pub fn selected_control_point(&self) -> (res: Option<(i32, i32)>)
        ensures
            res == self@.selected_control_point,
    {
        self.selected_control_point
    }

    pub fn set_selected_control_point(&mut self, value: Option<(i32, i32)>)
        ensures
            final(self)@ == (StateView { selected_control_point: value, ..old(self)@ }),
    {
        self.selected_control_point = value;
    }
}

impl Clone for State {
    fn clone(&self) -> (res: Self)
        ensures
            res@ == self@,
    {
        State {
            is_panning: self.is_panning,
            action_mode: self.action_mode,
            drawing_mode: self.drawing_mode,
            color: self.color.clone(),
            background: clone_option_string(&self.background),
            fill_color: self.fill_color.clone(),
            selected_control_point: self.selected_control_point,
        }
    }
}

} // verus!
