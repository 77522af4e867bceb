//! The graphics state a content stream is replayed under.

use vstd::prelude::*;
use crate::color::{spec_device_gray, spec_gray_tag, device_gray, gray_tag};
use crate::bytes::clone_bytes;

verus! {

/// The mutable drawing context: current colors and color spaces, line and
/// border widths, the path cursor, and the active font.  Saved and restored
/// as a whole by the save/restore operators.
pub struct GraphicsState {
    pub stroke_color: Vec<u8>,
    pub fill_color: Vec<u8>,
    pub line_width: i64,
    pub border_width: i64,
    pub current_x: i64,
    pub current_y: i64,
    pub stroke_color_space: Vec<u8>,
    pub fill_color_space: Vec<u8>,
    pub current_font_name: Option<Vec<u8>>,
}

/// Model of a graphics state.
pub struct GsV {
    pub stroke_color: Seq<u8>,
    pub fill_color: Seq<u8>,
    pub line_width: int,
    pub border_width: int,
    pub current_x: int,
    pub current_y: int,
    pub stroke_color_space: Seq<u8>,
    pub fill_color_space: Seq<u8>,
    pub current_font_name: Option<Seq<u8>>,
}

/// The view of an optional byte string.
pub open spec fn opt_bytes_view(o: Option<Vec<u8>>) -> Option<Seq<u8>> {
    match o {
        Some(v) => Some(v@),
        None => None,
    }
}

impl View for GraphicsState {
    type V = GsV;

    open spec fn view(&self) -> GsV {
        GsV {
            stroke_color: self.stroke_color@,
            fill_color: self.fill_color@,
            line_width: self.line_width as int,
            border_width: self.border_width as int,
            current_x: self.current_x as int,
            current_y: self.current_y as int,
            stroke_color_space: self.stroke_color_space@,
            fill_color_space: self.fill_color_space@,
            current_font_name: opt_bytes_view(self.current_font_name),
        }
    }
}

/// The state a content stream starts in: gray colors in the default gray
/// space, unit widths, the cursor at the origin, no font.
pub open spec fn spec_initial_state() -> GsV {
    GsV {
        stroke_color: spec_gray_tag(0),
        fill_color: spec_gray_tag(0),
        line_width: 1000,
        border_width: 1000,
        current_x: 0,
        current_y: 0,
        stroke_color_space: spec_device_gray(),
        fill_color_space: spec_device_gray(),
        current_font_name: None,
    }
}

impl Default for GraphicsState {
    /// Builds the initial graphics state.
    fn default() -> (r: GraphicsState)
        ensures
            r@ == spec_initial_state(),
    {
        GraphicsState {
            stroke_color: gray_tag(0),
            fill_color: gray_tag(0),
            line_width: 1000,
            border_width: 1000,
            current_x: 0,
            current_y: 0,
            stroke_color_space: device_gray(),
            fill_color_space: device_gray(),
            current_font_name: None,
        }
    }
}

impl Clone for GraphicsState {
    /// A deep copy with the same model, what the save operator pushes.
    fn clone(&self) -> (r: GraphicsState)
        ensures
            r@ == self@,
    {
        GraphicsState {
            stroke_color: clone_bytes(&self.stroke_color),
            fill_color: clone_bytes(&self.fill_color),
            line_width: self.line_width,
            border_width: self.border_width,
            current_x: self.current_x,
            current_y: self.current_y,
            stroke_color_space: clone_bytes(&self.stroke_color_space),
            fill_color_space: clone_bytes(&self.fill_color_space),
            current_font_name: match &self.current_font_name {
                Some(v) => Some(clone_bytes(v)),
                None => None,
            },
        }
    }
}

} // verus!
