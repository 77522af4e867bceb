//! The records an analysis produces.

use vstd::prelude::*;
use crate::state::opt_bytes_view;

verus! {

/// How often one operator name occurred in a stream.
pub struct OperatorCount {
    pub operator: Vec<u8>,
    pub occurrences: usize,
}

impl View for OperatorCount {
    type V = (Seq<u8>, int);

    open spec fn view(&self) -> (Seq<u8>, int) {
        (self.operator@, self.occurrences as int)
    }
}

/// A transformed position, in thousandths of a unit.
pub struct Point {
    pub x: i64,
    pub y: i64,
}

/// A width and height, in thousandths of a unit.
pub struct Dimensions {
    pub width: i64,
    pub height: i64,
}

/// A two-corner box; `y1` is the bottom edge, so `y1 <= y2` always holds for
/// an emitted rectangle.
pub struct CornerCoordinates {
    pub x1: i64,
    pub y1: i64,
    pub x2: i64,
    pub y2: i64,
}

/// Per-operator tallies over one content stream.
pub struct SummaryStats {
    pub total_operations: usize,
    pub rectangle_operations: usize,
    pub path_operations: usize,
    pub text_operations: usize,
    pub other_operations: usize,
}

/// One emitted rectangle.
pub struct RectangleData {
    pub operation: usize,
    pub position: Point,
    pub dimensions: Dimensions,
    pub corners: CornerCoordinates,
    pub fill_color: Vec<u8>,
    pub stroke_color: Vec<u8>,
    pub line_width: i64,
    pub border: i64,
    pub font_name: Option<Vec<u8>>,
    pub operation_type: Vec<u8>,
    pub fill_color_operands: Vec<i64>,
    pub page: u32,
    pub fill_color_override: Option<Vec<u8>>,
}

/// Model of an emitted rectangle.
pub struct RectV {
    pub operation: int,
    pub pos_x: int,
    pub pos_y: int,
    pub width: int,
    pub height: int,
    pub x1: int,
    pub y1: int,
    pub x2: int,
    pub y2: int,
    pub fill_color: Seq<u8>,
    pub stroke_color: Seq<u8>,
    pub line_width: int,
    pub border: int,
    pub font_name: Option<Seq<u8>>,
    pub operation_type: Seq<u8>,
    pub fill_color_operands: Seq<int>,
    pub page: int,
    pub fill_color_override: Option<Seq<u8>>,
}

impl View for RectangleData {
    type V = RectV;

    open spec fn view(&self) -> RectV {
        RectV {
            operation: self.operation as int,
            pos_x: self.position.x as int,
            pos_y: self.position.y as int,
            width: self.dimensions.width as int,
            height: self.dimensions.height as int,
            x1: self.corners.x1 as int,
            y1: self.corners.y1 as int,
            x2: self.corners.x2 as int,
            y2: self.corners.y2 as int,
            fill_color: self.fill_color@,
            stroke_color: self.stroke_color@,
            line_width: self.line_width as int,
            border: self.border as int,
            font_name: opt_bytes_view(self.font_name),
            operation_type: self.operation_type@,
            fill_color_operands: self.fill_color_operands@.map_values(|x: i64| x as int),
            page: self.page as int,
            fill_color_override: opt_bytes_view(self.fill_color_override),
        }
    }
}

/// The view of a rectangle list.
pub open spec fn rects_view(s: Seq<RectangleData>) -> Seq<RectV> {
    s.map_values(|r: RectangleData| r@)
}

/// The view of a tally list.
pub open spec fn tally_view(s: Seq<OperatorCount>) -> Seq<(Seq<u8>, int)> {
    s.map_values(|oc: OperatorCount| oc@)
}

/// The outcome of one content stream: tallies, the most frequent operators,
/// and the rectangles kept.
pub struct PageAnalysisResult {
    pub pdf_page: u32,
    pub summary: SummaryStats,
    pub most_common_operators: Vec<OperatorCount>,
    pub rectangles: Vec<RectangleData>,
}

/// The outcome of a whole document: the page count and the rectangles of all
/// pages flattened in page order.
pub struct DocumentAnalysisResult {
    pub total_pages: u32,
    pub total_rectangles: usize,
    pub rectangles: Vec<RectangleData>,
}

/// One signature-field rectangle, as the annotation walk reports it.
pub struct LatexRectangle {
    pub page: u32,
    pub x1: i64,
    pub y1: i64,
    pub x2: i64,
    pub y2: i64,
    pub width: i64,
    pub height: i64,
}

/// A labelled batch of signature-field rectangles.
pub struct LatexOutputData {
    pub timestamp: String,
    pub input_file: String,
    pub rectangles: Vec<LatexRectangle>,
}

} // verus!
