//! Content-stream operations and the closed set of recognized operators.
//!
//! A decoded content stream is an ordered list of operations, each a raw
//! operator name with its operand list.  The interpreter resolves every name
//! to one tag of a closed enumeration once, so the recognized operator set
//! stands in one place; unrecognized names keep their raw bytes and never
//! abort a pass.

use vstd::prelude::*;

verus! {

/// One operand of a content-stream operation.  Numeric operands are
/// fixed-point values in thousandths; name operands keep their raw bytes;
/// anything else reads as the number zero wherever a number is expected.
pub enum Operand {
    Num(i64),
    Name(Vec<u8>),
    Other,
}

/// Model of an operand.
pub enum OperandV {
    Num(int),
    Name(Seq<u8>),
    Other,
}

impl View for Operand {
    type V = OperandV;

    open spec fn view(&self) -> OperandV {
        match self {
            Operand::Num(v) => OperandV::Num(*v as int),
            Operand::Name(n) => OperandV::Name(n@),
            Operand::Other => OperandV::Other,
        }
    }
}

/// The numeric reading of an operand: its value for a number, zero for
/// everything else.
pub open spec fn spec_operand_num(o: OperandV) -> int {
    match o {
        OperandV::Num(v) => v,
        _ => 0,
    }
}

/// Reads an operand as a number.
pub fn operand_num(o: &Operand) -> (r: i64)
    ensures
        r as int == spec_operand_num(o@),
{
    match o {
        Operand::Num(v) => *v,
        _ => 0,
    }
}

/// One decoded content-stream operation: a raw operator name and its
/// operands.
pub struct Operation {
    pub name: Vec<u8>,
    pub operands: Vec<Operand>,
}

/// Model of an operation.
pub struct OperationV {
    pub name: Seq<u8>,
    pub operands: Seq<OperandV>,
}

impl View for Operation {
    type V = OperationV;

    open spec fn view(&self) -> OperationV {
        OperationV { name: self.name@, operands: self.operands@.map_values(|o: Operand| o@) }
    }
}

/// The numeric reading of a whole operand list.
pub open spec fn spec_operand_nums(s: Seq<OperandV>) -> Seq<int> {
    s.map_values(|o: OperandV| spec_operand_num(o))
}

/// Reads every operand of a list as a number.
pub fn operand_nums(v: &Vec<Operand>) -> (r: Vec<i64>)
    ensures
        r@.map_values(|x: i64| x as int) == spec_operand_nums(v@.map_values(|o: Operand| o@)),
{
    let mut r: Vec<i64> = Vec::new();
    let mut i: usize = 0;
    while i < v.len()
        invariant
            0 <= i <= v@.len(),
            r@.len() == i,
            forall|k: int| 0 <= k < i ==> r@[k] as int == spec_operand_num(v@[k]@),
        decreases v@.len() - i,
    {
        r.push(operand_num(&v[i]));
        i = i + 1;
    }
    proof {
        assert(r@.map_values(|x: i64| x as int) =~= spec_operand_nums(
            v@.map_values(|o: Operand| o@),
        ));
    }
    r
}

/// The closed set of recognized operators; everything else is `Other`.
#[derive(Clone, Copy, PartialEq, Eq, Structural, Debug)]
pub enum OpKind {
    /// `q`: push the graphics state and the transform.
    Save,
    /// `Q`: pop both stacks, a no-op when they are empty.
    Restore,
    /// `cm`: fold a matrix onto the current transform.
    ConcatMatrix,
    /// `CS`: select the stroke color space.
    StrokeColorSpace,
    /// `cs`: select the fill color space.
    FillColorSpace,
    /// `SCN`: set the stroke color under the active stroke color space.
    StrokeColorN,
    /// `scn`: set the fill color under the active fill color space.
    FillColorN,
    /// `RG`: set the stroke color to an RGB value.
    StrokeRgb,
    /// `rg`: set the fill color to an RGB value.
    FillRgb,
    /// `G`: set the stroke color to a gray value.
    StrokeGray,
    /// `g`: set the fill color to a gray value.
    FillGray,
    /// `w`: set the line width.
    LineWidth,
    /// `re`: append a rectangle to the current path.
    Rect,
    /// `m`: begin a subpath, moving the path cursor.
    MoveTo,
    /// `l`: line segment.
    LineTo,
    /// `c`: cubic curve segment.
    CurveTo,
    /// `v`: curve variant.
    CurveV,
    /// `y`: curve variant.
    CurveY,
    /// `h`: close the subpath.
    ClosePath,
    /// `BT`, `ET`, `Tj`, `TJ`, `Td`, `TD`, `T*`: text block and text
    /// positioning operators.
    TextOp,
    /// `Tf`: select the font.
    SetFont,
    /// `S`: stroke the path.
    Stroke,
    /// `B`: fill and stroke the path.
    FillStroke,
    /// `f` or `F`: fill the path.
    Fill,
    /// `gs`: set graphics-state parameters.
    GsParams,
    /// Any operator outside the recognized set.
    Other,
}

/// How a rectangle ends up painted.
#[derive(Clone, Copy, PartialEq, Eq, Structural, Debug)]
pub enum PaintMode {
    StrokeOnly,
    FillAndStroke,
    FillOnly,
    Unknown,
}

/// The tag this crate reports for a paint mode: `Stroke only`,
/// `Fill and Stroke`, `Fill only` or `Unknown`.
pub open spec fn spec_paint_mode_tag(m: PaintMode) -> Seq<u8> {
    match m {
        PaintMode::StrokeOnly => seq![
            0x53, 0x74, 0x72, 0x6f, 0x6b, 0x65, 0x20, 0x6f, 0x6e, 0x6c, 0x79,
        ],
        PaintMode::FillAndStroke => seq![
            0x46, 0x69, 0x6c, 0x6c, 0x20, 0x61, 0x6e, 0x64, 0x20, 0x53, 0x74, 0x72, 0x6f, 0x6b,
            0x65,
        ],
        PaintMode::FillOnly => seq![0x46, 0x69, 0x6c, 0x6c, 0x20, 0x6f, 0x6e, 0x6c, 0x79],
        PaintMode::Unknown => seq![0x55, 0x6e, 0x6b, 0x6e, 0x6f, 0x77, 0x6e],
    }
}

/// Builds the report tag of a paint mode.
pub fn paint_mode_tag(m: PaintMode) -> (r: Vec<u8>)
    ensures
        r@ == spec_paint_mode_tag(m),
{
    let mut out: Vec<u8> = Vec::new();
    match m {
        PaintMode::StrokeOnly => {
            out.push(0x53);
            out.push(0x74);
            out.push(0x72);
            out.push(0x6f);
            out.push(0x6b);
            out.push(0x65);
            out.push(0x20);
            out.push(0x6f);
            out.push(0x6e);
            out.push(0x6c);
            out.push(0x79);
        },
        PaintMode::FillAndStroke => {
            out.push(0x46);
            out.push(0x69);
            out.push(0x6c);
            out.push(0x6c);
            out.push(0x20);
            out.push(0x61);
            out.push(0x6e);
            out.push(0x64);
            out.push(0x20);
            out.push(0x53);
            out.push(0x74);
            out.push(0x72);
            out.push(0x6f);
            out.push(0x6b);
            out.push(0x65);
        },
        PaintMode::FillOnly => {
            out.push(0x46);
            out.push(0x69);
            out.push(0x6c);
            out.push(0x6c);
            out.push(0x20);
            out.push(0x6f);
            out.push(0x6e);
            out.push(0x6c);
            out.push(0x79);
        },
        PaintMode::Unknown => {
            out.push(0x55);
            out.push(0x6e);
            out.push(0x6b);
            out.push(0x6e);
            out.push(0x6f);
            out.push(0x77);
            out.push(0x6e);
        },
    }
    proof {
        assert(out@ =~= spec_paint_mode_tag(m));
    }
    out
}

/// Whether a one-byte name equals the given byte.
fn is1(name: &Vec<u8>, c0: u8) -> (r: bool)
    ensures
        r == (name@ == seq![c0]),
{
    let r = name.len() == 1 && name[0] == c0;
    proof {
        if r {
            assert(name@ =~= seq![c0]);
        } else if name@ == seq![c0] {
            assert(name@.len() == 1);
            assert(name@[0] == c0);
        }
    }
    r
}

/// Whether a two-byte name equals the given bytes.
fn is2(name: &Vec<u8>, c0: u8, c1: u8) -> (r: bool)
    ensures
        r == (name@ == seq![c0, c1]),
{
    let r = name.len() == 2 && name[0] == c0 && name[1] == c1;
    proof {
        if r {
            assert(name@ =~= seq![c0, c1]);
        } else if name@ == seq![c0, c1] {
            assert(name@.len() == 2);
            assert(name@[0] == c0);
            assert(name@[1] == c1);
        }
    }
    r
}

/// Whether a three-byte name equals the given bytes.
fn is3(name: &Vec<u8>, c0: u8, c1: u8, c2: u8) -> (r: bool)
    ensures
        r == (name@ == seq![c0, c1, c2]),
{
    let r = name.len() == 3 && name[0] == c0 && name[1] == c1 && name[2] == c2;
    proof {
        if r {
            assert(name@ =~= seq![c0, c1, c2]);
        } else if name@ == seq![c0, c1, c2] {
            assert(name@.len() == 3);
            assert(name@[0] == c0);
            assert(name@[1] == c1);
            assert(name@[2] == c2);
        }
    }
    r
}

/// The operator a raw name resolves to.
pub open spec fn spec_kind_of(name: Seq<u8>) -> OpKind {
    if name == seq![0x71u8] {
        OpKind::Save
    } else if name == seq![0x51u8] {
        OpKind::Restore
    } else if name == seq![0x63u8, 0x6du8] {
        OpKind::ConcatMatrix
    } else if name == seq![0x43u8, 0x53u8] {
        OpKind::StrokeColorSpace
    } else if name == seq![0x63u8, 0x73u8] {
        OpKind::FillColorSpace
    } else if name == seq![0x53u8, 0x43u8, 0x4eu8] {
        OpKind::StrokeColorN
    } else if name == seq![0x73u8, 0x63u8, 0x6eu8] {
        OpKind::FillColorN
    } else if name == seq![0x52u8, 0x47u8] {
        OpKind::StrokeRgb
    } else if name == seq![0x72u8, 0x67u8] {
        OpKind::FillRgb
    } else if name == seq![0x47u8] {
        OpKind::StrokeGray
    } else if name == seq![0x67u8] {
        OpKind::FillGray
    } else if name == seq![0x77u8] {
        OpKind::LineWidth
    } else if name == seq![0x72u8, 0x65u8] {
        OpKind::Rect
    } else if name == seq![0x6du8] {
        OpKind::MoveTo
    } else if name == seq![0x6cu8] {
        OpKind::LineTo
    } else if name == seq![0x63u8] {
        OpKind::CurveTo
    } else if name == seq![0x76u8] {
        OpKind::CurveV
    } else if name == seq![0x79u8] {
        OpKind::CurveY
    } else if name == seq![0x68u8] {
        OpKind::ClosePath
    } else if name == seq![0x42u8, 0x54u8] || name == seq![0x45u8, 0x54u8] || name == seq![
        0x54u8,
        0x6au8,
    ] || name == seq![0x54u8, 0x4au8] || name == seq![0x54u8, 0x64u8] || name == seq![
        0x54u8,
        0x44u8,
    ] || name == seq![0x54u8, 0x2au8] {
        OpKind::TextOp
    } else if name == seq![0x54u8, 0x66u8] {
        OpKind::SetFont
    } else if name == seq![0x53u8] {
        OpKind::Stroke
    } else if name == seq![0x42u8] {
        OpKind::FillStroke
    } else if name == seq![0x66u8] || name == seq![0x46u8] {
        OpKind::Fill
    } else if name == seq![0x67u8, 0x73u8] {
        OpKind::GsParams
    } else {
        OpKind::Other
    }
}

/// Resolves a raw operator name.
pub fn kind_of(name: &Vec<u8>) -> (k: OpKind)
    ensures
        k == spec_kind_of(name@),
{
    if is1(name, 0x71) {
        OpKind::Save
    } else if is1(name, 0x51) {
        OpKind::Restore
    } else if is2(name, 0x63, 0x6d) {
        OpKind::ConcatMatrix
    } else if is2(name, 0x43, 0x53) {
        OpKind::StrokeColorSpace
    } else if is2(name, 0x63, 0x73) {
        OpKind::FillColorSpace
    } else if is3(name, 0x53, 0x43, 0x4e) {
        OpKind::StrokeColorN
    } else if is3(name, 0x73, 0x63, 0x6e) {
        OpKind::FillColorN
    } else if is2(name, 0x52, 0x47) {
        OpKind::StrokeRgb
    } else if is2(name, 0x72, 0x67) {
        OpKind::FillRgb
    } else if is1(name, 0x47) {
        OpKind::StrokeGray
    } else if is1(name, 0x67) {
        OpKind::FillGray
    } else if is1(name, 0x77) {
        OpKind::LineWidth
    } else if is2(name, 0x72, 0x65) {
        OpKind::Rect
    } else if is1(name, 0x6d) {
        OpKind::MoveTo
    } else if is1(name, 0x6c) {
        OpKind::LineTo
    } else if is1(name, 0x63) {
        OpKind::CurveTo
    } else if is1(name, 0x76) {
        OpKind::CurveV
    } else if is1(name, 0x79) {
        OpKind::CurveY
    } else if is1(name, 0x68) {
        OpKind::ClosePath
    } else if is2(name, 0x42, 0x54) || is2(name, 0x45, 0x54) || is2(name, 0x54, 0x6a) || is2(
        name,
        0x54,
        0x4a,
    ) || is2(name, 0x54, 0x64) || is2(name, 0x54, 0x44) || is2(name, 0x54, 0x2a) {
        OpKind::TextOp
    } else if is2(name, 0x54, 0x66) {
        OpKind::SetFont
    } else if is1(name, 0x53) {
        OpKind::Stroke
    } else if is1(name, 0x42) {
        OpKind::FillStroke
    } else if is1(name, 0x66) || is1(name, 0x46) {
        OpKind::Fill
    } else if is2(name, 0x67, 0x73) {
        OpKind::GsParams
    } else {
        OpKind::Other
    }
}

} // verus!
