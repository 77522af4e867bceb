//! The operator interpreter: a single-pass graphics-state machine.
//!
//! The machine replays one content stream's operator list in order.  Its
//! mathematical model is the `step` function, which maps one operation onto
//! the machine state; `run` folds it over a prefix of the stream.  The
//! executable interpreter is proved to land exactly on `run` over the whole
//! stream.

use vstd::prelude::*;
use crate::bytes::{contains_seq, contains_bytes, clone_bytes};
use crate::color::{
    spec_rgb_tag, spec_gray_tag, spec_device_gray, spec_device_rgb, spec_is_rgb_space,
    spec_is_gray_space, spec_scale_channel, spec_formatted_color, scale_channel, rgb_tag, gray_tag,
    device_gray, device_rgb, is_rgb_space, is_gray_space, format_color,
};
use crate::geometry::{spec_transform_rect, transform_rect};
use crate::histogram::{tally_bump, tally_bump_exec, top_operators, spec_top_operators, TallyEntry};
use crate::ops::{
    Operand, OperandV, Operation, OperationV, OpKind, PaintMode, spec_operand_num,
    spec_operand_nums, spec_kind_of, spec_paint_mode_tag, operand_num, operand_nums, kind_of,
    paint_mode_tag,
};
use crate::records::{
    OperatorCount, Point, Dimensions, CornerCoordinates, SummaryStats, RectangleData, RectV,
    PageAnalysisResult, rects_view, tally_view,
};
use crate::state::{GraphicsState, GsV, spec_initial_state, opt_bytes_view};
use crate::transform::{Affine, Transform, identity_affine, compose, compose_ok};

verus! {

/// The color targets an analysis filters by.
pub struct CfgV {
    pub target_fill: Option<Seq<u8>>,
    pub target_stroke: Option<Seq<u8>>,
}

/// The whole machine: graphics state, the two save/restore stacks, the
/// current transform, the four tallies, the per-name tally and the
/// rectangles emitted so far.
#[verifier::ext_equal]
pub struct MachineV {
    pub state: GsV,
    pub gstack: Seq<GsV>,
    pub tstack: Seq<Affine>,
    pub ctm: Affine,
    pub rect_ops: int,
    pub path_ops: int,
    pub text_ops: int,
    pub other_ops: int,
    pub tally: Seq<TallyEntry>,
    pub rects: Seq<RectV>,
}

/// The machine a stream starts in.
pub open spec fn init_machine() -> MachineV {
    MachineV {
        state: spec_initial_state(),
        gstack: Seq::empty(),
        tstack: Seq::empty(),
        ctm: identity_affine(),
        rect_ops: 0,
        path_ops: 0,
        text_ops: 0,
        other_ops: 0,
        tally: Seq::empty(),
        rects: Seq::empty(),
    }
}

/// The fixed target fill color, the light fill tag.
pub open spec fn spec_target_fill_tag() -> Seq<u8> {
    spec_rgb_tag(214, 255, 244)
}

/// The fixed target stroke color, the teal stroke tag.
pub open spec fn spec_target_stroke_tag() -> Seq<u8> {
    spec_rgb_tag(0, 184, 148)
}

/// The view of an operation list.
pub open spec fn ops_view(s: Seq<Operation>) -> Seq<OperationV> {
    s.map_values(|o: Operation| o@)
}

/// The configuration two optional target colors stand for.
pub open spec fn cfg_view(f: Option<Vec<u8>>, s: Option<Vec<u8>>) -> CfgV {
    CfgV { target_fill: opt_bytes_view(f), target_stroke: opt_bytes_view(s) }
}

/// Selecting a color space: the name operand, or the default gray space when
/// the operand is absent or not a name.
pub open spec fn spec_set_color_space(st: GsV, operands: Seq<OperandV>, stroke: bool) -> GsV {
    let nm = if operands.len() >= 1 {
        match operands[0] {
            OperandV::Name(n) => n,
            _ => spec_device_gray(),
        }
    } else {
        spec_device_gray()
    };
    if stroke {
        GsV { stroke_color_space: nm, ..st }
    } else {
        GsV { fill_color_space: nm, ..st }
    }
}

/// Setting a color under the active color space: three channels under an
/// RGB-family space, one under a gray-family space, ignored elsewhere.
pub open spec fn spec_set_color_n(st: GsV, operands: Seq<OperandV>, stroke: bool) -> GsV {
    let space = if stroke {
        st.stroke_color_space
    } else {
        st.fill_color_space
    };
    if spec_is_rgb_space(space) {
        if operands.len() >= 3 {
            let tag = spec_rgb_tag(
                spec_scale_channel(spec_operand_num(operands[0])) as u8,
                spec_scale_channel(spec_operand_num(operands[1])) as u8,
                spec_scale_channel(spec_operand_num(operands[2])) as u8,
            );
            if stroke {
                GsV { stroke_color: tag, ..st }
            } else {
                GsV { fill_color: tag, ..st }
            }
        } else {
            st
        }
    } else if spec_is_gray_space(space) {
        if operands.len() >= 1 {
            let tag = spec_gray_tag(spec_scale_channel(spec_operand_num(operands[0])) as u8);
            if stroke {
                GsV { stroke_color: tag, ..st }
            } else {
                GsV { fill_color: tag, ..st }
            }
        } else {
            st
        }
    } else {
        st
    }
}

/// Setting a color to an RGB value directly, forcing the device RGB space.
pub open spec fn spec_set_rgb(st: GsV, operands: Seq<OperandV>, stroke: bool) -> GsV {
    if operands.len() >= 3 {
        let tag = spec_rgb_tag(
            spec_scale_channel(spec_operand_num(operands[0])) as u8,
            spec_scale_channel(spec_operand_num(operands[1])) as u8,
            spec_scale_channel(spec_operand_num(operands[2])) as u8,
        );
        if stroke {
            GsV { stroke_color: tag, stroke_color_space: spec_device_rgb(), ..st }
        } else {
            GsV { fill_color: tag, fill_color_space: spec_device_rgb(), ..st }
        }
    } else {
        st
    }
}

/// Setting a color to a gray value directly, forcing the device gray space.
pub open spec fn spec_set_gray(st: GsV, operands: Seq<OperandV>, stroke: bool) -> GsV {
    if operands.len() >= 1 {
        let tag = spec_gray_tag(spec_scale_channel(spec_operand_num(operands[0])) as u8);
        if stroke {
            GsV { stroke_color: tag, stroke_color_space: spec_device_gray(), ..st }
        } else {
            GsV { fill_color: tag, fill_color_space: spec_device_gray(), ..st }
        }
    } else {
        st
    }
}

/// Overwriting the line width.
pub open spec fn spec_set_line_width(st: GsV, operands: Seq<OperandV>) -> GsV {
    if operands.len() >= 1 {
        GsV { line_width: spec_operand_num(operands[0]), ..st }
    } else {
        st
    }
}

/// Moving the path cursor.
pub open spec fn spec_move_to(st: GsV, operands: Seq<OperandV>) -> GsV {
    if operands.len() >= 2 {
        GsV {
            current_x: spec_operand_num(operands[0]),
            current_y: spec_operand_num(operands[1]),
            ..st
        }
    } else {
        st
    }
}

/// Recording the active font from a name operand.
pub open spec fn spec_set_font(st: GsV, operands: Seq<OperandV>) -> GsV {
    if operands.len() >= 1 {
        match operands[0] {
            OperandV::Name(n) => GsV { current_font_name: Some(n), ..st },
            _ => st,
        }
    } else {
        st
    }
}

/// The bounded forward lookahead that classifies how a freshly appended
/// rectangle gets painted: the first paint operator decides; any operator
/// that abandons the current path ends the scan as `Unknown`.
pub open spec fn spec_lookahead(ops: Seq<OperationV>, j: int) -> PaintMode
    decreases ops.len() - j,
{
    if j < 0 || j >= ops.len() {
        PaintMode::Unknown
    } else {
        match spec_kind_of(ops[j].name) {
            OpKind::Stroke => PaintMode::StrokeOnly,
            OpKind::FillStroke => PaintMode::FillAndStroke,
            OpKind::Fill => PaintMode::FillOnly,
            OpKind::Rect | OpKind::MoveTo | OpKind::LineTo | OpKind::CurveTo | OpKind::CurveV
                | OpKind::CurveY | OpKind::ClosePath | OpKind::Save | OpKind::Restore
                | OpKind::ConcatMatrix | OpKind::GsParams => PaintMode::Unknown,
            _ => spec_lookahead(ops, j + 1),
        }
    }
}

/// The full-page background heuristic: the very first operator, drawn from
/// x = 0, wider than 590 units, with a height below -800 units, is taken
/// for the generated page background, and its colors are overridden with
/// the fixed targets so the background reliably passes the filter.
pub open spec fn spec_page_override(i: int, x: int, w: int, h: int) -> bool {
    i == 0 && x == 0 && w > 590000 && h < -800000
}

/// Whether a color passes an optional target: no target always matches; a
/// target must occur in the color tag as a substring.
pub open spec fn spec_color_matches(color: Seq<u8>, target: Option<Seq<u8>>) -> bool {
    match target {
        None => true,
        Some(t) => contains_seq(color, t),
    }
}

/// The machine after a rectangle-append operator with enough operands:
/// classify, filter by color, transform and emit.
pub open spec fn spec_do_rect(cfg: CfgV, page: int, ops: Seq<OperationV>, i: int, m: MachineV)
    -> MachineV {
    let op = ops[i];
    if op.operands.len() < 4 {
        m
    } else {
        let x = spec_operand_num(op.operands[0]);
        let y = spec_operand_num(op.operands[1]);
        let w = spec_operand_num(op.operands[2]);
        let h = spec_operand_num(op.operands[3]);
        let over = spec_page_override(i, x, w, h);
        let fill_match = if over {
            spec_target_fill_tag()
        } else {
            spec_formatted_color(m.state.fill_color, m.state.fill_color_space)
        };
        let stroke_match = if over {
            spec_target_stroke_tag()
        } else {
            spec_formatted_color(m.state.stroke_color, m.state.stroke_color_space)
        };
        if spec_color_matches(fill_match, cfg.target_fill) && spec_color_matches(
            stroke_match,
            cfg.target_stroke,
        ) {
            match spec_transform_rect(m.ctm, x, y, w, h) {
                Some(g) => MachineV {
                    rects: m.rects.push(
                        RectV {
                            operation: i,
                            pos_x: g.pos_x,
                            pos_y: g.pos_y,
                            width: g.width,
                            height: g.height,
                            x1: g.x1,
                            y1: g.y1,
                            x2: g.x2,
                            y2: g.y2,
                            fill_color: if over {
                                spec_target_fill_tag()
                            } else {
                                spec_formatted_color(m.state.fill_color, m.state.fill_color_space)
                            },
                            stroke_color: if over {
                                spec_target_stroke_tag()
                            } else {
                                spec_formatted_color(
                                    m.state.stroke_color,
                                    m.state.stroke_color_space,
                                )
                            },
                            line_width: m.state.line_width,
                            border: m.state.border_width,
                            font_name: m.state.current_font_name,
                            operation_type: spec_paint_mode_tag(spec_lookahead(ops, i + 1)),
                            fill_color_operands: spec_operand_nums(op.operands),
                            page: page,
                            fill_color_override: if over {
                                Some(spec_target_fill_tag())
                            } else {
                                None
                            },
                        },
                    ),
                    ..m
                },
                None => m,
            }
        } else {
            m
        }
    }
}

/// The matrix six concat-matrix operands stand for: the six fixed-point
/// values as they come, in thousandths.
pub open spec fn spec_cm_matrix(operands: Seq<OperandV>) -> Affine {
    Affine {
        a: spec_operand_num(operands[0]),
        b: spec_operand_num(operands[1]),
        c: spec_operand_num(operands[2]),
        d: spec_operand_num(operands[3]),
        e: spec_operand_num(operands[4]),
        f: spec_operand_num(operands[5]),
    }
}

/// The machine after a concat-matrix operator: six operands make a matrix
/// folded onto the current transform; too few operands, or a
/// non-representable result, leave the transform unchanged.
pub open spec fn spec_concat(m: MachineV, operands: Seq<OperandV>) -> MachineV {
    if operands.len() >= 6 {
        let n = spec_cm_matrix(operands);
        if compose_ok(m.ctm, n) {
            MachineV { ctm: compose(m.ctm, n), ..m }
        } else {
            m
        }
    } else {
        m
    }
}

/// One machine step: tally the operator name, then dispatch on the operator.
pub open spec fn step(cfg: CfgV, page: int, ops: Seq<OperationV>, i: int, m: MachineV)
    -> MachineV {
    let op = ops[i];
    let m0 = MachineV { tally: tally_bump(m.tally, op.name), ..m };
    match spec_kind_of(op.name) {
        OpKind::Save => MachineV {
            gstack: m0.gstack.push(m0.state),
            tstack: m0.tstack.push(m0.ctm),
            ..m0
        },
        OpKind::Restore => {
            let m1 = if m0.gstack.len() > 0 {
                MachineV { state: m0.gstack.last(), gstack: m0.gstack.drop_last(), ..m0 }
            } else {
                m0
            };
            if m1.tstack.len() > 0 {
                MachineV { ctm: m1.tstack.last(), tstack: m1.tstack.drop_last(), ..m1 }
            } else {
                m1
            }
        },
        OpKind::ConcatMatrix => spec_concat(m0, op.operands),
        OpKind::StrokeColorSpace => MachineV {
            state: spec_set_color_space(m0.state, op.operands, true),
            ..m0
        },
        OpKind::FillColorSpace => MachineV {
            state: spec_set_color_space(m0.state, op.operands, false),
            ..m0
        },
        OpKind::StrokeColorN => MachineV {
            state: spec_set_color_n(m0.state, op.operands, true),
            ..m0
        },
        OpKind::FillColorN => MachineV {
            state: spec_set_color_n(m0.state, op.operands, false),
            ..m0
        },
        OpKind::StrokeRgb => MachineV { state: spec_set_rgb(m0.state, op.operands, true), ..m0 },
        OpKind::FillRgb => MachineV { state: spec_set_rgb(m0.state, op.operands, false), ..m0 },
        OpKind::StrokeGray => MachineV { state: spec_set_gray(m0.state, op.operands, true), ..m0 },
        OpKind::FillGray => MachineV { state: spec_set_gray(m0.state, op.operands, false), ..m0 },
        OpKind::LineWidth => MachineV { state: spec_set_line_width(m0.state, op.operands), ..m0 },
        OpKind::Rect => spec_do_rect(
            cfg,
            page,
            ops,
            i,
            MachineV { rect_ops: m0.rect_ops + 1, ..m0 },
        ),
        OpKind::MoveTo => MachineV {
            path_ops: m0.path_ops + 1,
            state: spec_move_to(m0.state, op.operands),
            ..m0
        },
        OpKind::LineTo | OpKind::CurveTo | OpKind::CurveV | OpKind::CurveY | OpKind::ClosePath
            => MachineV { path_ops: m0.path_ops + 1, ..m0 },
        OpKind::TextOp => MachineV { text_ops: m0.text_ops + 1, ..m0 },
        OpKind::SetFont => MachineV {
            text_ops: m0.text_ops + 1,
            state: spec_set_font(m0.state, op.operands),
            ..m0
        },
        OpKind::Stroke | OpKind::FillStroke | OpKind::Fill | OpKind::GsParams | OpKind::Other
            => MachineV { other_ops: m0.other_ops + 1, ..m0 },
    }
}

/// The machine after the first `n` operations.
pub open spec fn run(cfg: CfgV, page: int, ops: Seq<OperationV>, n: int) -> MachineV
    decreases n,
{
    if n <= 0 {
        init_machine()
    } else {
        step(cfg, page, ops, n - 1, run(cfg, page, ops, n - 1))
    }
}

/// A bump raises every count by at most one.
proof fn lemma_tally_bump_counts(t: Seq<TallyEntry>, name: Seq<u8>, b: int)
    requires
        forall|k: int| 0 <= k < t.len() ==> 0 <= (#[trigger] t[k]).1 <= b,
        b >= 0,
    ensures
        forall|k: int|
            0 <= k < tally_bump(t, name).len() ==> 0 <= (#[trigger] tally_bump(t, name)[k]).1 <= b
                + 1,
    decreases t.len(),
{
    if t.len() == 0 {
    } else if t[0].0 == name {
        let r = tally_bump(t, name);
        assert forall|k: int| 0 <= k < r.len() implies 0 <= (#[trigger] r[k]).1 <= b + 1 by {
            if k > 0 {
                assert(r[k] == t.drop_first()[k - 1]);
                assert(t.drop_first()[k - 1] == t[k]);
            }
        }
    } else {
        assert(forall|k: int|
            0 <= k < t.drop_first().len() ==> 0 <= (#[trigger] t.drop_first()[k]).1 <= b);
        lemma_tally_bump_counts(t.drop_first(), name, b);
        let r = tally_bump(t, name);
        let r2 = tally_bump(t.drop_first(), name);
        assert forall|k: int| 0 <= k < r.len() implies 0 <= (#[trigger] r[k]).1 <= b + 1 by {
            if k > 0 {
                assert(r[k] == r2[k - 1]);
            }
        }
    }
}

/// Every tally count and every operator counter stays within the number of
/// operations processed.
pub proof fn lemma_run_counts_bounded(cfg: CfgV, page: int, ops: Seq<OperationV>, n: int)
    requires
        n >= 0,
    ensures
        0 <= run(cfg, page, ops, n).rect_ops <= n,
        0 <= run(cfg, page, ops, n).path_ops <= n,
        0 <= run(cfg, page, ops, n).text_ops <= n,
        0 <= run(cfg, page, ops, n).other_ops <= n,
        forall|k: int|
            0 <= k < run(cfg, page, ops, n).tally.len() ==> 0 <= (#[trigger] run(
                cfg,
                page,
                ops,
                n,
            ).tally[k]).1 <= n,
    decreases n,
{
    if n > 0 {
        lemma_run_counts_bounded(cfg, page, ops, n - 1);
        let prev = run(cfg, page, ops, n - 1);
        lemma_tally_bump_counts(prev.tally, ops[n - 1].name, n - 1);
    }
}

/// Walks forward from `start` to the operator that settles the paint mode.
pub fn classify_paint(operations: &Vec<Operation>, start: usize) -> (r: PaintMode)
    ensures
        r == spec_lookahead(ops_view(operations@), start as int),
{
    let ghost opsv = ops_view(operations@);
    let mut j = start;
    while j < operations.len()
        invariant
            opsv == ops_view(operations@),
            start <= j,
            spec_lookahead(opsv, start as int) == spec_lookahead(opsv, j as int),
        decreases operations@.len() - j,
    {
        proof {
            assert(opsv[j as int] == operations@[j as int]@);
        }
        let k = kind_of(&operations[j].name);
        match k {
            OpKind::Stroke => {
                return PaintMode::StrokeOnly;
            },
            OpKind::FillStroke => {
                return PaintMode::FillAndStroke;
            },
            OpKind::Fill => {
                return PaintMode::FillOnly;
            },
            OpKind::Rect | OpKind::MoveTo | OpKind::LineTo | OpKind::CurveTo | OpKind::CurveV
                | OpKind::CurveY | OpKind::ClosePath | OpKind::Save | OpKind::Restore
                | OpKind::ConcatMatrix | OpKind::GsParams => {
                return PaintMode::Unknown;
            },
            _ => {
                j = j + 1;
            },
        }
    }
    PaintMode::Unknown
}

/// Replays one content stream and reports its tallies, its ten most
/// frequent operators, and every rectangle that passed the color filter,
/// exactly as the machine model `run` prescribes.
#[verifier::rlimit(100)]
pub fn analyze_content_operations(
    operations: &Vec<Operation>,
    page_num: u32,
    target_fill_color: &Option<Vec<u8>>,
    target_stroke_color: &Option<Vec<u8>>,
) -> (r: PageAnalysisResult)
    ensures
        r.pdf_page == page_num,
        r.summary.total_operations == operations@.len(),
        ({
            let m = run(
                cfg_view(*target_fill_color, *target_stroke_color),
                page_num as int,
                ops_view(operations@),
                operations@.len() as int,
            );
            &&& r.summary.rectangle_operations as int == m.rect_ops
            &&& r.summary.path_operations as int == m.path_ops
            &&& r.summary.text_operations as int == m.text_ops
            &&& r.summary.other_operations as int == m.other_ops
            &&& tally_view(r.most_common_operators@) == spec_top_operators(m.tally)
            &&& rects_view(r.rectangles@) == m.rects
        }),
{
    let ghost opsv = ops_view(operations@);
    let ghost cfg = cfg_view(*target_fill_color, *target_stroke_color);
    let ghost pg = page_num as int;
    let n = operations.len();
    let mut state = GraphicsState::default();
    let mut gstack: Vec<GraphicsState> = Vec::new();
    let mut tstack: Vec<Transform> = Vec::new();
    let mut ctm = Transform::identity();
    let mut rect_ops: usize = 0;
    let mut path_ops: usize = 0;
    let mut text_ops: usize = 0;
    let mut other_ops: usize = 0;
    let mut tally: Vec<OperatorCount> = Vec::new();
    let mut rects: Vec<RectangleData> = Vec::new();
    let mut i: usize = 0;
    while i < n
        invariant
            n == operations@.len(),
            opsv == ops_view(operations@),
            cfg == cfg_view(*target_fill_color, *target_stroke_color),
            pg == page_num as int,
            0 <= i <= n,
            state@ == run(cfg, pg, opsv, i as int).state,
            gstack@.map_values(|g: GraphicsState| g@) == run(cfg, pg, opsv, i as int).gstack,
            tstack@.map_values(|t: Transform| t@) == run(cfg, pg, opsv, i as int).tstack,
            ctm@ == run(cfg, pg, opsv, i as int).ctm,
            rect_ops as int == run(cfg, pg, opsv, i as int).rect_ops,
            path_ops as int == run(cfg, pg, opsv, i as int).path_ops,
            text_ops as int == run(cfg, pg, opsv, i as int).text_ops,
            other_ops as int == run(cfg, pg, opsv, i as int).other_ops,
            tally_view(tally@) == run(cfg, pg, opsv, i as int).tally,
            rects_view(rects@) == run(cfg, pg, opsv, i as int).rects,
        decreases n - i,
    {
        let ghost m_cur = run(cfg, pg, opsv, i as int);
        let ghost m_next = run(cfg, pg, opsv, i + 1);
        proof {
            lemma_run_counts_bounded(cfg, pg, opsv, i as int);
            assert(m_next == step(cfg, pg, opsv, i as int, m_cur));
            assert(opsv[i as int] == operations@[i as int]@);
        }
        let op = &operations[i];
        proof {
            assert forall|k: int| 0 <= k < tally@.len() implies (#[trigger] tally@[k]).occurrences
                < usize::MAX by {
                assert(tally_view(tally@)[k] == tally@[k]@);
                assert(tally_view(tally@)[k].1 <= i as int);
            }
        }
        tally_bump_exec(&mut tally, &op.name);
        let ghost m0 = MachineV { tally: tally_bump(m_cur.tally, op@.name), ..m_cur };
        let kind = kind_of(&op.name);
        match kind {
            OpKind::Save => {
                gstack.push(state.clone());
                tstack.push(ctm);
                proof {
                    assert(gstack@.map_values(|g: GraphicsState| g@) =~= m_next.gstack);
                    assert(tstack@.map_values(|t: Transform| t@) =~= m_next.tstack);
                }
            },
            OpKind::Restore => {
                match gstack.pop() {
                    Some(prev) => {
                        state = prev;
                    },
                    None => {},
                }
                match tstack.pop() {
                    Some(prev) => {
                        ctm = prev;
                    },
                    None => {},
                }
                proof {
                    if m0.gstack.len() > 0 {
                        assert(gstack@.map_values(|g: GraphicsState| g@) =~= m0.gstack.drop_last());
                    }
                    if m0.tstack.len() > 0 {
                        assert(tstack@.map_values(|t: Transform| t@) =~= m0.tstack.drop_last());
                    }
                }
            },
            OpKind::ConcatMatrix => {
                if op.operands.len() >= 6 {
                    let a = operand_num(&op.operands[0]);
                    let b = operand_num(&op.operands[1]);
                    let c = operand_num(&op.operands[2]);
                    let d = operand_num(&op.operands[3]);
                    let e = operand_num(&op.operands[4]);
                    let f = operand_num(&op.operands[5]);
                    let inc = Transform { a, b, c, d, e, f };
                    match ctm.checked_compose(&inc) {
                        Some(t) => {
                            ctm = t;
                        },
                        None => {},
                    }
                }
            },
            OpKind::StrokeColorSpace | OpKind::FillColorSpace => {
                let nm = if op.operands.len() >= 1 {
                    match &op.operands[0] {
                        Operand::Name(nb) => clone_bytes(nb),
                        _ => device_gray(),
                    }
                } else {
                    device_gray()
                };
                match kind {
                    OpKind::StrokeColorSpace => {
                        state.stroke_color_space = nm;
                    },
                    _ => {
                        state.fill_color_space = nm;
                    },
                }
            },
            OpKind::StrokeColorN | OpKind::FillColorN => {
                let stroke = match kind {
                    OpKind::StrokeColorN => true,
                    _ => false,
                };
                let rgb = if stroke {
                    is_rgb_space(&state.stroke_color_space)
                } else {
                    is_rgb_space(&state.fill_color_space)
                };
                let gray = if stroke {
                    is_gray_space(&state.stroke_color_space)
                } else {
                    is_gray_space(&state.fill_color_space)
                };
                if rgb {
                    if op.operands.len() >= 3 {
                        let tag = rgb_tag(
                            scale_channel(operand_num(&op.operands[0])),
                            scale_channel(operand_num(&op.operands[1])),
                            scale_channel(operand_num(&op.operands[2])),
                        );
                        if stroke {
                            state.stroke_color = tag;
                        } else {
                            state.fill_color = tag;
                        }
                    }
                } else if gray {
                    if op.operands.len() >= 1 {
                        let tag = gray_tag(scale_channel(operand_num(&op.operands[0])));
                        if stroke {
                            state.stroke_color = tag;
                        } else {
                            state.fill_color = tag;
                        }
                    }
                }
            },
            OpKind::StrokeRgb | OpKind::FillRgb => {
                if op.operands.len() >= 3 {
                    let tag = rgb_tag(
                        scale_channel(operand_num(&op.operands[0])),
                        scale_channel(operand_num(&op.operands[1])),
                        scale_channel(operand_num(&op.operands[2])),
                    );
                    match kind {
                        OpKind::StrokeRgb => {
                            state.stroke_color = tag;
                            state.stroke_color_space = device_rgb();
                        },
                        _ => {
                            state.fill_color = tag;
                            state.fill_color_space = device_rgb();
                        },
                    }
                }
            },
            OpKind::StrokeGray | OpKind::FillGray => {
                if op.operands.len() >= 1 {
                    let tag = gray_tag(scale_channel(operand_num(&op.operands[0])));
                    match kind {
                        OpKind::StrokeGray => {
                            state.stroke_color = tag;
                            state.stroke_color_space = device_gray();
                        },
                        _ => {
                            state.fill_color = tag;
                            state.fill_color_space = device_gray();
                        },
                    }
                }
            },
            OpKind::LineWidth => {
                if op.operands.len() >= 1 {
                    state.line_width = operand_num(&op.operands[0]);
                }
            },
            OpKind::Rect => {
                rect_ops = rect_ops + 1;
                if op.operands.len() >= 4 {
                    let x = operand_num(&op.operands[0]);
                    let y = operand_num(&op.operands[1]);
                    let w = operand_num(&op.operands[2]);
                    let h = operand_num(&op.operands[3]);
                    let mode = classify_paint(operations, i + 1);
                    let over = i == 0 && x == 0 && w > 590000 && h < -800000;
                    proof {
                        assert(opsv[i as int].operands[0] == op.operands@[0]@);
                        assert(opsv[i as int].operands[1] == op.operands@[1]@);
                        assert(opsv[i as int].operands[2] == op.operands@[2]@);
                        assert(opsv[i as int].operands[3] == op.operands@[3]@);
                        assert(x as int == spec_operand_num(opsv[i as int].operands[0]));
                        assert(y as int == spec_operand_num(opsv[i as int].operands[1]));
                        assert(w as int == spec_operand_num(opsv[i as int].operands[2]));
                        assert(h as int == spec_operand_num(opsv[i as int].operands[3]));
                        assert(over == spec_page_override(i as int, x as int, w as int, h as int));
                    }
                    let fill_ok = match target_fill_color {
                        Some(t) => if over {
                            let tf = crate::color::target_fill_color();
                            contains_bytes(tf.as_slice(), t.as_slice())
                        } else {
                            let ff = format_color(&state.fill_color, &state.fill_color_space);
                            contains_bytes(ff.as_slice(), t.as_slice())
                        },
                        None => true,
                    };
                    let stroke_ok = match target_stroke_color {
                        Some(t) => if over {
                            let ts = crate::color::target_stroke_color();
                            contains_bytes(ts.as_slice(), t.as_slice())
                        } else {
                            let fs = format_color(&state.stroke_color, &state.stroke_color_space);
                            contains_bytes(fs.as_slice(), t.as_slice())
                        },
                        None => true,
                    };
                    proof {
                        let fm = if over {
                            spec_target_fill_tag()
                        } else {
                            spec_formatted_color(m_cur.state.fill_color, m_cur.state.fill_color_space)
                        };
                        let sm = if over {
                            spec_target_stroke_tag()
                        } else {
                            spec_formatted_color(
                                m_cur.state.stroke_color,
                                m_cur.state.stroke_color_space,
                            )
                        };
                        assert(fill_ok == spec_color_matches(fm, cfg.target_fill));
                        assert(stroke_ok == spec_color_matches(sm, cfg.target_stroke));
                    }
                    if fill_ok && stroke_ok {
                        match transform_rect(&ctm, x, y, w, h) {
                            Some(g) => {
                                let rd = RectangleData {
                                    operation: i,
                                    position: Point { x: g.pos_x, y: g.pos_y },
                                    dimensions: Dimensions { width: g.width, height: g.height },
                                    corners: CornerCoordinates {
                                        x1: g.x1,
                                        y1: g.y1,
                                        x2: g.x2,
                                        y2: g.y2,
                                    },
                                    fill_color: if over {
                                        crate::color::target_fill_color()
                                    } else {
                                        format_color(&state.fill_color, &state.fill_color_space)
                                    },
                                    stroke_color: if over {
                                        crate::color::target_stroke_color()
                                    } else {
                                        format_color(
                                            &state.stroke_color,
                                            &state.stroke_color_space,
                                        )
                                    },
                                    line_width: state.line_width,
                                    border: state.border_width,
                                    font_name: match &state.current_font_name {
                                        Some(v) => Some(clone_bytes(v)),
                                        None => None,
                                    },
                                    operation_type: paint_mode_tag(mode),
                                    fill_color_operands: operand_nums(&op.operands),
                                    page: page_num,
                                    fill_color_override: if over {
                                        Some(crate::color::target_fill_color())
                                    } else {
                                        None
                                    },
                                };
                                proof {
                                    let ghost m1 = MachineV { rect_ops: m0.rect_ops + 1, ..m0 };
                                    assert(m_next == spec_do_rect(cfg, pg, opsv, i as int, m1));
                                    assert(spec_transform_rect(
                                        m1.ctm,
                                        x as int,
                                        y as int,
                                        w as int,
                                        h as int,
                                    ) == Some(g@));
                                    let expected = RectV {
                                        operation: i as int,
                                        pos_x: g@.pos_x,
                                        pos_y: g@.pos_y,
                                        width: g@.width,
                                        height: g@.height,
                                        x1: g@.x1,
                                        y1: g@.y1,
                                        x2: g@.x2,
                                        y2: g@.y2,
                                        fill_color: if over {
                                            spec_target_fill_tag()
                                        } else {
                                            spec_formatted_color(
                                                m_cur.state.fill_color,
                                                m_cur.state.fill_color_space,
                                            )
                                        },
                                        stroke_color: if over {
                                            spec_target_stroke_tag()
                                        } else {
                                            spec_formatted_color(
                                                m_cur.state.stroke_color,
                                                m_cur.state.stroke_color_space,
                                            )
                                        },
                                        line_width: m_cur.state.line_width,
                                        border: m_cur.state.border_width,
                                        font_name: m_cur.state.current_font_name,
                                        operation_type: spec_paint_mode_tag(
                                            spec_lookahead(opsv, i + 1),
                                        ),
                                        fill_color_operands: spec_operand_nums(
                                            opsv[i as int].operands,
                                        ),
                                        page: pg,
                                        fill_color_override: if over {
                                            Some(spec_target_fill_tag())
                                        } else {
                                            None
                                        },
                                    };
                                    assert(rd@ == expected);
                                    assert(m_next.rects == m1.rects.push(expected));
                                }
                                rects.push(rd);
                                proof {
                                    assert(rects_view(rects@) =~= m_next.rects);
                                }
                            },
                            None => {},
                        }
                    }
                }
            },
            OpKind::MoveTo => {
                path_ops = path_ops + 1;
                if op.operands.len() >= 2 {
                    state.current_x = operand_num(&op.operands[0]);
                    state.current_y = operand_num(&op.operands[1]);
                }
            },
            OpKind::LineTo | OpKind::CurveTo | OpKind::CurveV | OpKind::CurveY
                | OpKind::ClosePath => {
                path_ops = path_ops + 1;
            },
            OpKind::TextOp => {
                text_ops = text_ops + 1;
            },
            OpKind::SetFont => {
                text_ops = text_ops + 1;
                if op.operands.len() >= 1 {
                    match &op.operands[0] {
                        Operand::Name(nb) => {
                            state.current_font_name = Some(clone_bytes(nb));
                        },
                        _ => {},
                    }
                }
            },
            OpKind::Stroke | OpKind::FillStroke | OpKind::Fill | OpKind::GsParams
                | OpKind::Other => {
                other_ops = other_ops + 1;
            },
        }
        i = i + 1;
    }
    let summary = SummaryStats {
        total_operations: n,
        rectangle_operations: rect_ops,
        path_operations: path_ops,
        text_operations: text_ops,
        other_operations: other_ops,
    };
    let most_common_operators = top_operators(&tally);
    PageAnalysisResult { pdf_page: page_num, summary, most_common_operators, rectangles: rects }
}

} // verus!
