//! Document-level laws of the interpreter, stated over the machine model
//! that the public contracts use.

use vstd::prelude::*;
use crate::interp::{CfgV, MachineV, run, step, spec_cm_matrix, spec_lookahead};
use crate::ops::{OperationV, OpKind, spec_kind_of, spec_operand_num};
use crate::records::RectV;
use crate::geometry::lemma_geom_normalized;
use crate::transform::{
    compose, compose_ok, linear_whole, lemma_compose_associative, lemma_compose_linear_whole,
};
use crate::typst::{PageContentV, streams_rects, pages_rects};

verus! {

/// A stream without rectangle-append operators emits no rectangle and
/// counts no rectangle operation.
pub proof fn lemma_no_rect_ops_no_rectangles(cfg: CfgV, page: int, ops: Seq<OperationV>, n: int)
    requires
        forall|j: int| 0 <= j < n ==> spec_kind_of((#[trigger] ops[j]).name) != OpKind::Rect,
    ensures
        run(cfg, page, ops, n).rects == Seq::<RectV>::empty(),
        run(cfg, page, ops, n).rect_ops == 0,
    decreases n,
{
    if n > 0 {
        lemma_no_rect_ops_no_rectangles(cfg, page, ops, n - 1);
    }
}

/// A list of streams without rectangle-append operators contributes no
/// rectangle.
pub proof fn lemma_no_rect_ops_streams(cfg: CfgV, page: int, streams: Seq<Seq<OperationV>>)
    requires
        forall|s: int, j: int|
            0 <= s < streams.len() && 0 <= j < streams[s].len() ==> spec_kind_of(
                (#[trigger] streams[s][j]).name,
            ) != OpKind::Rect,
    ensures
        streams_rects(cfg, page, streams) == Seq::<RectV>::empty(),
    decreases streams.len(),
{
    if streams.len() > 0 {
        let pre = streams.drop_last();
        assert(forall|s: int, j: int|
            0 <= s < pre.len() && 0 <= j < pre[s].len() ==> spec_kind_of(
                (#[trigger] pre[s][j]).name,
            ) != OpKind::Rect);
        lemma_no_rect_ops_streams(cfg, page, pre);
        let last = streams.last();
        assert(forall|j: int|
            0 <= j < last.len() ==> spec_kind_of((#[trigger] last[j]).name) != OpKind::Rect);
        lemma_no_rect_ops_no_rectangles(cfg, page, last, last.len() as int);
        assert(streams_rects(cfg, page, streams) =~= Seq::<RectV>::empty());
    }
}

/// A document with no rectangle-append operator anywhere yields an empty
/// rectangle list, so its rectangle total is zero.
pub proof fn lemma_no_rect_ops_document(cfg: CfgV, pages: Seq<PageContentV>)
    requires
        forall|p: int, s: int, j: int|
            0 <= p < pages.len() && 0 <= s < pages[p].streams.len() && 0 <= j
                < pages[p].streams[s].len() ==> spec_kind_of(
                (#[trigger] pages[p].streams[s][j]).name,
            ) != OpKind::Rect,
    ensures
        pages_rects(cfg, pages) == Seq::<RectV>::empty(),
    decreases pages.len(),
{
    if pages.len() > 0 {
        let pre = pages.drop_last();
        assert(forall|p: int, s: int, j: int|
            0 <= p < pre.len() && 0 <= s < pre[p].streams.len() && 0 <= j < pre[p].streams[s].len()
                ==> spec_kind_of((#[trigger] pre[p].streams[s][j]).name) != OpKind::Rect);
        lemma_no_rect_ops_document(cfg, pre);
        let last = pages.last();
        assert(forall|s: int, j: int|
            0 <= s < last.streams.len() && 0 <= j < last.streams[s].len() ==> spec_kind_of(
                (#[trigger] last.streams[s][j]).name,
            ) != OpKind::Rect);
        lemma_no_rect_ops_streams(cfg, last.page_number, last.streams);
        assert(pages_rects(cfg, pages) =~= Seq::<RectV>::empty());
    }
}

/// Whether one emitted record is geometrically normalized.
pub open spec fn rect_normalized(r: RectV) -> bool {
    r.y1 <= r.y2 && r.width >= 0 && r.height >= 0
}

/// One step either keeps the rectangle list or appends one normalized
/// record.
proof fn lemma_step_rects(cfg: CfgV, page: int, ops: Seq<OperationV>, i: int, m: MachineV)
    ensures
        step(cfg, page, ops, i, m).rects == m.rects || (step(cfg, page, ops, i, m).rects.len()
            == m.rects.len() + 1 && step(cfg, page, ops, i, m).rects.drop_last() == m.rects
            && rect_normalized(step(cfg, page, ops, i, m).rects.last())),
{
    let op = ops[i];
    if spec_kind_of(op.name) == OpKind::Rect && op.operands.len() >= 4 {
        let x = spec_operand_num(op.operands[0]);
        let y = spec_operand_num(op.operands[1]);
        let w = spec_operand_num(op.operands[2]);
        let h = spec_operand_num(op.operands[3]);
        lemma_geom_normalized(m.ctm, x, y, w, h);
        let s = step(cfg, page, ops, i, m);
        if s.rects != m.rects {
            assert(s.rects.drop_last() =~= m.rects);
        }
    }
}

/// Every kept rectangle has its bottom y at or below its top y, and a
/// nonnegative width and height, whatever the sign of the raw height
/// operand was.
pub proof fn lemma_rects_normalized(cfg: CfgV, page: int, ops: Seq<OperationV>, n: int)
    ensures
        forall|k: int|
            0 <= k < run(cfg, page, ops, n).rects.len() ==> rect_normalized(
                #[trigger] run(cfg, page, ops, n).rects[k],
            ),
    decreases n,
{
    if n > 0 {
        lemma_rects_normalized(cfg, page, ops, n - 1);
        let prev = run(cfg, page, ops, n - 1);
        lemma_step_rects(cfg, page, ops, n - 1, prev);
        let cur = run(cfg, page, ops, n);
        assert forall|k: int| 0 <= k < cur.rects.len() implies rect_normalized(
            #[trigger] cur.rects[k],
        ) by {
            if cur.rects != prev.rects && k < prev.rects.len() {
                assert(cur.rects[k] == cur.rects.drop_last()[k]);
            }
            if cur.rects != prev.rects && k == cur.rects.len() - 1 {
                assert(cur.rects[k] == cur.rects.last());
            }
        }
    }
}

/// Signature-field records have their y corners ordered too: the bottom
/// edge never lies above the top edge, whichever way the annotation
/// declared its rectangle.
pub proof fn lemma_sig_rects_y_normalized(pages: Seq<Seq<crate::latex::AnnotV>>)
    ensures
        forall|k: int|
            0 <= k < crate::latex::spec_detect(pages).len() ==> crate::latex::spec_sig_rect(
                #[trigger] crate::latex::spec_detect(pages)[k],
            ).y1 <= crate::latex::spec_sig_rect(crate::latex::spec_detect(pages)[k]).y2,
{
}

/// A save followed at once by a restore leaves the graphics state, the
/// transform, both stacks and the emitted rectangles exactly as they were
/// before the pair.
pub proof fn lemma_save_restore_roundtrip(cfg: CfgV, page: int, ops: Seq<OperationV>, i: int)
    requires
        0 <= i,
        spec_kind_of(ops[i].name) == OpKind::Save,
        spec_kind_of(ops[i + 1].name) == OpKind::Restore,
    ensures
        run(cfg, page, ops, i + 2).state == run(cfg, page, ops, i).state,
        run(cfg, page, ops, i + 2).ctm == run(cfg, page, ops, i).ctm,
        run(cfg, page, ops, i + 2).gstack == run(cfg, page, ops, i).gstack,
        run(cfg, page, ops, i + 2).tstack == run(cfg, page, ops, i).tstack,
        run(cfg, page, ops, i + 2).rects == run(cfg, page, ops, i).rects,
{
    let m = run(cfg, page, ops, i);
    let m1 = run(cfg, page, ops, i + 1);
    let m2 = run(cfg, page, ops, i + 2);
    assert(m1 == step(cfg, page, ops, i, m));
    assert(m2 == step(cfg, page, ops, i + 1, m1));
    assert(m1.gstack == m.gstack.push(m.state));
    assert(m1.tstack == m.tstack.push(m.ctm));
    assert(m2.gstack =~= m.gstack);
    assert(m2.tstack =~= m.tstack);
}

/// Three concat-matrix operators in a row land on the same transform as
/// one operator carrying their combined product: matrix composition is
/// associative on whole linear factors, so folding one by one and folding
/// the product agree.
pub proof fn lemma_concat_sequence_equals_product(
    cfg: CfgV,
    page: int,
    ops: Seq<OperationV>,
    i: int,
)
    requires
        0 <= i,
        spec_kind_of(ops[i].name) == OpKind::ConcatMatrix,
        spec_kind_of(ops[i + 1].name) == OpKind::ConcatMatrix,
        spec_kind_of(ops[i + 2].name) == OpKind::ConcatMatrix,
        ops[i].operands.len() >= 6,
        ops[i + 1].operands.len() >= 6,
        ops[i + 2].operands.len() >= 6,
        linear_whole(run(cfg, page, ops, i).ctm),
        linear_whole(spec_cm_matrix(ops[i].operands)),
        linear_whole(spec_cm_matrix(ops[i + 1].operands)),
        linear_whole(spec_cm_matrix(ops[i + 2].operands)),
        compose_ok(run(cfg, page, ops, i).ctm, spec_cm_matrix(ops[i].operands)),
        compose_ok(run(cfg, page, ops, i + 1).ctm, spec_cm_matrix(ops[i + 1].operands)),
        compose_ok(run(cfg, page, ops, i + 2).ctm, spec_cm_matrix(ops[i + 2].operands)),
    ensures
        run(cfg, page, ops, i + 3).ctm == compose(
            run(cfg, page, ops, i).ctm,
            compose(
                spec_cm_matrix(ops[i].operands),
                compose(spec_cm_matrix(ops[i + 1].operands), spec_cm_matrix(ops[i + 2].operands)),
            ),
        ),
{
    let c = run(cfg, page, ops, i).ctm;
    let n1 = spec_cm_matrix(ops[i].operands);
    let n2 = spec_cm_matrix(ops[i + 1].operands);
    let n3 = spec_cm_matrix(ops[i + 2].operands);
    assert(run(cfg, page, ops, i + 1) == step(cfg, page, ops, i, run(cfg, page, ops, i)));
    assert(run(cfg, page, ops, i + 2) == step(cfg, page, ops, i + 1, run(cfg, page, ops, i + 1)));
    assert(run(cfg, page, ops, i + 3) == step(cfg, page, ops, i + 2, run(cfg, page, ops, i + 2)));
    assert(run(cfg, page, ops, i + 1).ctm == compose(c, n1));
    assert(run(cfg, page, ops, i + 2).ctm == compose(compose(c, n1), n2));
    assert(run(cfg, page, ops, i + 3).ctm == compose(compose(compose(c, n1), n2), n3));
    lemma_compose_associative(c, n1, n2);
    lemma_compose_linear_whole(n1, n2);
    lemma_compose_associative(c, compose(n1, n2), n3);
    lemma_compose_associative(n1, n2, n3);
}

/// An emitted record's operation index points into the processed prefix.
proof fn lemma_rects_op_bounded(cfg: CfgV, page: int, ops: Seq<OperationV>, n: int)
    requires
        n >= 0,
    ensures
        forall|k: int|
            0 <= k < run(cfg, page, ops, n).rects.len() ==> 0 <= (#[trigger] run(
                cfg,
                page,
                ops,
                n,
            ).rects[k]).operation < n,
    decreases n,
{
    if n > 0 {
        lemma_rects_op_bounded(cfg, page, ops, n - 1);
        let prev = run(cfg, page, ops, n - 1);
        let cur = run(cfg, page, ops, n);
        assert forall|k: int| 0 <= k < cur.rects.len() implies 0 <= (#[trigger] cur.rects[k]).operation
            < n by {
            if k < prev.rects.len() && cur.rects[k] == prev.rects[k] {
            } else {
                assert(cur.rects == prev.rects.push(cur.rects[k]) || cur.rects == prev.rects);
            }
        }
    }
}

/// The paint-mode lookahead agrees on two streams that agree up to a
/// concat-matrix operator, which ends every scan that reaches it.
proof fn lemma_lookahead_prefix(ops1: Seq<OperationV>, ops2: Seq<OperationV>, i: int, k: int)
    requires
        0 <= k <= i,
        i < ops1.len(),
        i < ops2.len(),
        forall|j: int| 0 <= j < i ==> ops2[j] == ops1[j],
        spec_kind_of(ops1[i].name) == OpKind::ConcatMatrix,
        spec_kind_of(ops2[i].name) == OpKind::ConcatMatrix,
    ensures
        spec_lookahead(ops1, k) == spec_lookahead(ops2, k),
    decreases i - k,
{
    if k < i {
        lemma_lookahead_prefix(ops1, ops2, i, k + 1);
    }
}

/// The paint-mode lookahead agrees on two streams whose tails are the same
/// operations, two indices apart.
proof fn lemma_lookahead_suffix(ops1: Seq<OperationV>, ops2: Seq<OperationV>, i: int, k: int)
    requires
        ops1.len() >= 2,
        ops2.len() == ops1.len() - 2,
        0 <= i,
        i + 3 <= k,
        forall|j: int| i + 3 <= j < ops1.len() ==> ops2[j - 2] == ops1[j],
    ensures
        spec_lookahead(ops1, k) == spec_lookahead(ops2, k - 2),
    decreases ops1.len() - k,
{
    if k < ops1.len() {
        lemma_lookahead_suffix(ops1, ops2, i, k + 1);
    }
}

/// The machine ignores operations it has not reached: two streams that
/// agree up to a concat-matrix operator run to the same machine there.
proof fn lemma_run_prefix(
    cfg: CfgV,
    page: int,
    ops1: Seq<OperationV>,
    ops2: Seq<OperationV>,
    i: int,
    n: int,
)
    requires
        0 <= n <= i,
        i < ops1.len(),
        i < ops2.len(),
        forall|j: int| 0 <= j < i ==> ops2[j] == ops1[j],
        spec_kind_of(ops1[i].name) == OpKind::ConcatMatrix,
        spec_kind_of(ops2[i].name) == OpKind::ConcatMatrix,
    ensures
        run(cfg, page, ops1, n) == run(cfg, page, ops2, n),
    decreases n,
{
    if n > 0 {
        lemma_run_prefix(cfg, page, ops1, ops2, i, n - 1);
        if spec_kind_of(ops1[n - 1].name) == OpKind::Rect {
            lemma_lookahead_prefix(ops1, ops2, i, n);
        }
    }
}

/// A record as it appears after two operations before it were spliced out:
/// indices past the splice point shrink by two, nothing else changes.
pub open spec fn rect_shift(i: int, r: RectV) -> RectV {
    if r.operation >= i {
        RectV { operation: r.operation - 2, ..r }
    } else {
        r
    }
}

/// The correspondence between a run of the original stream and a run of
/// the spliced stream: the same machine, record for record, up to the
/// two-index shift.
pub open spec fn sim_at(i: int, m1: MachineV, m2: MachineV) -> bool {
    &&& m2.state == m1.state
    &&& m2.gstack == m1.gstack
    &&& m2.tstack == m1.tstack
    &&& m2.ctm == m1.ctm
    &&& m2.rect_ops == m1.rect_ops
    &&& m2.path_ops == m1.path_ops
    &&& m2.text_ops == m1.text_ops
    &&& m2.other_ops == m1.other_ops
    &&& m2.rects == m1.rects.map_values(|r: RectV| rect_shift(i, r))
}

/// The second stream is the first with three consecutive concat-matrix
/// operators replaced by one carrying their combined product, all four
/// matrices with whole linear factors, every composition representable.
pub open spec fn merged_cm_streams(
    cfg: CfgV,
    page: int,
    ops1: Seq<OperationV>,
    ops2: Seq<OperationV>,
    i: int,
) -> bool {
    &&& 0 <= i
    &&& i + 3 <= ops1.len()
    &&& ops2.len() == ops1.len() - 2
    &&& forall|j: int| 0 <= j < i ==> ops2[j] == ops1[j]
    &&& forall|j: int| i + 3 <= j < ops1.len() ==> ops2[j - 2] == ops1[j]
    &&& spec_kind_of(ops1[i].name) == OpKind::ConcatMatrix
    &&& spec_kind_of(ops1[i + 1].name) == OpKind::ConcatMatrix
    &&& spec_kind_of(ops1[i + 2].name) == OpKind::ConcatMatrix
    &&& ops1[i].operands.len() >= 6
    &&& ops1[i + 1].operands.len() >= 6
    &&& ops1[i + 2].operands.len() >= 6
    &&& spec_kind_of(ops2[i].name) == OpKind::ConcatMatrix
    &&& ops2[i].operands.len() >= 6
    &&& spec_cm_matrix(ops2[i].operands) == compose(
        spec_cm_matrix(ops1[i].operands),
        compose(spec_cm_matrix(ops1[i + 1].operands), spec_cm_matrix(ops1[i + 2].operands)),
    )
    &&& linear_whole(run(cfg, page, ops1, i).ctm)
    &&& linear_whole(spec_cm_matrix(ops1[i].operands))
    &&& linear_whole(spec_cm_matrix(ops1[i + 1].operands))
    &&& linear_whole(spec_cm_matrix(ops1[i + 2].operands))
    &&& compose_ok(run(cfg, page, ops1, i).ctm, spec_cm_matrix(ops1[i].operands))
    &&& compose_ok(run(cfg, page, ops1, i + 1).ctm, spec_cm_matrix(ops1[i + 1].operands))
    &&& compose_ok(run(cfg, page, ops1, i + 2).ctm, spec_cm_matrix(ops1[i + 2].operands))
    &&& compose_ok(run(cfg, page, ops1, i).ctm, spec_cm_matrix(ops2[i].operands))
}

/// Right after the splice the two runs correspond: the three foldings and
/// the single folding land on the same transform, and nothing else of the
/// machine moved but the tally.
proof fn lemma_merge_junction(
    cfg: CfgV,
    page: int,
    ops1: Seq<OperationV>,
    ops2: Seq<OperationV>,
    i: int,
)
    requires
        merged_cm_streams(cfg, page, ops1, ops2, i),
    ensures
        sim_at(i, run(cfg, page, ops1, i + 3), run(cfg, page, ops2, i + 1)),
{
    lemma_run_prefix(cfg, page, ops1, ops2, i, i);
    let c = run(cfg, page, ops1, i).ctm;
    let n1 = spec_cm_matrix(ops1[i].operands);
    let n2 = spec_cm_matrix(ops1[i + 1].operands);
    let n3 = spec_cm_matrix(ops1[i + 2].operands);
    assert(run(cfg, page, ops1, i + 1) == step(cfg, page, ops1, i, run(cfg, page, ops1, i)));
    assert(run(cfg, page, ops1, i + 2) == step(
        cfg,
        page,
        ops1,
        i + 1,
        run(cfg, page, ops1, i + 1),
    ));
    assert(run(cfg, page, ops1, i + 3) == step(
        cfg,
        page,
        ops1,
        i + 2,
        run(cfg, page, ops1, i + 2),
    ));
    assert(run(cfg, page, ops2, i + 1) == step(cfg, page, ops2, i, run(cfg, page, ops2, i)));
    assert(run(cfg, page, ops1, i + 3).ctm == compose(compose(compose(c, n1), n2), n3));
    assert(run(cfg, page, ops2, i + 1).ctm == compose(c, compose(n1, compose(n2, n3))));
    lemma_compose_associative(c, n1, n2);
    lemma_compose_linear_whole(n1, n2);
    lemma_compose_associative(c, compose(n1, n2), n3);
    lemma_compose_associative(n1, n2, n3);
    lemma_rects_op_bounded(cfg, page, ops1, i);
    assert(run(cfg, page, ops2, i + 1).rects =~= run(cfg, page, ops1, i + 3).rects.map_values(
        |r: RectV| rect_shift(i, r),
    ));
}

/// The correspondence carries through the rest of the stream: the
/// operations past the splice are the same two indices apart, and every
/// step moves both machines alike.
proof fn lemma_merge_suffix(
    cfg: CfgV,
    page: int,
    ops1: Seq<OperationV>,
    ops2: Seq<OperationV>,
    i: int,
    j: int,
)
    requires
        merged_cm_streams(cfg, page, ops1, ops2, i),
        i + 3 <= j <= ops1.len(),
    ensures
        sim_at(i, run(cfg, page, ops1, j), run(cfg, page, ops2, j - 2)),
    decreases j,
{
    if j == i + 3 {
        lemma_merge_junction(cfg, page, ops1, ops2, i);
    } else {
        lemma_merge_suffix(cfg, page, ops1, ops2, i, j - 1);
        let m1 = run(cfg, page, ops1, j - 1);
        let m2 = run(cfg, page, ops2, j - 3);
        assert(ops2[j - 3] == ops1[j - 1]);
        assert(run(cfg, page, ops1, j) == step(cfg, page, ops1, j - 1, m1));
        assert(run(cfg, page, ops2, j - 2) == step(cfg, page, ops2, j - 3, m2));
        if spec_kind_of(ops1[j - 1].name) == OpKind::Rect {
            lemma_lookahead_suffix(ops1, ops2, i, j);
        }
        assert(run(cfg, page, ops2, j - 2).rects =~= run(cfg, page, ops1, j).rects.map_values(
            |r: RectV| rect_shift(i, r),
        ));
    }
}

/// Replacing three consecutive concat-matrix operators by one carrying
/// their combined product leaves the analysis unchanged: the runs end in
/// the same machine, and the kept records are identical except that
/// operation indices past the splice are smaller by two.
pub proof fn lemma_merged_concat_stream_same_rects(
    cfg: CfgV,
    page: int,
    ops1: Seq<OperationV>,
    ops2: Seq<OperationV>,
    i: int,
)
    requires
        merged_cm_streams(cfg, page, ops1, ops2, i),
    ensures
        sim_at(i, run(cfg, page, ops1, ops1.len() as int), run(cfg, page, ops2, ops2.len() as int)),
        run(cfg, page, ops2, ops2.len() as int).rects == run(
            cfg,
            page,
            ops1,
            ops1.len() as int,
        ).rects.map_values(|r: RectV| rect_shift(i, r)),
{
    lemma_merge_suffix(cfg, page, ops1, ops2, i, ops1.len() as int);
}

/// The color targets touch only which rectangles are kept: state, stacks,
/// transform and all the tallies evolve the same under any two targets.
pub proof fn lemma_run_cfg_independent(c1: CfgV, c2: CfgV, page: int, ops: Seq<OperationV>, n: int)
    ensures
        run(c1, page, ops, n).state == run(c2, page, ops, n).state,
        run(c1, page, ops, n).gstack == run(c2, page, ops, n).gstack,
        run(c1, page, ops, n).tstack == run(c2, page, ops, n).tstack,
        run(c1, page, ops, n).ctm == run(c2, page, ops, n).ctm,
        run(c1, page, ops, n).rect_ops == run(c2, page, ops, n).rect_ops,
        run(c1, page, ops, n).path_ops == run(c2, page, ops, n).path_ops,
        run(c1, page, ops, n).text_ops == run(c2, page, ops, n).text_ops,
        run(c1, page, ops, n).other_ops == run(c2, page, ops, n).other_ops,
        run(c1, page, ops, n).tally == run(c2, page, ops, n).tally,
    decreases n,
{
    if n > 0 {
        lemma_run_cfg_independent(c1, c2, page, ops, n - 1);
    }
}

/// Supplying no target colors keeps a superset of the rectangles kept
/// under any targets, for the same stream.
pub proof fn lemma_no_filter_superset(cfg: CfgV, page: int, ops: Seq<OperationV>, n: int)
    ensures
        forall|r: RectV|
            run(cfg, page, ops, n).rects.contains(r) ==> run(
                (CfgV { target_fill: None, target_stroke: None }),
                page,
                ops,
                n,
            ).rects.contains(r),
    decreases n,
{
    let c0 = CfgV { target_fill: None, target_stroke: None };
    if n > 0 {
        lemma_no_filter_superset(cfg, page, ops, n - 1);
        lemma_run_cfg_independent(cfg, c0, page, ops, n - 1);
        let p1 = run(cfg, page, ops, n - 1);
        let p0 = run(c0, page, ops, n - 1);
        let m1 = run(cfg, page, ops, n);
        let m0 = run(c0, page, ops, n);
        assert(m1 == step(cfg, page, ops, n - 1, p1));
        assert(m0 == step(c0, page, ops, n - 1, p0));
        assert forall|r: RectV| m1.rects.contains(r) implies m0.rects.contains(r) by {
            let k = choose|k: int| 0 <= k < m1.rects.len() && m1.rects[k] == r;
            if k < p1.rects.len() && m1.rects[k] == p1.rects[k] {
                assert(p1.rects.contains(r));
                assert(p0.rects.contains(r));
                let k0 = choose|k0: int| 0 <= k0 < p0.rects.len() && p0.rects[k0] == r;
                assert(m0.rects[k0] == r);
                assert(m0.rects.contains(r));
            } else {
                assert(m1.rects == p1.rects.push(r));
                assert(m0.rects == p0.rects.push(r));
                assert(m0.rects[p0.rects.len() as int] == r);
                assert(m0.rects.contains(r));
            }
        }
    }
}

} // verus!
