//! Rectangle geometry: corner transformation and normalization.
//!
//! A kept rectangle's corners run through the current transform, and the
//! result is normalized so that the bottom corner's y is not above the top
//! corner's.  A rectangle whose transformed coordinates would not be
//! representable is not emitted.

use vstd::prelude::*;
use crate::transform::{
    Affine, Transform, apply_x, apply_y, affine_bounded, lemma_prod_in_range,
    lemma_div_by_scale_bound, div_scale_i128, ENTRY_LIMIT, POINT_LIMIT,
};

verus! {

/// The geometry of one emitted rectangle: position, absolute size, and the
/// normalized two-corner box.
pub struct RectGeom {
    pub pos_x: i64,
    pub pos_y: i64,
    pub width: i64,
    pub height: i64,
    pub x1: i64,
    pub y1: i64,
    pub x2: i64,
    pub y2: i64,
}

/// Model of a rectangle's geometry.
pub struct RectGeomV {
    pub pos_x: int,
    pub pos_y: int,
    pub width: int,
    pub height: int,
    pub x1: int,
    pub y1: int,
    pub x2: int,
    pub y2: int,
}

impl View for RectGeom {
    type V = RectGeomV;

    open spec fn view(&self) -> RectGeomV {
        RectGeomV {
            pos_x: self.pos_x as int,
            pos_y: self.pos_y as int,
            width: self.width as int,
            height: self.height as int,
            x1: self.x1 as int,
            y1: self.y1 as int,
            x2: self.x2 as int,
            y2: self.y2 as int,
        }
    }
}

/// The view of an optional geometry.
pub open spec fn opt_geom_view(o: Option<RectGeom>) -> Option<RectGeomV> {
    match o {
        Some(g) => Some(g@),
        None => None,
    }
}

/// Whether a raw coordinate takes part in a transformation.
pub open spec fn coord_ok(v: int) -> bool {
    -(ENTRY_LIMIT as int) <= v <= ENTRY_LIMIT as int
}

/// Whether a transformed coordinate is kept.
pub open spec fn point_ok(v: int) -> bool {
    -(POINT_LIMIT as int) <= v <= POINT_LIMIT as int
}

/// The geometry of the rectangle `(x, y, w, h)` under the transform `m`:
/// both corners transformed, the y corners ordered, the size taken absolute.
/// `None` when a coordinate falls outside the representable range.
pub open spec fn spec_transform_rect(m: Affine, x: int, y: int, w: int, h: int) -> Option<
    RectGeomV,
> {
    if !(affine_bounded(m) && coord_ok(x) && coord_ok(y) && coord_ok(x + w) && coord_ok(y + h)) {
        None
    } else {
        let tx = apply_x(m, x, y);
        let ty = apply_y(m, x, y);
        let tx2 = apply_x(m, x + w, y + h);
        let ty2 = apply_y(m, x + w, y + h);
        if !(point_ok(tx) && point_ok(ty) && point_ok(tx2) && point_ok(ty2)) {
            None
        } else {
            let ylo = if ty <= ty2 {
                ty
            } else {
                ty2
            };
            let yhi = if ty <= ty2 {
                ty2
            } else {
                ty
            };
            Some(
                RectGeomV {
                    pos_x: tx,
                    pos_y: ty,
                    width: if tx2 - tx >= 0 {
                        tx2 - tx
                    } else {
                        tx - tx2
                    },
                    height: yhi - ylo,
                    x1: tx,
                    y1: ylo,
                    x2: tx2,
                    y2: yhi,
                },
            )
        }
    }
}

/// Transforms and normalizes one rectangle.
pub fn transform_rect(m: &Transform, x: i64, y: i64, w: i64, h: i64) -> (r: Option<RectGeom>)
    ensures
        opt_geom_view(r) == spec_transform_rect(m@, x as int, y as int, w as int, h as int),
{
    if m.a < -ENTRY_LIMIT || m.a > ENTRY_LIMIT || m.b < -ENTRY_LIMIT || m.b > ENTRY_LIMIT || m.c
        < -ENTRY_LIMIT || m.c > ENTRY_LIMIT || m.d < -ENTRY_LIMIT || m.d > ENTRY_LIMIT || m.e
        < -ENTRY_LIMIT || m.e > ENTRY_LIMIT || m.f < -ENTRY_LIMIT || m.f > ENTRY_LIMIT {
        return None;
    }
    if x < -ENTRY_LIMIT || x > ENTRY_LIMIT || y < -ENTRY_LIMIT || y > ENTRY_LIMIT {
        return None;
    }
    let xw = x as i128 + w as i128;
    let yh = y as i128 + h as i128;
    let lim = ENTRY_LIMIT as i128;
    if xw < -lim || xw > lim || yh < -lim || yh > lim {
        return None;
    }
    proof {
        lemma_prod_in_range(m.a as int, x as int);
        lemma_prod_in_range(m.c as int, y as int);
        lemma_prod_in_range(m.b as int, x as int);
        lemma_prod_in_range(m.d as int, y as int);
        lemma_prod_in_range(m.a as int, xw as int);
        lemma_prod_in_range(m.c as int, yh as int);
        lemma_prod_in_range(m.b as int, xw as int);
        lemma_prod_in_range(m.d as int, yh as int);
        lemma_div_by_scale_bound(
            m.a as int * x as int + m.c as int * y as int,
            0x2000_0000_0000_0000_0000_0000_0000_0000,
        );
        lemma_div_by_scale_bound(
            m.b as int * x as int + m.d as int * y as int,
            0x2000_0000_0000_0000_0000_0000_0000_0000,
        );
        lemma_div_by_scale_bound(
            m.a as int * xw as int + m.c as int * yh as int,
            0x2000_0000_0000_0000_0000_0000_0000_0000,
        );
        lemma_div_by_scale_bound(
            m.b as int * xw as int + m.d as int * yh as int,
            0x2000_0000_0000_0000_0000_0000_0000_0000,
        );
    }
    let tx = div_scale_i128(m.a as i128 * x as i128 + m.c as i128 * y as i128) + m.e as i128;
    let ty = div_scale_i128(m.b as i128 * x as i128 + m.d as i128 * y as i128) + m.f as i128;
    let tx2 = div_scale_i128(m.a as i128 * xw + m.c as i128 * yh) + m.e as i128;
    let ty2 = div_scale_i128(m.b as i128 * xw + m.d as i128 * yh) + m.f as i128;
    let plim = POINT_LIMIT as i128;
    if tx < -plim || tx > plim || ty < -plim || ty > plim || tx2 < -plim || tx2 > plim || ty2
        < -plim || ty2 > plim {
        return None;
    }
    let aw = (tx2 - tx) as i64;
    let ylo = if ty <= ty2 {
        ty as i64
    } else {
        ty2 as i64
    };
    let yhi = if ty <= ty2 {
        ty2 as i64
    } else {
        ty as i64
    };
    Some(
        RectGeom {
            pos_x: tx as i64,
            pos_y: ty as i64,
            width: if aw >= 0 {
                aw
            } else {
                -aw
            },
            height: yhi - ylo,
            x1: tx as i64,
            y1: ylo,
            x2: tx2 as i64,
            y2: yhi,
        },
    )
}

/// An emitted geometry always has its bottom edge at or below its top edge.
pub proof fn lemma_geom_normalized(m: Affine, x: int, y: int, w: int, h: int)
    ensures
        spec_transform_rect(m, x, y, w, h) matches Some(g) ==> g.y1 <= g.y2 && g.width >= 0
            && g.height >= 0,
{
}

} // verus!
