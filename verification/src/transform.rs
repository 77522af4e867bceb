//! The transform engine: 2D affine matrices and their composition.
//!
//! A transform carries six scalars `(a, b, c, d, e, f)` and maps a point by
//! `x' = a*x + c*y + e`, `y' = b*x + d*y + f`.  All six entries are
//! fixed-point values in thousandths of a unit, like every coordinate in
//! this crate, so fractional scales and rotations carry through to later
//! rectangle coordinates.  A product of two fixed-point values is scaled
//! back down by a rounded division, so composition and application stay
//! exact integer arithmetic.

use vstd::prelude::*;

verus! {

/// The fixed-point scale: the entry 1000 stands for the factor 1.
pub const FIXED_SCALE: i64 = 1000;

/// Mathematical model of an affine transform: six unbounded integers in
/// thousandths.
pub struct Affine {
    pub a: int,
    pub b: int,
    pub c: int,
    pub d: int,
    pub e: int,
    pub f: int,
}

/// The identity transform: unit factors, no translation.
pub open spec fn identity_affine() -> Affine {
    Affine { a: 1000, b: 0, c: 0, d: 1000, e: 0, f: 0 }
}

/// A product of two fixed-point values scaled back to thousandths: divided
/// by 1000 and rounded to the nearest whole count, halves away from zero.
pub open spec fn div_by_scale(v: int) -> int {
    if v >= 0 {
        (v + 500) / 1000
    } else {
        -(((-v) + 500) / 1000)
    }
}

/// Scaling down an exact multiple of the scale loses nothing.
pub proof fn lemma_div_by_scale_exact(k: int)
    ensures
        div_by_scale(1000 * k) == k,
{
    if k >= 0 {
        vstd::arithmetic::div_mod::lemma_div_multiples_vanish_fancy(k, 500, 1000);
    } else {
        assert(-(1000 * k) == 1000 * (-k));
        vstd::arithmetic::div_mod::lemma_div_multiples_vanish_fancy(-k, 500, 1000);
    }
}

/// Composition in the PDF convention: `compose(m, n)` applies `n` first and
/// `m` afterwards, which is how a concat-matrix operator folds a new matrix
/// onto the current one.  Products of entries are scaled back down; the
/// translation of `m` is already in thousandths and is added as is.
pub open spec fn compose(m: Affine, n: Affine) -> Affine {
    Affine {
        a: div_by_scale(m.a * n.a + m.c * n.b),
        b: div_by_scale(m.b * n.a + m.d * n.b),
        c: div_by_scale(m.a * n.c + m.c * n.d),
        d: div_by_scale(m.b * n.c + m.d * n.d),
        e: div_by_scale(m.a * n.e + m.c * n.f) + m.e,
        f: div_by_scale(m.b * n.e + m.d * n.f) + m.f,
    }
}

/// The x coordinate of a transformed point, in thousandths.
pub open spec fn apply_x(m: Affine, x: int, y: int) -> int {
    div_by_scale(m.a * x + m.c * y) + m.e
}

/// The y coordinate of a transformed point, in thousandths.
pub open spec fn apply_y(m: Affine, x: int, y: int) -> int {
    div_by_scale(m.b * x + m.d * y) + m.f
}

/// Composing with the identity on either side changes nothing.
pub proof fn lemma_compose_identity(m: Affine)
    ensures
        compose(identity_affine(), m) == m,
        compose(m, identity_affine()) == m,
{
    lemma_div_by_scale_exact(m.a);
    lemma_div_by_scale_exact(m.b);
    lemma_div_by_scale_exact(m.c);
    lemma_div_by_scale_exact(m.d);
    lemma_div_by_scale_exact(m.e);
    lemma_div_by_scale_exact(m.f);
    lemma_div_by_scale_exact(0);
    assert(1000 * m.a == m.a * 1000);
    assert(1000 * m.b == m.b * 1000);
    assert(1000 * m.c == m.c * 1000);
    assert(1000 * m.d == m.d * 1000);
    assert(m.a * 0 == 0) by (nonlinear_arith);
    assert(m.b * 0 == 0) by (nonlinear_arith);
    assert(m.c * 0 == 0) by (nonlinear_arith);
    assert(m.d * 0 == 0) by (nonlinear_arith);
    assert(0 * m.a == 0) by (nonlinear_arith);
    assert(0 * m.b == 0) by (nonlinear_arith);
    assert(0 * m.c == 0) by (nonlinear_arith);
    assert(0 * m.d == 0) by (nonlinear_arith);
    assert(0 * m.e == 0) by (nonlinear_arith);
    assert(0 * m.f == 0) by (nonlinear_arith);
}

/// Whether the linear part of a transform holds whole factors: each of
/// `a`, `b`, `c`, `d` a multiple of the scale.  On such transforms the
/// scaling division in a composition is exact.
pub open spec fn linear_whole(m: Affine) -> bool {
    &&& m.a % 1000 == 0
    &&& m.b % 1000 == 0
    &&& m.c % 1000 == 0
    &&& m.d % 1000 == 0
}

/// On whole linear parts a composition computes exactly: every entry is
/// the scale times the product of the whole factors, and the whole-factor
/// property is preserved.
proof fn lemma_compose_whole(m: Affine, n: Affine)
    requires
        linear_whole(m),
        linear_whole(n),
    ensures
        compose(m, n) == (Affine {
            a: 1000 * ((m.a / 1000) * (n.a / 1000) + (m.c / 1000) * (n.b / 1000)),
            b: 1000 * ((m.b / 1000) * (n.a / 1000) + (m.d / 1000) * (n.b / 1000)),
            c: 1000 * ((m.a / 1000) * (n.c / 1000) + (m.c / 1000) * (n.d / 1000)),
            d: 1000 * ((m.b / 1000) * (n.c / 1000) + (m.d / 1000) * (n.d / 1000)),
            e: (m.a / 1000) * n.e + (m.c / 1000) * n.f + m.e,
            f: (m.b / 1000) * n.e + (m.d / 1000) * n.f + m.f,
        }),
        linear_whole(compose(m, n)),
{
    let ma = m.a / 1000;
    let mb = m.b / 1000;
    let mc = m.c / 1000;
    let md = m.d / 1000;
    let na = n.a / 1000;
    let nb = n.b / 1000;
    let nc = n.c / 1000;
    let nd = n.d / 1000;
    vstd::arithmetic::div_mod::lemma_fundamental_div_mod(m.a, 1000);
    vstd::arithmetic::div_mod::lemma_fundamental_div_mod(m.b, 1000);
    vstd::arithmetic::div_mod::lemma_fundamental_div_mod(m.c, 1000);
    vstd::arithmetic::div_mod::lemma_fundamental_div_mod(m.d, 1000);
    vstd::arithmetic::div_mod::lemma_fundamental_div_mod(n.a, 1000);
    vstd::arithmetic::div_mod::lemma_fundamental_div_mod(n.b, 1000);
    vstd::arithmetic::div_mod::lemma_fundamental_div_mod(n.c, 1000);
    vstd::arithmetic::div_mod::lemma_fundamental_div_mod(n.d, 1000);
    assert(m.a * n.a + m.c * n.b == 1000 * (1000 * (ma * na + mc * nb))) by (nonlinear_arith)
        requires
            m.a == 1000 * ma,
            m.c == 1000 * mc,
            n.a == 1000 * na,
            n.b == 1000 * nb,
    ;
    assert(m.b * n.a + m.d * n.b == 1000 * (1000 * (mb * na + md * nb))) by (nonlinear_arith)
        requires
            m.b == 1000 * mb,
            m.d == 1000 * md,
            n.a == 1000 * na,
            n.b == 1000 * nb,
    ;
    assert(m.a * n.c + m.c * n.d == 1000 * (1000 * (ma * nc + mc * nd))) by (nonlinear_arith)
        requires
            m.a == 1000 * ma,
            m.c == 1000 * mc,
            n.c == 1000 * nc,
            n.d == 1000 * nd,
    ;
    assert(m.b * n.c + m.d * n.d == 1000 * (1000 * (mb * nc + md * nd))) by (nonlinear_arith)
        requires
            m.b == 1000 * mb,
            m.d == 1000 * md,
            n.c == 1000 * nc,
            n.d == 1000 * nd,
    ;
    assert(m.a * n.e + m.c * n.f == 1000 * (ma * n.e + mc * n.f)) by (nonlinear_arith)
        requires
            m.a == 1000 * ma,
            m.c == 1000 * mc,
    ;
    assert(m.b * n.e + m.d * n.f == 1000 * (mb * n.e + md * n.f)) by (nonlinear_arith)
        requires
            m.b == 1000 * mb,
            m.d == 1000 * md,
    ;
    lemma_div_by_scale_exact(1000 * (ma * na + mc * nb));
    lemma_div_by_scale_exact(1000 * (mb * na + md * nb));
    lemma_div_by_scale_exact(1000 * (ma * nc + mc * nd));
    lemma_div_by_scale_exact(1000 * (mb * nc + md * nd));
    lemma_div_by_scale_exact(ma * n.e + mc * n.f);
    lemma_div_by_scale_exact(mb * n.e + md * n.f);
    vstd::arithmetic::div_mod::lemma_mod_multiples_basic(ma * na + mc * nb, 1000);
    vstd::arithmetic::div_mod::lemma_mod_multiples_basic(mb * na + md * nb, 1000);
    vstd::arithmetic::div_mod::lemma_mod_multiples_basic(ma * nc + mc * nd, 1000);
    vstd::arithmetic::div_mod::lemma_mod_multiples_basic(mb * nc + md * nd, 1000);
}

/// Whole linear factors are closed under composition.
pub proof fn lemma_compose_linear_whole(m: Affine, n: Affine)
    requires
        linear_whole(m),
        linear_whole(n),
    ensures
        linear_whole(compose(m, n)),
{
    lemma_compose_whole(m, n);
}

/// One entry of the associativity proof: the bilinear form that every entry
/// of a threefold composition reduces to.
proof fn lemma_compose_entry(x1: int, x2: int, y1: int, y2: int, y3: int, y4: int, z1: int, z2: int)
    ensures
        (x1 * y1 + x2 * y2) * z1 + (x1 * y3 + x2 * y4) * z2 == x1 * (y1 * z1 + y3 * z2) + x2 * (y2
            * z1 + y4 * z2),
{
    vstd::arithmetic::mul::lemma_mul_is_distributive_add_other_way(z1, x1 * y1, x2 * y2);
    vstd::arithmetic::mul::lemma_mul_is_distributive_add_other_way(z2, x1 * y3, x2 * y4);
    vstd::arithmetic::mul::lemma_mul_is_associative(x1, y1, z1);
    vstd::arithmetic::mul::lemma_mul_is_associative(x2, y2, z1);
    vstd::arithmetic::mul::lemma_mul_is_associative(x1, y3, z2);
    vstd::arithmetic::mul::lemma_mul_is_associative(x2, y4, z2);
    vstd::arithmetic::mul::lemma_mul_is_distributive_add(x1, y1 * z1, y3 * z2);
    vstd::arithmetic::mul::lemma_mul_is_distributive_add(x2, y2 * z1, y4 * z2);
}

/// Composition is associative on transforms whose linear parts hold whole
/// factors: folding three concat-matrix operators one by one yields the
/// same transform as folding their single combined product.  On fractional
/// factors the scaling division rounds, and the two foldings can differ.
pub proof fn lemma_compose_associative(x: Affine, y: Affine, z: Affine)
    requires
        linear_whole(x),
        linear_whole(y),
        linear_whole(z),
    ensures
        compose(compose(x, y), z) == compose(x, compose(y, z)),
{
    let xa = x.a / 1000;
    let xb = x.b / 1000;
    let xc = x.c / 1000;
    let xd = x.d / 1000;
    let ya = y.a / 1000;
    let yb = y.b / 1000;
    let yc = y.c / 1000;
    let yd = y.d / 1000;
    let za = z.a / 1000;
    let zb = z.b / 1000;
    let zc = z.c / 1000;
    let zd = z.d / 1000;
    lemma_compose_whole(x, y);
    lemma_compose_whole(y, z);
    let xy = compose(x, y);
    let yz = compose(y, z);
    lemma_compose_whole(xy, z);
    lemma_compose_whole(x, yz);
    vstd::arithmetic::div_mod::lemma_div_multiples_vanish(xa * ya + xc * yb, 1000);
    vstd::arithmetic::div_mod::lemma_div_multiples_vanish(xb * ya + xd * yb, 1000);
    vstd::arithmetic::div_mod::lemma_div_multiples_vanish(xa * yc + xc * yd, 1000);
    vstd::arithmetic::div_mod::lemma_div_multiples_vanish(xb * yc + xd * yd, 1000);
    vstd::arithmetic::div_mod::lemma_div_multiples_vanish(ya * za + yc * zb, 1000);
    vstd::arithmetic::div_mod::lemma_div_multiples_vanish(yb * za + yd * zb, 1000);
    vstd::arithmetic::div_mod::lemma_div_multiples_vanish(ya * zc + yc * zd, 1000);
    vstd::arithmetic::div_mod::lemma_div_multiples_vanish(yb * zc + yd * zd, 1000);
    lemma_compose_entry(xa, xc, ya, yb, yc, yd, za, zb);
    lemma_compose_entry(xb, xd, ya, yb, yc, yd, za, zb);
    lemma_compose_entry(xa, xc, ya, yb, yc, yd, zc, zd);
    lemma_compose_entry(xb, xd, ya, yb, yc, yd, zc, zd);
    lemma_compose_entry(xa, xc, ya, yb, yc, yd, z.e, z.f);
    lemma_compose_entry(xb, xd, ya, yb, yc, yd, z.e, z.f);
    vstd::arithmetic::mul::lemma_mul_is_distributive_add(xa, ya * z.e + yc * z.f, y.e);
    vstd::arithmetic::mul::lemma_mul_is_distributive_add(xc, yb * z.e + yd * z.f, y.f);
    vstd::arithmetic::mul::lemma_mul_is_distributive_add(xb, ya * z.e + yc * z.f, y.e);
    vstd::arithmetic::mul::lemma_mul_is_distributive_add(xd, yb * z.e + yd * z.f, y.f);
}

/// Every entry of the compose guard bound: entries at most this magnitude
/// take part in a composition or application without overflowing the wide
/// intermediate arithmetic.
pub const ENTRY_LIMIT: i64 = 0x4000_0000_0000_0000;

/// Bound kept for transformed coordinates, chosen so that differences of two
/// transformed coordinates still fit an `i64`.
pub const POINT_LIMIT: i64 = 0x2000_0000_0000_0000;

/// Whether every entry of a model transform fits under the compose guard.
pub open spec fn affine_bounded(m: Affine) -> bool {
    &&& -(ENTRY_LIMIT as int) <= m.a <= ENTRY_LIMIT as int
    &&& -(ENTRY_LIMIT as int) <= m.b <= ENTRY_LIMIT as int
    &&& -(ENTRY_LIMIT as int) <= m.c <= ENTRY_LIMIT as int
    &&& -(ENTRY_LIMIT as int) <= m.d <= ENTRY_LIMIT as int
    &&& -(ENTRY_LIMIT as int) <= m.e <= ENTRY_LIMIT as int
    &&& -(ENTRY_LIMIT as int) <= m.f <= ENTRY_LIMIT as int
}

/// Whether every entry of a model transform fits an `i64`.
pub open spec fn affine_in_i64(m: Affine) -> bool {
    &&& i64::MIN <= m.a <= i64::MAX
    &&& i64::MIN <= m.b <= i64::MAX
    &&& i64::MIN <= m.c <= i64::MAX
    &&& i64::MIN <= m.d <= i64::MAX
    &&& i64::MIN <= m.e <= i64::MAX
    &&& i64::MIN <= m.f <= i64::MAX
}

/// Whether a composition of two bounded-entry transforms succeeds: both
/// inputs under the guard and the exact result representable.
pub open spec fn compose_ok(m: Affine, n: Affine) -> bool {
    &&& affine_bounded(m)
    &&& affine_bounded(n)
    &&& affine_in_i64(compose(m, n))
}

/// The product of two values under the compose guard stays well inside the
/// wide intermediate integer range.
pub(crate) proof fn lemma_prod_in_range(x: int, y: int)
    requires
        -(ENTRY_LIMIT as int) <= x <= ENTRY_LIMIT as int,
        -(ENTRY_LIMIT as int) <= y <= ENTRY_LIMIT as int,
    ensures
        -0x1000_0000_0000_0000_0000_0000_0000_0000 <= x * y
            <= 0x1000_0000_0000_0000_0000_0000_0000_0000,
{
    assert(-0x1000_0000_0000_0000_0000_0000_0000_0000 <= x * y
        <= 0x1000_0000_0000_0000_0000_0000_0000_0000) by (nonlinear_arith)
        requires
            -0x4000_0000_0000_0000 <= x <= 0x4000_0000_0000_0000,
            -0x4000_0000_0000_0000 <= y <= 0x4000_0000_0000_0000,
    ;
}

/// Scaling down keeps the magnitude close to the input's.
pub(crate) proof fn lemma_div_by_scale_bound(v: int, b: int)
    requires
        -b <= v <= b,
        0 <= b,
    ensures
        -(b + 500) <= div_by_scale(v) <= b + 500,
{
    if v >= 0 {
        vstd::arithmetic::div_mod::lemma_div_nonincreasing(v + 500, 1000);
        vstd::arithmetic::div_mod::lemma_div_pos_is_pos(v + 500, 1000);
    } else {
        vstd::arithmetic::div_mod::lemma_div_nonincreasing((-v) + 500, 1000);
        vstd::arithmetic::div_mod::lemma_div_pos_is_pos((-v) + 500, 1000);
    }
}

/// Executable scaling division over the wide intermediate type.
pub(crate) fn div_scale_i128(v: i128) -> (r: i128)
    requires
        v != i128::MIN,
    ensures
        r as int == div_by_scale(v as int),
{
    if v >= 0 {
        ((v as u128 + 500) / 1000) as i128
    } else {
        let mag = (-v) as u128;
        -(((mag + 500) / 1000) as i128)
    }
}

/// Executable affine transform with representable entries.
#[derive(Clone, Copy, Debug)]
pub struct Transform {
    pub a: i64,
    pub b: i64,
    pub c: i64,
    pub d: i64,
    pub e: i64,
    pub f: i64,
}

impl View for Transform {
    type V = Affine;

    open spec fn view(&self) -> Affine {
        Affine {
            a: self.a as int,
            b: self.b as int,
            c: self.c as int,
            d: self.d as int,
            e: self.e as int,
            f: self.f as int,
        }
    }
}

impl Transform {
    /// The identity transform, the state a content stream starts in.
    pub fn identity() -> (r: Transform)
        ensures
            r@ == identity_affine(),
    {
        Transform { a: 1000, b: 0, c: 0, d: 1000, e: 0, f: 0 }
    }

    /// Exact composition, refused when an entry would not be representable.
    pub fn checked_compose(&self, other: &Transform) -> (r: Option<Transform>)
        ensures
            compose_ok(self@, other@) ==> (r is Some && r->Some_0@ == compose(self@, other@)),
            !compose_ok(self@, other@) ==> r is None,
    {
        if self.a < -ENTRY_LIMIT || self.a > ENTRY_LIMIT || self.b < -ENTRY_LIMIT || self.b
            > ENTRY_LIMIT || self.c < -ENTRY_LIMIT || self.c > ENTRY_LIMIT || self.d
            < -ENTRY_LIMIT || self.d > ENTRY_LIMIT || self.e < -ENTRY_LIMIT || self.e
            > ENTRY_LIMIT || self.f < -ENTRY_LIMIT || self.f > ENTRY_LIMIT {
            return None;
        }
        if other.a < -ENTRY_LIMIT || other.a > ENTRY_LIMIT || other.b < -ENTRY_LIMIT || other.b
            > ENTRY_LIMIT || other.c < -ENTRY_LIMIT || other.c > ENTRY_LIMIT || other.d
            < -ENTRY_LIMIT || other.d > ENTRY_LIMIT || other.e < -ENTRY_LIMIT || other.e
            > ENTRY_LIMIT || other.f < -ENTRY_LIMIT || other.f > ENTRY_LIMIT {
            return None;
        }
        proof {
            lemma_prod_in_range(self.a as int, other.a as int);
            lemma_prod_in_range(self.c as int, other.b as int);
            lemma_prod_in_range(self.b as int, other.a as int);
            lemma_prod_in_range(self.d as int, other.b as int);
            lemma_prod_in_range(self.a as int, other.c as int);
            lemma_prod_in_range(self.c as int, other.d as int);
            lemma_prod_in_range(self.b as int, other.c as int);
            lemma_prod_in_range(self.d as int, other.d as int);
            lemma_prod_in_range(self.a as int, other.e as int);
            lemma_prod_in_range(self.c as int, other.f as int);
            lemma_prod_in_range(self.b as int, other.e as int);
            lemma_prod_in_range(self.d as int, other.f as int);
        }
        let a = div_scale_i128(self.a as i128 * other.a as i128 + self.c as i128 * other.b as i128);
        let b = div_scale_i128(self.b as i128 * other.a as i128 + self.d as i128 * other.b as i128);
        let c = div_scale_i128(self.a as i128 * other.c as i128 + self.c as i128 * other.d as i128);
        let d = div_scale_i128(self.b as i128 * other.c as i128 + self.d as i128 * other.d as i128);
        proof {
            lemma_div_by_scale_bound(
                self.a as int * other.e as int + self.c as int * other.f as int,
                0x2000_0000_0000_0000_0000_0000_0000_0000,
            );
            lemma_div_by_scale_bound(
                self.b as int * other.e as int + self.d as int * other.f as int,
                0x2000_0000_0000_0000_0000_0000_0000_0000,
            );
        }
        let e = div_scale_i128(self.a as i128 * other.e as i128 + self.c as i128 * other.f as i128)
            + self.e as i128;
        let f = div_scale_i128(self.b as i128 * other.e as i128 + self.d as i128 * other.f as i128)
            + self.f as i128;
        if a < i64::MIN as i128 || a > i64::MAX as i128 || b < i64::MIN as i128 || b
            > i64::MAX as i128 || c < i64::MIN as i128 || c > i64::MAX as i128 || d
            < i64::MIN as i128 || d > i64::MAX as i128 || e < i64::MIN as i128 || e
            > i64::MAX as i128 || f < i64::MIN as i128 || f > i64::MAX as i128 {
            return None;
        }
        Some(
            Transform {
                a: a as i64,
                b: b as i64,
                c: c as i64,
                d: d as i64,
                e: e as i64,
                f: f as i64,
            },
        )
    }
}

} // verus!
