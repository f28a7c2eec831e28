//! The 2D affine transform: six coefficients `(a, b, c, d, e, f)` standing
//! for the matrix
//!
//! ```text
//! | a  c  e |
//! | b  d  f |
//! | 0  0  1 |
//! ```
//!
//! Every operation is pure and returns a new value. The mathematical model
//! is [`Affine`], the same map over unbounded integers; each executable
//! operation is proved to agree with the model, and the algebraic laws
//! (identity, associativity, the reading of translate/scale/rotate as
//! right-composition) are proved of the model itself.

use vstd::prelude::*;

verus! {

/// An affine map over unbounded integers: the specification-level model
/// of a [`Matrix`].
#[verifier::ext_equal]
pub ghost struct Affine {
    pub a: int,
    pub b: int,
    pub c: int,
    pub d: int,
    pub e: int,
    pub f: int,
}

impl Affine {
    /// The neutral map.
    pub open spec fn identity() -> Affine {
        Affine { a: 1, b: 0, c: 0, d: 1, e: 0, f: 0 }
    }

    /// A pure translation by `(tx, ty)`.
    pub open spec fn translation(tx: int, ty: int) -> Affine {
        Affine { a: 1, b: 0, c: 0, d: 1, e: tx, f: ty }
    }

    /// A pure scaling by `(sx, sy)`.
    pub open spec fn scaling(sx: int, sy: int) -> Affine {
        Affine { a: sx, b: 0, c: 0, d: sy, e: 0, f: 0 }
    }

    /// A pure rotation whose angle has cosine `cos` and sine `sin`
    /// (counter-clockwise under the sign layout of the matrix above).
    pub open spec fn rotation(cos: int, sin: int) -> Affine {
        Affine { a: cos, b: sin, c: -sin, d: cos, e: 0, f: 0 }
    }

    /// Matrix multiplication `self * other`: the map that applies `other`
    /// first, then `self`.
    pub open spec fn compose(self, other: Affine) -> Affine {
        Affine {
            a: self.a * other.a + self.c * other.b,
            b: self.b * other.a + self.d * other.b,
            c: self.a * other.c + self.c * other.d,
            d: self.b * other.c + self.d * other.d,
            e: self.a * other.e + self.c * other.f + self.e,
            f: self.b * other.e + self.d * other.f + self.f,
        }
    }

    /// `self` with a translation by `(tx, ty)` composed on the right:
    /// the offset moves by `(tx, ty)` expressed in `self`'s basis, the
    /// linear part is unchanged.
    pub open spec fn translated(self, tx: int, ty: int) -> Affine {
        Affine {
            e: self.e + tx * self.a + ty * self.c,
            f: self.f + tx * self.b + ty * self.d,
            ..self
        }
    }

    /// `self` with a scaling by `(sx, sy)` composed on the right: the
    /// linear part scales column-wise, the offset is unchanged.
    pub open spec fn scaled(self, sx: int, sy: int) -> Affine {
        Affine {
            a: self.a * sx,
            b: self.b * sx,
            c: self.c * sy,
            d: self.d * sy,
            ..self
        }
    }

    /// `self` with a rotation composed on the right, the rotation given
    /// by the cosine and sine of its angle; the offset is unchanged.
    pub open spec fn rotated(self, cos: int, sin: int) -> Affine {
        Affine {
            a: self.a * cos + self.c * sin,
            b: self.b * cos + self.d * sin,
            c: self.c * cos - self.a * sin,
            d: self.d * cos - self.b * sin,
            ..self
        }
    }

    /// The image of the point `(x, y)` under the map.
    pub open spec fn apply(self, x: int, y: int) -> (int, int) {
        (self.a * x + self.c * y + self.e, self.b * x + self.d * y + self.f)
    }
}

/// One row of the associativity argument: multiplying out a row of
/// `(x * y) * z` and of `x * (y * z)` gives the same polynomial.
/// Right distributivity, the one nonlinear step the row lemma needs.
proof fn lemma_dist_right(x: int, y: int, z: int)
    ensures
        (x + y) * z == x * z + y * z,
{
    assert((x + y) * z == x * z + y * z) by (nonlinear_arith);
}

/// Left distributivity over a three-term sum.
proof fn lemma_dist_left(x: int, a: int, b: int, c: int)
    ensures
        x * (a + b + c) == x * a + x * b + x * c,
{
    assert(x * (a + b + c) == x * a + x * b + x * c) by (nonlinear_arith);
}

/// Associativity of the product itself.
proof fn lemma_prod_assoc(x: int, y: int, z: int)
    ensures
        (x * y) * z == x * (y * z),
{
    assert((x * y) * z == x * (y * z)) by (nonlinear_arith);
}

proof fn lemma_bilinear(p: int, q: int, m1: int, m2: int, u: int, v: int, n1: int, n2: int, s: int, t: int, w: int)
    ensures
        (p * m1 + q * m2) * u + (p * n1 + q * n2) * v + (p * s + q * t + w)
            == p * (m1 * u + n1 * v + s) + q * (m2 * u + n2 * v + t) + w,
{
    lemma_dist_right(p * m1, q * m2, u);
    lemma_dist_right(p * n1, q * n2, v);
    lemma_prod_assoc(p, m1, u);
    lemma_prod_assoc(q, m2, u);
    lemma_prod_assoc(p, n1, v);
    lemma_prod_assoc(q, n2, v);
    lemma_dist_left(p, m1 * u, n1 * v, s);
    lemma_dist_left(q, m2 * u, n2 * v, t);
}

/// Products commute; stated once for the lemmas that reorder factors.
proof fn lemma_prod_comm(x: int, y: int)
    ensures
        x * y == y * x,
{
    assert(x * y == y * x) by (nonlinear_arith);
}

/// Negating one factor negates the product.
proof fn lemma_prod_neg(x: int, y: int)
    ensures
        x * (-y) == -(x * y),
{
    assert(x * (-y) == -(x * y)) by (nonlinear_arith);
}

/// Identity law: composing with the neutral map on either side changes
/// nothing.
pub proof fn lemma_identity_neutral(m: Affine)
    ensures
        m.compose(Affine::identity()) == m,
        Affine::identity().compose(m) == m,
{
    assert(m.compose(Affine::identity()) =~= m);
    assert(Affine::identity().compose(m) =~= m);
}

/// Associativity of composition: `(x * y) * z == x * (y * z)`.
pub proof fn lemma_compose_assoc(x: Affine, y: Affine, z: Affine)
    ensures
        x.compose(y).compose(z) == x.compose(y.compose(z)),
{
    let l = x.compose(y).compose(z);
    let r = x.compose(y.compose(z));
    lemma_bilinear(x.a, x.c, y.a, y.b, z.a, z.b, y.c, y.d, 0, 0, 0);
    lemma_bilinear(x.b, x.d, y.a, y.b, z.a, z.b, y.c, y.d, 0, 0, 0);
    lemma_bilinear(x.a, x.c, y.a, y.b, z.c, z.d, y.c, y.d, 0, 0, 0);
    lemma_bilinear(x.b, x.d, y.a, y.b, z.c, z.d, y.c, y.d, 0, 0, 0);
    lemma_bilinear(x.a, x.c, y.a, y.b, z.e, z.f, y.c, y.d, y.e, y.f, x.e);
    lemma_bilinear(x.b, x.d, y.a, y.b, z.e, z.f, y.c, y.d, y.e, y.f, x.f);
    assert(l =~= r);
}

/// The neutral map moves no point.
pub proof fn lemma_apply_identity(x: int, y: int)
    ensures
        Affine::identity().apply(x, y) == (x, y),
{
}

/// `translated` is exactly right-composition with a pure translation.
pub proof fn lemma_translated_is_compose(m: Affine, tx: int, ty: int)
    ensures
        m.translated(tx, ty) == m.compose(Affine::translation(tx, ty)),
{
    lemma_prod_comm(tx, m.a);
    lemma_prod_comm(ty, m.c);
    lemma_prod_comm(tx, m.b);
    lemma_prod_comm(ty, m.d);
    assert(m.translated(tx, ty) =~= m.compose(Affine::translation(tx, ty)));
}

/// `scaled` is exactly right-composition with a pure scaling.
pub proof fn lemma_scaled_is_compose(m: Affine, sx: int, sy: int)
    ensures
        m.scaled(sx, sy) == m.compose(Affine::scaling(sx, sy)),
{
    assert(m.scaled(sx, sy) =~= m.compose(Affine::scaling(sx, sy)));
}

/// `rotated` is exactly right-composition with a pure rotation.
pub proof fn lemma_rotated_is_compose(m: Affine, cos: int, sin: int)
    ensures
        m.rotated(cos, sin) == m.compose(Affine::rotation(cos, sin)),
{
    lemma_prod_neg(m.a, sin);
    lemma_prod_neg(m.b, sin);
    assert(m.rotated(cos, sin) =~= m.compose(Affine::rotation(cos, sin)));
}

/// Rotating by a zero angle (cosine 1, sine 0) changes nothing.
pub proof fn lemma_rotate_zero(m: Affine)
    ensures
        m.rotated(1, 0) == m,
{
    assert(m.rotated(1, 0) =~= m);
}

/// Whether `x` fits in an `i64`; the machine-width side condition of the
/// executable operations.
pub open spec fn fits_i64(x: int) -> bool {
    i64::MIN <= x <= i64::MAX
}

/// Every intermediate value of `Matrix::compose` on these operands fits
/// in an `i64` (each product, then each running sum, in evaluation order).
pub open spec fn compose_fits(m: Affine, o: Affine) -> bool {
    &&& fits_i64(m.a * o.a) && fits_i64(m.c * o.b) && fits_i64(m.a * o.a + m.c * o.b)
    &&& fits_i64(m.b * o.a) && fits_i64(m.d * o.b) && fits_i64(m.b * o.a + m.d * o.b)
    &&& fits_i64(m.a * o.c) && fits_i64(m.c * o.d) && fits_i64(m.a * o.c + m.c * o.d)
    &&& fits_i64(m.b * o.c) && fits_i64(m.d * o.d) && fits_i64(m.b * o.c + m.d * o.d)
    &&& fits_i64(m.a * o.e) && fits_i64(m.c * o.f) && fits_i64(m.a * o.e + m.c * o.f)
    &&& fits_i64(m.a * o.e + m.c * o.f + m.e)
    &&& fits_i64(m.b * o.e) && fits_i64(m.d * o.f) && fits_i64(m.b * o.e + m.d * o.f)
    &&& fits_i64(m.b * o.e + m.d * o.f + m.f)
}

/// Every intermediate value of `Matrix::translate` fits in an `i64`.
pub open spec fn translate_fits(m: Affine, tx: int, ty: int) -> bool {
    &&& fits_i64(tx * m.a) && fits_i64(ty * m.c)
    &&& fits_i64(m.e + tx * m.a) && fits_i64(m.e + tx * m.a + ty * m.c)
    &&& fits_i64(tx * m.b) && fits_i64(ty * m.d)
    &&& fits_i64(m.f + tx * m.b) && fits_i64(m.f + tx * m.b + ty * m.d)
}

/// Every intermediate value of `Matrix::scale` fits in an `i64`.
pub open spec fn scale_fits(m: Affine, sx: int, sy: int) -> bool {
    &&& fits_i64(m.a * sx) && fits_i64(m.b * sx)
    &&& fits_i64(m.c * sy) && fits_i64(m.d * sy)
}

/// Every intermediate value of `Matrix::rotate` fits in an `i64`.
pub open spec fn rotate_fits(m: Affine, cos: int, sin: int) -> bool {
    &&& fits_i64(m.a * cos) && fits_i64(m.c * sin) && fits_i64(m.a * cos + m.c * sin)
    &&& fits_i64(m.b * cos) && fits_i64(m.d * sin) && fits_i64(m.b * cos + m.d * sin)
    &&& fits_i64(m.c * cos) && fits_i64(m.a * sin) && fits_i64(m.c * cos - m.a * sin)
    &&& fits_i64(m.d * cos) && fits_i64(m.b * sin) && fits_i64(m.d * cos - m.b * sin)
}

/// Every intermediate value of `Matrix::transform_point` fits in an `i64`.
pub open spec fn apply_fits(m: Affine, x: int, y: int) -> bool {
    &&& fits_i64(m.a * x) && fits_i64(m.c * y)
    &&& fits_i64(m.a * x + m.c * y) && fits_i64(m.a * x + m.c * y + m.e)
    &&& fits_i64(m.b * x) && fits_i64(m.d * y)
    &&& fits_i64(m.b * x + m.d * y) && fits_i64(m.b * x + m.d * y + m.f)
}

/// The executable affine transform. Immutable: every operation returns a
/// new value. `m@` is the [`Affine`] model the contracts speak of.
#[derive(Clone, Copy, PartialEq, Eq, Structural, Debug)]
pub struct Matrix {
    pub a: i64,
    pub b: i64,
    pub c: i64,
    pub d: i64,
    pub e: i64,
    pub f: i64,
}

impl View for Matrix {
    type V = Affine;

    open spec fn view(&self) -> Affine {
        Affine {
            a: self.a as int,
            b: self.b as int,
            c: self.c as int,
            d: self.d as int,
            e: self.e as int,
            f: self.f as int,
        }
    }
}

impl Matrix {
    /// The transform with the given six coefficients.
    pub fn new(a: i64, b: i64, c: i64, d: i64, e: i64, f: i64) -> (m: Matrix)
        ensures
            m == (Matrix { a, b, c, d, e, f }),
    {
        Matrix { a, b, c, d, e, f }
    }

    /// The neutral transform.
    pub fn identity() -> (m: Matrix)
        ensures
            m@ == Affine::identity(),
    {
        Matrix::new(1, 0, 0, 1, 0, 0)
    }

    /// `self` translated by `(tx, ty)` in its own basis: composition on
    /// the right with a pure translation ([`Affine::translated`]).
    pub fn translate(&self, tx: i64, ty: i64) -> (m: Matrix)
        requires
            translate_fits(self@, tx as int, ty as int),
        ensures
            m@ == self@.translated(tx as int, ty as int),
    {
        let a = self.a;
        let b = self.b;
        let c = self.c;
        let d = self.d;
        let e = self.e + tx * a + ty * c;
        let f = self.f + tx * b + ty * d;
        Matrix::new(a, b, c, d, e, f)
    }

    /// `self` scaled by `(sx, sy)`: the linear part scales column-wise,
    /// the offset is unchanged ([`Affine::scaled`]).
    pub fn scale(&self, sx: i64, sy: i64) -> (m: Matrix)
        requires
            scale_fits(self@, sx as int, sy as int),
        ensures
            m@ == self@.scaled(sx as int, sy as int),
    {
        let a = self.a * sx;
        let b = self.b * sx;
        let c = self.c * sy;
        let d = self.d * sy;
        Matrix::new(a, b, c, d, self.e, self.f)
    }

    /// `self` rotated counter-clockwise by the angle whose cosine and
    /// sine are given; the offset is unchanged ([`Affine::rotated`]).
    pub fn rotate(&self, cos: i64, sin: i64) -> (m: Matrix)
        requires
            rotate_fits(self@, cos as int, sin as int),
        ensures
            m@ == self@.rotated(cos as int, sin as int),
    {
        let a = self.a * cos + self.c * sin;
        let b = self.b * cos + self.d * sin;
        let c = self.c * cos - self.a * sin;
        let d = self.d * cos - self.b * sin;
        Matrix::new(a, b, c, d, self.e, self.f)
    }

    /// The image of the point `(x, y)` under the map
    /// ([`Affine::apply`]).
    pub fn transform_point(&self, x: i64, y: i64) -> (r: (i64, i64))
        requires
            apply_fits(self@, x as int, y as int),
        ensures
            (r.0 as int, r.1 as int) == self@.apply(x as int, y as int),
    {
        let new_x = self.a * x + self.c * y + self.e;
        let new_y = self.b * x + self.d * y + self.f;
        (new_x, new_y)
    }

    /// Matrix multiplication `self * other`: the transform that applies
    /// `other` first, then `self` ([`Affine::compose`]).
    pub fn compose(self, other: Matrix) -> (m: Matrix)
        requires
            compose_fits(self@, other@),
        ensures
            m@ == self@.compose(other@),
    {
        let a = self.a * other.a + self.c * other.b;
        let b = self.b * other.a + self.d * other.b;
        let c = self.a * other.c + self.c * other.d;
        let d = self.b * other.c + self.d * other.d;
        let e = self.a * other.e + self.c * other.f + self.e;
        let f = self.b * other.e + self.d * other.f + self.f;
        Matrix::new(a, b, c, d, e, f)
    }
}

} // verus!
