//! The transformation matrix of a Matrix object.
//!
//! The matrix is the one of the `swf` crate: `a`, `b`, `c` and `d` are 16.16
//! fixed-point numbers (kept here by their raw `i32` bits), `tx` and `ty` are
//! twips. A point `(x, y)` maps to `(a*x + c*y + tx, b*x + d*y + ty)`.
use swf::{Fixed16, Twips};
use vstd::arithmetic::div_mod::*;
use vstd::prelude::*;

verus! {

/// The raw bits of the fixed-point number `1.0`.
pub const FIXED_ONE: i32 = 65536;

/// `x` lies in the range of `i32`.
pub open spec fn fits_i32(x: int) -> bool {
    i32::MIN <= x <= i32::MAX
}

/// The product of two 16.16 fixed-point numbers given by their raw bits,
/// with the fractional bits truncated towards negative infinity.
pub open spec fn fixed_mul(x: int, y: int) -> int {
    (x * y) / 65536
}

/// Two's complement wrap-around of `x` into the range of `i32`.
pub open spec fn wrap_i32(x: int) -> int {
    (x + 0x8000_0000) % 0x1_0000_0000 - 0x8000_0000
}

/// An affine transformation: scale and skew in 16.16 fixed point (raw bits),
/// translation in twips.
#[derive(Clone, Copy, Debug, PartialEq, Eq, Structural)]
pub struct Matrix {
    pub a: i32,
    pub b: i32,
    pub c: i32,
    pub d: i32,
    pub tx: i32,
    pub ty: i32,
}

impl View for Matrix {
    type V = (i32, i32, i32, i32, i32, i32);

    open spec fn view(&self) -> (i32, i32, i32, i32, i32, i32) {
        (self.a, self.b, self.c, self.d, self.tx, self.ty)
    }
}

/// The identity matrix.
pub open spec fn identity_matrix() -> Matrix {
    Matrix { a: 65536, b: 0, c: 0, d: 65536, tx: 0, ty: 0 }
}

/// The matrix that scales by `scale_x` and `scale_y` (fixed-point bits).
pub open spec fn scale_matrix(scale_x: i32, scale_y: i32) -> Matrix {
    Matrix { a: scale_x, b: 0, c: 0, d: scale_y, tx: 0, ty: 0 }
}

/// The matrix that moves by `x` and `y` twips.
pub open spec fn translate_matrix(x: i32, y: i32) -> Matrix {
    Matrix { a: 65536, b: 0, c: 0, d: 65536, tx: x, ty: y }
}

/// The product `lhs * rhs` (apply `rhs` first, then `lhs`) computes without
/// overflowing the fixed-point operations that check for it.
pub open spec fn product_defined(lhs: Matrix, rhs: Matrix) -> bool {
    &&& fits_i32(fixed_mul(lhs.a as int, rhs.a as int))
    &&& fits_i32(fixed_mul(lhs.c as int, rhs.b as int))
    &&& fits_i32(fixed_mul(lhs.a as int, rhs.a as int) + fixed_mul(lhs.c as int, rhs.b as int))
    &&& fits_i32(fixed_mul(lhs.b as int, rhs.a as int))
    &&& fits_i32(fixed_mul(lhs.d as int, rhs.b as int))
    &&& fits_i32(fixed_mul(lhs.b as int, rhs.a as int) + fixed_mul(lhs.d as int, rhs.b as int))
    &&& fits_i32(fixed_mul(lhs.a as int, rhs.c as int))
    &&& fits_i32(fixed_mul(lhs.c as int, rhs.d as int))
    &&& fits_i32(fixed_mul(lhs.a as int, rhs.c as int) + fixed_mul(lhs.c as int, rhs.d as int))
    &&& fits_i32(fixed_mul(lhs.b as int, rhs.c as int))
    &&& fits_i32(fixed_mul(lhs.d as int, rhs.d as int))
    &&& fits_i32(fixed_mul(lhs.b as int, rhs.c as int) + fixed_mul(lhs.d as int, rhs.d as int))
    &&& fits_i32(fixed_mul(lhs.c as int, rhs.ty as int))
    &&& fits_i32(fixed_mul(lhs.d as int, rhs.ty as int))
}

/// The product `lhs * rhs`: the transformation that applies `rhs` first and
/// `lhs` after it. The translation wraps around at the range of `i32`.
pub open spec fn product(lhs: Matrix, rhs: Matrix) -> Matrix {
    Matrix {
        a: (fixed_mul(lhs.a as int, rhs.a as int) + fixed_mul(lhs.c as int, rhs.b as int)) as i32,
        b: (fixed_mul(lhs.b as int, rhs.a as int) + fixed_mul(lhs.d as int, rhs.b as int)) as i32,
        c: (fixed_mul(lhs.a as int, rhs.c as int) + fixed_mul(lhs.c as int, rhs.d as int)) as i32,
        d: (fixed_mul(lhs.b as int, rhs.c as int) + fixed_mul(lhs.d as int, rhs.d as int)) as i32,
        tx: wrap_i32(
            fixed_mul(lhs.a as int, rhs.tx as int) + fixed_mul(lhs.c as int, rhs.ty as int)
                + lhs.tx,
        ) as i32,
        ty: wrap_i32(
            fixed_mul(lhs.b as int, rhs.tx as int) + fixed_mul(lhs.d as int, rhs.ty as int)
                + lhs.ty,
        ) as i32,
    }
}

/// What `swf::Matrix::invert` makes of a matrix. It computes in single
/// precision floating point and is not stated further here.
pub uninterp spec fn swf_inverse(m: (i32, i32, i32, i32, i32, i32)) -> (
    i32,
    i32,
    i32,
    i32,
    i32,
    i32,
);

/// `swf::Matrix::IDENTITY`: the identity matrix, `a = d = 1.0`, everything
/// else zero.
#[verifier::external_body]
fn swf_identity() -> (m: Matrix)
    ensures
        m == identity_matrix(),
{
    let m = swf::Matrix::IDENTITY;
    Matrix { a: m.a.get(), b: m.b.get(), c: m.c.get(), d: m.d.get(), tx: m.tx.get(), ty: m.ty.get() }
}

/// `swf::Matrix::scale`: the identity with `a` and `d` replaced by the two
/// fixed-point factors.
#[verifier::external_body]
fn swf_scale(scale_x: i32, scale_y: i32) -> (m: Matrix)
    ensures
        m == scale_matrix(scale_x, scale_y),
{
    let m = swf::Matrix::scale(Fixed16::from_bits(scale_x), Fixed16::from_bits(scale_y));
    Matrix { a: m.a.get(), b: m.b.get(), c: m.c.get(), d: m.d.get(), tx: m.tx.get(), ty: m.ty.get() }
}

/// `swf::Matrix::translate`: the identity with `tx` and `ty` replaced by the
/// two offsets in twips.
#[verifier::external_body]
fn swf_translate(x: i32, y: i32) -> (m: Matrix)
    ensures
        m == translate_matrix(x, y),
{
    let m = swf::Matrix::translate(Twips::new(x), Twips::new(y));
    Matrix { a: m.a.get(), b: m.b.get(), c: m.c.get(), d: m.d.get(), tx: m.tx.get(), ty: m.ty.get() }
}

/// `<swf::Matrix as Mul>::mul`. Its source computes each of `a`..`d` as a
/// sum of two `Fixed16` products, `(x * y) >> 16` in 64 bits, and the
/// translation with `wrapping_mul_int`, `mul_int` and `i32::wrapping_add`.
/// The `Fixed16` product, the `Fixed16` sum and `mul_int` panic on overflow
/// in a debug build (and wrap in a release build); `requires` leaves those
/// inputs out, and on the others the result is `product(lhs, rhs)`.
#[verifier::external_body]
fn swf_mul(lhs: Matrix, rhs: Matrix) -> (m: Matrix)
    requires
        product_defined(lhs, rhs),
    ensures
        m == product(lhs, rhs),
{
    let f = |x: i32| Fixed16::from_bits(x);
    let to = |x: Matrix| swf::Matrix { a: f(x.a), b: f(x.b), c: f(x.c), d: f(x.d), tx: Twips::new(x.tx), ty: Twips::new(x.ty) };
    let m = to(lhs) * to(rhs);
    Matrix { a: m.a.get(), b: m.b.get(), c: m.c.get(), d: m.d.get(), tx: m.tx.get(), ty: m.ty.get() }
}

/// `<swf::Twips as Add>::add`: the sum of the two twips values. Its source
/// adds the `i32`s with `+`, which panics on overflow in a debug build;
/// `requires` leaves those inputs out.
#[verifier::external_body]
pub(crate) fn swf_twips_add(x: i32, y: i32) -> (r: i32)
    requires
        fits_i32(x + y),
    ensures
        r == x + y,
{
    (Twips::new(x) + Twips::new(y)).get()
}

/// `swf::Matrix::invert`. It computes in `f32` and converts back with
/// saturating casts, so it does not panic; its result is named
/// `swf_inverse` and not stated further.
#[verifier::external_body]
fn swf_invert(this: Matrix) -> (m: Matrix)
    ensures
        m@ == swf_inverse(this@),
{
    let f = |x: i32| Fixed16::from_bits(x);
    let mut m = swf::Matrix { a: f(this.a), b: f(this.b), c: f(this.c), d: f(this.d), tx: Twips::new(this.tx), ty: Twips::new(this.ty) };
    m.invert();
    Matrix { a: m.a.get(), b: m.b.get(), c: m.c.get(), d: m.d.get(), tx: m.tx.get(), ty: m.ty.get() }
}


/// The box that `createBox` and a gradient box describe: a scale by
/// `scale_x` and `scale_y` (fixed-point bits), then `rotation`, then a
/// move by `x` and `y` twips.
pub open spec fn box_matrix(scale_x: i32, scale_y: i32, rotation: Matrix, x: i32, y: i32) -> Matrix {
    product(translate_matrix(x, y), product(rotation, scale_matrix(scale_x, scale_y)))
}

/// Builds the box that `createBox` and a gradient box describe from its
/// scale, its rotation matrix (from the angle) and its move.
pub fn create_box(scale_x: i32, scale_y: i32, rotation: Matrix, x: i32, y: i32) -> (m: Matrix)
    requires
        product_defined(rotation, scale_matrix(scale_x, scale_y)),
    ensures
        m == box_matrix(scale_x, scale_y, rotation, x, y),
{
    let s = swf_scale(scale_x, scale_y);
    let rotated = swf_mul(rotation, s);
    proof {
        lemma_translate_defined(rotated, x, y);
    }
    swf_mul(swf_translate(x, y), rotated)
}

/// `fixed_mul` lies within `2^46` of zero.
proof fn lemma_fixed_mul_bound(x: i32, y: i32)
    ensures
        -0x4000_0000_0000 <= fixed_mul(x as int, y as int) <= 0x4000_0000_0000,
{
    let p = x as int * y as int;
    assert(-0x4000_0000_0000_0000 <= p <= 0x4000_0000_0000_0000) by (nonlinear_arith)
        requires
            i32::MIN <= x <= i32::MAX,
            i32::MIN <= y <= i32::MAX,
            p == x as int * y as int,
    ;
    lemma_fundamental_div_mod(p, 65536);
}

/// The exact value of `fixed_mul(x, y)`.
fn fixed_product(x: i32, y: i32) -> (r: i64)
    ensures
        r == fixed_mul(x as int, y as int),
{
    let ghost p = x as int * y as int;
    assert(-0x4000_0000_0000_0000 <= p <= 0x4000_0000_0000_0000) by (nonlinear_arith)
        requires
            i32::MIN <= x <= i32::MAX,
            i32::MIN <= y <= i32::MAX,
            p == x as int * y as int,
    ;
    let product: i128 = (x as i128) * (y as i128);
    let shifted: i128 = product + 0x4000_0000_0000_0000;
    let quotient: i128 = shifted / 65536;
    proof {
        lemma_fundamental_div_mod(p, 65536);
        let q0 = p / 65536;
        let r0 = p % 65536;
        lemma_fundamental_div_mod_converse(shifted as int, 65536, q0 + 0x4000_0000_0000, r0);
        lemma_fixed_mul_bound(x, y);
    }
    (quotient - 0x4000_0000_0000) as i64
}

/// Whether `v` lies in the range of `i32`.
fn fits(v: i64) -> (b: bool)
    ensures
        b == fits_i32(v as int),
{
    -0x8000_0000 <= v && v <= 0x7fff_ffff
}

/// Whether the product `lhs * rhs` computes without overflow, that is,
/// whether [`concat`], [`scale`] and [`rotate`] accept their operands.
pub fn product_is_defined(lhs: Matrix, rhs: Matrix) -> (b: bool)
    ensures
        b == product_defined(lhs, rhs),
{
    let aa = fixed_product(lhs.a, rhs.a);
    let cb = fixed_product(lhs.c, rhs.b);
    let ba = fixed_product(lhs.b, rhs.a);
    let db = fixed_product(lhs.d, rhs.b);
    let ac = fixed_product(lhs.a, rhs.c);
    let cd = fixed_product(lhs.c, rhs.d);
    let bc = fixed_product(lhs.b, rhs.c);
    let dd = fixed_product(lhs.d, rhs.d);
    let cty = fixed_product(lhs.c, rhs.ty);
    let dty = fixed_product(lhs.d, rhs.ty);
    proof {
        lemma_fixed_mul_bound(lhs.a, rhs.a);
        lemma_fixed_mul_bound(lhs.c, rhs.b);
        lemma_fixed_mul_bound(lhs.b, rhs.a);
        lemma_fixed_mul_bound(lhs.d, rhs.b);
        lemma_fixed_mul_bound(lhs.a, rhs.c);
        lemma_fixed_mul_bound(lhs.c, rhs.d);
        lemma_fixed_mul_bound(lhs.b, rhs.c);
        lemma_fixed_mul_bound(lhs.d, rhs.d);
    }
    fits(aa) && fits(cb) && fits(aa + cb) && fits(ba) && fits(db) && fits(ba + db) && fits(ac)
        && fits(cd) && fits(ac + cd) && fits(bc) && fits(dd) && fits(bc + dd) && fits(cty)
        && fits(dty)
}

/// The identity matrix, which [`identity`](crate::object::identity) and a
/// constructor call without arguments give a Matrix object.
pub fn identity() -> (m: Matrix)
    ensures
        m == identity_matrix(),
{
    swf_identity()
}

/// `concat`: the transformation of `this` followed by that of `other`, the
/// product `other * this`.
pub fn concat(this: Matrix, other: Matrix) -> (m: Matrix)
    requires
        product_defined(other, this),
    ensures
        m == product(other, this),
{
    swf_mul(other, this)
}

/// `rotate`: the transformation of `this` followed by `rotation`, the
/// rotation matrix of the angle the method was given.
pub fn rotate(this: Matrix, rotation: Matrix) -> (m: Matrix)
    requires
        product_defined(rotation, this),
    ensures
        m == product(rotation, this),
{
    swf_mul(rotation, this)
}

/// `invert`: the inverse that the `swf` crate computes.
pub fn invert(this: Matrix) -> (m: Matrix)
    ensures
        m@ == swf_inverse(this@),
{
    swf_invert(this)
}


/// `fixed_mul(1.0, x)` is `x`, and `fixed_mul(0, x)` is zero.
proof fn lemma_fixed_mul_unit(x: int)
    ensures
        fixed_mul(65536, x) == x,
        fixed_mul(x, 65536) == x,
        fixed_mul(0, x) == 0,
        fixed_mul(x, 0) == 0,
{
    lemma_div_multiples_vanish(x, 65536);
    assert(x * 65536 == 65536 * x);
}

/// A value in the range of `i32` wraps to itself.
proof fn lemma_wrap_small(x: int)
    requires
        fits_i32(x),
    ensures
        wrap_i32(x) == x,
{
    lemma_small_mod((x + 0x8000_0000) as nat, 0x1_0000_0000);
}

/// Wrapping an operand of a sum first does not change the wrapped sum.
proof fn lemma_wrap_add(x: int, y: int)
    ensures
        wrap_i32(wrap_i32(x) + y) == wrap_i32(x + y),
{
    let m = 0x1_0000_0000int;
    lemma_fundamental_div_mod(x + 0x8000_0000, m);
    let q = (x + 0x8000_0000) / m;
    let r = (x + 0x8000_0000) % m;
    assert(wrap_i32(x) + y + 0x8000_0000 == m * (-q) + (x + y + 0x8000_0000));
    lemma_mod_multiples_vanish(-q, x + y + 0x8000_0000, m);
}

/// A wrapped value lies in the range of `i32`.
proof fn lemma_wrap_bounds(x: int)
    ensures
        fits_i32(wrap_i32(x)),
{
    lemma_mod_bound(x + 0x8000_0000, 0x1_0000_0000);
}

/// `scale`: the transformation of `this` followed by a scaling by `scale_x`
/// and `scale_y` (fixed-point bits): each column of `this` is multiplied
/// by the scale factor of its row.
pub fn scale(this: Matrix, scale_x: i32, scale_y: i32) -> (m: Matrix)
    requires
        product_defined(scale_matrix(scale_x, scale_y), this),
    ensures
        m == product(scale_matrix(scale_x, scale_y), this),
        m.a == fixed_mul(scale_x as int, this.a as int),
        m.b == fixed_mul(scale_y as int, this.b as int),
        m.c == fixed_mul(scale_x as int, this.c as int),
        m.d == fixed_mul(scale_y as int, this.d as int),
        m.tx == wrap_i32(fixed_mul(scale_x as int, this.tx as int)),
        m.ty == wrap_i32(fixed_mul(scale_y as int, this.ty as int)),
{
    let s = swf_scale(scale_x, scale_y);
    proof {
        lemma_concat_scale_matrix(this, scale_x, scale_y);
    }
    swf_mul(s, this)
}

/// Moving by a translation never overflows the checked operations of the
/// product.
pub proof fn lemma_translate_defined(this: Matrix, x: i32, y: i32)
    ensures
        product_defined(translate_matrix(x, y), this),
{
    lemma_fixed_mul_unit(this.a as int);
    lemma_fixed_mul_unit(this.b as int);
    lemma_fixed_mul_unit(this.c as int);
    lemma_fixed_mul_unit(this.d as int);
    lemma_fixed_mul_unit(this.tx as int);
    lemma_fixed_mul_unit(this.ty as int);
}

/// `translate`: the transformation of `this` followed by a move by `x` and
/// `y` twips. Only the translation changes; it wraps around at the range
/// of `i32`.
pub fn translate(this: Matrix, x: i32, y: i32) -> (m: Matrix)
    ensures
        m == product(translate_matrix(x, y), this),
        m.a == this.a,
        m.b == this.b,
        m.c == this.c,
        m.d == this.d,
        m.tx == wrap_i32(this.tx + x),
        m.ty == wrap_i32(this.ty + y),
{
    let t = swf_translate(x, y);
    proof {
        lemma_concat_translate_matrix(this, x, y);
    }
    swf_mul(t, this)
}


/// The identity matrix is a unit on both sides of the product: `concat`
/// with the identity, or of the identity with a matrix, leaves the matrix
/// as it was, and never overflows.
pub proof fn lemma_identity_is_unit(m: Matrix)
    ensures
        product_defined(identity_matrix(), m),
        product(identity_matrix(), m) == m,
        product_defined(m, identity_matrix()),
        product(m, identity_matrix()) == m,
{
    lemma_fixed_mul_unit(m.a as int);
    lemma_fixed_mul_unit(m.b as int);
    lemma_fixed_mul_unit(m.c as int);
    lemma_fixed_mul_unit(m.d as int);
    lemma_fixed_mul_unit(m.tx as int);
    lemma_fixed_mul_unit(m.ty as int);
    lemma_wrap_small(m.tx as int);
    lemma_wrap_small(m.ty as int);
}

/// Scaling by `1.0` in both directions leaves a matrix as it was.
pub proof fn lemma_unit_scale(m: Matrix)
    ensures
        product_defined(scale_matrix(FIXED_ONE, FIXED_ONE), m),
        product(scale_matrix(FIXED_ONE, FIXED_ONE), m) == m,
{
    lemma_identity_is_unit(m);
}

/// Two translations add up: moving by `(x1, y1)` and then by `(x2, y2)`
/// gives the matrix that one move by the sum gives, the sums wrapping
/// around at the range of `i32` as the translation itself does.
pub proof fn lemma_translations_add(m: Matrix, x1: i32, y1: i32, x2: i32, y2: i32)
    ensures
        product(translate_matrix(x2, y2), product(translate_matrix(x1, y1), m)) == product(
            translate_matrix(wrap_i32(x1 + x2) as i32, wrap_i32(y1 + y2) as i32),
            m,
        ),
{
    let once = product(translate_matrix(x1, y1), m);
    lemma_translate_defined(m, x1, y1);
    lemma_fixed_mul_unit(m.a as int);
    lemma_fixed_mul_unit(m.b as int);
    lemma_fixed_mul_unit(m.c as int);
    lemma_fixed_mul_unit(m.d as int);
    lemma_fixed_mul_unit(m.tx as int);
    lemma_fixed_mul_unit(m.ty as int);
    lemma_fixed_mul_unit(once.tx as int);
    lemma_fixed_mul_unit(once.ty as int);
    lemma_wrap_bounds(m.tx + x1);
    lemma_wrap_bounds(m.ty + y1);
    lemma_wrap_bounds(x1 + x2);
    lemma_wrap_bounds(y1 + y2);
    // (m.tx + x1 wrapped) + x2, wrapped == m.tx + x1 + x2, wrapped == m.tx + (x1 + x2 wrapped), wrapped
    lemma_wrap_add(m.tx + x1, x2 as int);
    lemma_wrap_add(x1 + x2, m.tx as int);
    lemma_wrap_add(m.ty + y1, y2 as int);
    lemma_wrap_add(y1 + y2, m.ty as int);
    assert(m.tx + x1 + x2 == x1 + x2 + m.tx);
    assert(m.ty + y1 + y2 == y1 + y2 + m.ty);
}


/// `concat` with the scale matrix `(sx, 0, 0, sy, 0, 0)` does what `scale`
/// does: it multiplies each column of the matrix by the factor of its row.
/// It computes without overflow exactly when those five products fit.
pub proof fn lemma_concat_scale_matrix(m: Matrix, scale_x: i32, scale_y: i32)
    ensures
        product_defined(scale_matrix(scale_x, scale_y), m) <==> {
            &&& fits_i32(fixed_mul(scale_x as int, m.a as int))
            &&& fits_i32(fixed_mul(scale_y as int, m.b as int))
            &&& fits_i32(fixed_mul(scale_x as int, m.c as int))
            &&& fits_i32(fixed_mul(scale_y as int, m.d as int))
            &&& fits_i32(fixed_mul(scale_y as int, m.ty as int))
        },
        product_defined(scale_matrix(scale_x, scale_y), m) ==> product(
            scale_matrix(scale_x, scale_y),
            m,
        ) == (Matrix {
            a: fixed_mul(scale_x as int, m.a as int) as i32,
            b: fixed_mul(scale_y as int, m.b as int) as i32,
            c: fixed_mul(scale_x as int, m.c as int) as i32,
            d: fixed_mul(scale_y as int, m.d as int) as i32,
            tx: wrap_i32(fixed_mul(scale_x as int, m.tx as int)) as i32,
            ty: wrap_i32(fixed_mul(scale_y as int, m.ty as int)) as i32,
        }),
{
    lemma_fixed_mul_unit(m.a as int);
    lemma_fixed_mul_unit(m.b as int);
    lemma_fixed_mul_unit(m.c as int);
    lemma_fixed_mul_unit(m.d as int);
    lemma_fixed_mul_unit(m.tx as int);
    lemma_fixed_mul_unit(m.ty as int);
}

/// `concat` with the translation matrix `(1, 0, 0, 1, x, y)` does what
/// `translate` does, for every matrix: it never overflows, keeps `a`..`d`
/// and moves the translation, wrapping around at the range of `i32`.
pub proof fn lemma_concat_translate_matrix(m: Matrix, x: i32, y: i32)
    ensures
        product_defined(translate_matrix(x, y), m),
        product(translate_matrix(x, y), m) == (Matrix {
            a: m.a,
            b: m.b,
            c: m.c,
            d: m.d,
            tx: wrap_i32(m.tx + x) as i32,
            ty: wrap_i32(m.ty + y) as i32,
        }),
{
    lemma_translate_defined(m, x, y);
    lemma_fixed_mul_unit(m.tx as int);
    lemma_fixed_mul_unit(m.ty as int);
}

/// A matrix whose scale and skew are whole numbers (multiples of `1.0`).
pub open spec fn whole(m: Matrix) -> bool {
    &&& m.a % 65536 == 0
    &&& m.b % 65536 == 0
    &&& m.c % 65536 == 0
    &&& m.d % 65536 == 0
}

/// The fixed-point product by a whole number is exact.
proof fn lemma_fixed_mul_whole(x: int, y: int)
    requires
        x % 65536 == 0,
    ensures
        fixed_mul(x, y) == (x / 65536) * y,
{
    let k = x / 65536;
    lemma_fundamental_div_mod(x, 65536);
    assert(x * y == 65536 * (k * y)) by (nonlinear_arith)
        requires
            x == 65536 * k,
    ;
    lemma_div_multiples_vanish(k * y, 65536);
}

/// Multiplying a wrapped operand by a whole number does not change the
/// wrapped sum.
proof fn lemma_wrap_scaled(k: int, u: int, v: int)
    ensures
        wrap_i32(k * wrap_i32(u) + v) == wrap_i32(k * u + v),
{
    let m = 0x1_0000_0000int;
    lemma_fundamental_div_mod(u + 0x8000_0000, m);
    let q = (u + 0x8000_0000) / m;
    assert(wrap_i32(u) == u - m * q);
    assert(k * wrap_i32(u) + v + 0x8000_0000 == m * (-(k * q)) + (k * u + v + 0x8000_0000))
        by (nonlinear_arith)
        requires
            wrap_i32(u) == u - m * q,
            m == 0x1_0000_0000int,
    ;
    lemma_mod_multiples_vanish(-(k * q), k * u + v + 0x8000_0000, m);
}

/// `p * (n * x)` for a row `(p1, p2)` of `p` and a column `(x, y)`.
proof fn lemma_row_times_column(
    p1: int,
    p2: int,
    na: int,
    nb: int,
    nc: int,
    nd: int,
    x: int,
    y: int,
)
    ensures
        p1 * (na * x + nc * y) + p2 * (nb * x + nd * y) == (p1 * na + p2 * nb) * x + (p1 * nc
            + p2 * nd) * y,
{
    assert(p1 * (na * x + nc * y) == p1 * na * x + p1 * nc * y) by (nonlinear_arith);
    assert(p2 * (nb * x + nd * y) == p2 * nb * x + p2 * nd * y) by (nonlinear_arith);
    assert((p1 * na + p2 * nb) * x == p1 * na * x + p2 * nb * x) by (nonlinear_arith);
    assert((p1 * nc + p2 * nd) * y == p1 * nc * y + p2 * nd * y) by (nonlinear_arith);
}

/// `k * (u + v) == k * u + k * v`.
proof fn lemma_distribute(k: int, u: int, v: int)
    ensures
        k * (u + v) == k * u + k * v,
{
    assert(k * (u + v) == k * u + k * v) by (nonlinear_arith);
}

/// `concat` is associative on matrices whose scale and skew are whole
/// numbers, where every fixed-point product is exact: for any `m`,
/// concatenating `n` and then `p` gives what concatenating the product
/// `p * n` gives (wherever the products compute without overflow).
pub proof fn lemma_concat_associative(m: Matrix, n: Matrix, p: Matrix)
    requires
        whole(n),
        whole(p),
        product_defined(n, m),
        product_defined(p, product(n, m)),
        product_defined(p, n),
        product_defined(product(p, n), m),
    ensures
        product(p, product(n, m)) == product(product(p, n), m),
{
    let nm = product(n, m);
    let pn = product(p, n);
    let (pa, pb, pc, pd) = (p.a / 65536, p.b / 65536, p.c / 65536, p.d / 65536);
    let (na, nb, nc, nd) = (n.a / 65536, n.b / 65536, n.c / 65536, n.d / 65536);
    let (ma, mb, mc, md, mx, my) = (m.a as int, m.b as int, m.c as int, m.d as int, m.tx as int, m.ty as int);
    lemma_fundamental_div_mod(p.a as int, 65536);
    lemma_fundamental_div_mod(p.b as int, 65536);
    lemma_fundamental_div_mod(p.c as int, 65536);
    lemma_fundamental_div_mod(p.d as int, 65536);
    lemma_fundamental_div_mod(n.a as int, 65536);
    lemma_fundamental_div_mod(n.b as int, 65536);
    lemma_fundamental_div_mod(n.c as int, 65536);
    lemma_fundamental_div_mod(n.d as int, 65536);
    // n * m: exact, with whole coefficients of n.
    lemma_fixed_mul_whole(n.a as int, ma);
    lemma_fixed_mul_whole(n.c as int, mb);
    lemma_fixed_mul_whole(n.b as int, ma);
    lemma_fixed_mul_whole(n.d as int, mb);
    lemma_fixed_mul_whole(n.a as int, mc);
    lemma_fixed_mul_whole(n.c as int, md);
    lemma_fixed_mul_whole(n.b as int, mc);
    lemma_fixed_mul_whole(n.d as int, md);
    lemma_fixed_mul_whole(n.a as int, mx);
    lemma_fixed_mul_whole(n.c as int, my);
    lemma_fixed_mul_whole(n.b as int, mx);
    lemma_fixed_mul_whole(n.d as int, my);
    lemma_wrap_bounds(na * mx + nc * my + n.tx);
    lemma_wrap_bounds(nb * mx + nd * my + n.ty);
    // p * (n * m)
    lemma_fixed_mul_whole(p.a as int, nm.a as int);
    lemma_fixed_mul_whole(p.c as int, nm.b as int);
    lemma_fixed_mul_whole(p.b as int, nm.a as int);
    lemma_fixed_mul_whole(p.d as int, nm.b as int);
    lemma_fixed_mul_whole(p.a as int, nm.c as int);
    lemma_fixed_mul_whole(p.c as int, nm.d as int);
    lemma_fixed_mul_whole(p.b as int, nm.c as int);
    lemma_fixed_mul_whole(p.d as int, nm.d as int);
    lemma_fixed_mul_whole(p.a as int, nm.tx as int);
    lemma_fixed_mul_whole(p.c as int, nm.ty as int);
    lemma_fixed_mul_whole(p.b as int, nm.tx as int);
    lemma_fixed_mul_whole(p.d as int, nm.ty as int);
    // p * n: whole again.
    lemma_fixed_mul_whole(p.a as int, n.a as int);
    lemma_fixed_mul_whole(p.c as int, n.b as int);
    lemma_fixed_mul_whole(p.b as int, n.a as int);
    lemma_fixed_mul_whole(p.d as int, n.b as int);
    lemma_fixed_mul_whole(p.a as int, n.c as int);
    lemma_fixed_mul_whole(p.c as int, n.d as int);
    lemma_fixed_mul_whole(p.b as int, n.c as int);
    lemma_fixed_mul_whole(p.d as int, n.d as int);
    lemma_fixed_mul_whole(p.a as int, n.tx as int);
    lemma_fixed_mul_whole(p.c as int, n.ty as int);
    lemma_fixed_mul_whole(p.b as int, n.tx as int);
    lemma_fixed_mul_whole(p.d as int, n.ty as int);
    lemma_wrap_bounds(pa * n.tx + pc * n.ty + p.tx);
    lemma_wrap_bounds(pb * n.tx + pd * n.ty + p.ty);
    let (qa, qb, qc, qd) = (pa * na + pc * nb, pb * na + pd * nb, pa * nc + pc * nd, pb * nc + pd * nd);
    assert(pn.a == 65536 * qa && pn.b == 65536 * qb && pn.c == 65536 * qc && pn.d == 65536 * qd)
        by (nonlinear_arith)
        requires
            pn.a == pa * n.a + pc * n.b,
            pn.b == pb * n.a + pd * n.b,
            pn.c == pa * n.c + pc * n.d,
            pn.d == pb * n.c + pd * n.d,
            n.a == 65536 * na,
            n.b == 65536 * nb,
            n.c == 65536 * nc,
            n.d == 65536 * nd,
            qa == pa * na + pc * nb,
            qb == pb * na + pd * nb,
            qc == pa * nc + pc * nd,
            qd == pb * nc + pd * nd,
    ;
    lemma_div_multiples_vanish(qa, 65536);
    lemma_div_multiples_vanish(qb, 65536);
    lemma_div_multiples_vanish(qc, 65536);
    lemma_div_multiples_vanish(qd, 65536);
    lemma_mod_multiples_basic(qa, 65536);
    lemma_mod_multiples_basic(qb, 65536);
    lemma_mod_multiples_basic(qc, 65536);
    lemma_mod_multiples_basic(qd, 65536);
    assert(qa * 65536 == 65536 * qa);
    assert(qb * 65536 == 65536 * qb);
    assert(qc * 65536 == 65536 * qc);
    assert(qd * 65536 == 65536 * qd);
    // (p * n) * m
    lemma_fixed_mul_whole(pn.a as int, ma);
    lemma_fixed_mul_whole(pn.c as int, mb);
    lemma_fixed_mul_whole(pn.b as int, ma);
    lemma_fixed_mul_whole(pn.d as int, mb);
    lemma_fixed_mul_whole(pn.a as int, mc);
    lemma_fixed_mul_whole(pn.c as int, md);
    lemma_fixed_mul_whole(pn.b as int, mc);
    lemma_fixed_mul_whole(pn.d as int, md);
    lemma_fixed_mul_whole(pn.a as int, mx);
    lemma_fixed_mul_whole(pn.c as int, my);
    lemma_fixed_mul_whole(pn.b as int, mx);
    lemma_fixed_mul_whole(pn.d as int, my);
    // Scale and skew: the same polynomials.
    lemma_row_times_column(pa, pc, na, nb, nc, nd, ma, mb);
    lemma_row_times_column(pb, pd, na, nb, nc, nd, ma, mb);
    lemma_row_times_column(pa, pc, na, nb, nc, nd, mc, md);
    lemma_row_times_column(pb, pd, na, nb, nc, nd, mc, md);
    // Translation: wrapping commutes with the whole coefficients.
    let ux = na * mx + nc * my + n.tx;
    let uy = nb * mx + nd * my + n.ty;
    lemma_wrap_scaled(pa, ux, pc * wrap_i32(uy) + p.tx);
    lemma_wrap_scaled(pc, uy, pa * ux + p.tx);
    lemma_wrap_scaled(pb, ux, pd * wrap_i32(uy) + p.ty);
    lemma_wrap_scaled(pd, uy, pb * ux + p.ty);
    let vx = pa * n.tx + pc * n.ty + p.tx;
    let vy = pb * n.tx + pd * n.ty + p.ty;
    lemma_wrap_scaled(1, vx, qa * mx + qc * my);
    lemma_wrap_scaled(1, vy, qb * mx + qd * my);
    lemma_row_times_column(pa, pc, na, nb, nc, nd, mx, my);
    lemma_row_times_column(pb, pd, na, nb, nc, nd, mx, my);
    lemma_distribute(pa, na * mx + nc * my, n.tx as int);
    lemma_distribute(pc, nb * mx + nd * my, n.ty as int);
    lemma_distribute(pb, na * mx + nc * my, n.tx as int);
    lemma_distribute(pd, nb * mx + nd * my, n.ty as int);
    assert(pc * wrap_i32(uy) + p.tx + pa * wrap_i32(ux) == pa * wrap_i32(ux) + (pc * wrap_i32(uy) + p.tx));
    assert(pa * ux + (pc * wrap_i32(uy) + p.tx) == pc * wrap_i32(uy) + (pa * ux + p.tx));
    assert(pb * ux + (pd * wrap_i32(uy) + p.ty) == pd * wrap_i32(uy) + (pb * ux + p.ty));
    assert(qa * mx + qc * my + 1 * wrap_i32(vx) == qa * mx + qc * my + wrap_i32(vx));
}

} // verus!
