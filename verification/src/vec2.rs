//! Two-dimensional fixed-point vectors.
//!
//! [`Vec2`] is what the simulation stores; [`Wide`] carries exact intermediate
//! results; [`Offset`] is the mathematical vector both stand for in contracts.

use vstd::prelude::*;
use crate::fixed::{
    ceil_sqrt, div_away_from_zero, div_toward_zero, floor_sqrt, isqrt, isqrt_up,
    lemma_div_away_from_zero_bounds, lemma_div_toward_zero_bounds, lemma_product_bound, quotient,
    quotient_up, saturate, saturate_i32, scale, scaled, SQUARE_LIMIT, SUM_LIMIT,
};

verus! {

/// Largest magnitude of a coordinate difference of two stored vectors.
pub const SPAN: i128 = 0x1_0000_0000;

/// Largest length that a vector can be asked to take.
pub const LENGTH_LIMIT: i128 = 0x4000_0000_0000_0000;

/// A stored vector: a position, a velocity or an offset.
#[derive(Clone, Copy, PartialEq, Eq, Structural, Debug)]
pub struct Vec2 {
    pub x: i32,
    pub y: i32,
}

/// An exact integer vector, as contracts speak of it.
pub struct Offset {
    pub x: int,
    pub y: int,
}

/// An exact intermediate vector.
#[derive(Clone, Copy, Debug)]
pub struct Wide {
    pub x: i128,
    pub y: i128,
}

impl Offset {
    /// The zero vector.
    pub open spec fn zero() -> Offset {
        Offset { x: 0, y: 0 }
    }

    /// Component-wise sum.
    pub open spec fn plus(self, other: Offset) -> Offset {
        Offset { x: self.x + other.x, y: self.y + other.y }
    }

    /// Component-wise difference.
    pub open spec fn minus(self, other: Offset) -> Offset {
        Offset { x: self.x - other.x, y: self.y - other.y }
    }

    /// The opposite vector.
    pub open spec fn negated(self) -> Offset {
        Offset { x: -self.x, y: -self.y }
    }

    /// Scalar product.
    pub open spec fn dot(self, other: Offset) -> int {
        self.x * other.x + self.y * other.y
    }

    /// Squared Euclidean length.
    pub open spec fn len2(self) -> int {
        self.x * self.x + self.y * self.y
    }

    /// Both components multiplied by a fixed-point factor.
    pub open spec fn scaled(self, factor: int) -> Offset {
        Offset { x: scale(self.x, factor), y: scale(self.y, factor) }
    }

    /// Both components divided by a positive count, rounded toward zero.
    pub open spec fn divided(self, count: int) -> Offset {
        Offset { x: div_toward_zero(self.x, count), y: div_toward_zero(self.y, count) }
    }

    /// The vector along `self` whose length is `length`, rounded toward zero;
    /// the zero vector has no direction and stays zero.
    pub open spec fn shrunk_to(self, length: int) -> Offset {
        if self.len2() == 0 {
            Offset::zero()
        } else {
            Offset {
                x: div_toward_zero(self.x * length, ceil_sqrt(self.len2())),
                y: div_toward_zero(self.y * length, ceil_sqrt(self.len2())),
            }
        }
    }

    /// The vector along `self` whose length is `length`, rounded away from
    /// zero; the zero vector has no direction and stays zero.
    pub open spec fn stretched_to(self, length: int) -> Offset {
        if self.len2() == 0 {
            Offset::zero()
        } else {
            Offset {
                x: div_away_from_zero(self.x * length, floor_sqrt(self.len2())),
                y: div_away_from_zero(self.y * length, floor_sqrt(self.len2())),
            }
        }
    }

    /// Whether both components lie within `limit` of zero.
    pub open spec fn within(self, limit: int) -> bool {
        -limit <= self.x <= limit && -limit <= self.y <= limit
    }
}

impl Vec2 {
    /// The exact vector that `self` stores.
    pub open spec fn exact(self) -> Offset {
        Offset { x: self.x as int, y: self.y as int }
    }

    /// The offset that leads from `self` to `target`.
    pub open spec fn to(self, target: Vec2) -> Offset {
        target.exact().minus(self.exact())
    }

    /// Squared Euclidean distance between two stored vectors.
    pub open spec fn dist2(self, other: Vec2) -> int {
        self.to(other).len2()
    }

    /// `self` displaced by `d`, each coordinate clamped into the stored range.
    pub open spec fn moved_by(self, d: Offset) -> Vec2 {
        Vec2 { x: saturate(self.x + d.x) as i32, y: saturate(self.y + d.y) as i32 }
    }

    /// The zero vector.
    pub open spec fn zero_vector() -> Vec2 {
        Vec2 { x: 0, y: 0 }
    }

    /// The zero vector.
    pub fn zero() -> (v: Vec2)
        ensures
            v == Vec2::zero_vector(),
    {
        Vec2 { x: 0, y: 0 }
    }

    /// The vector with the given coordinates.
    pub fn new(x: i32, y: i32) -> (v: Vec2)
        ensures
            v.x == x,
            v.y == y,
    {
        Vec2 { x, y }
    }

    /// The stored vector as an exact one.
    pub fn widen(&self) -> (w: Wide)
        ensures
            w@ == self.exact(),
    {
        Wide { x: self.x as i128, y: self.y as i128 }
    }

    /// The offset that leads from `self` to `target`.
    pub fn offset_to(&self, target: &Vec2) -> (d: Wide)
        ensures
            d@ == self.to(*target),
            d@.within(SPAN as int),
    {
        Wide { x: target.x as i128 - self.x as i128, y: target.y as i128 - self.y as i128 }
    }

    /// Squared Euclidean distance to `other`.
    pub fn distance_squared(&self, other: &Vec2) -> (d: i128)
        ensures
            d == self.dist2(*other),
            0 <= d < SQUARE_LIMIT,
    {
        self.offset_to(other).length_squared()
    }

    /// Squared Euclidean length.
    pub fn length_squared(&self) -> (d: i128)
        ensures
            d == self.exact().len2(),
            0 <= d < SQUARE_LIMIT,
    {
        self.widen().length_squared()
    }

    /// `self` displaced by `d`, each coordinate clamped into the stored range.
    pub fn shifted(&self, d: &Wide) -> (v: Vec2)
        requires
            d@.within(i128::MAX - 0x8000_0000),
        ensures
            v == self.moved_by(d@),
    {
        Vec2 { x: saturate_i32(self.x as i128 + d.x), y: saturate_i32(self.y as i128 + d.y) }
    }
}

impl View for Wide {
    type V = Offset;

    open spec fn view(&self) -> Offset {
        Offset { x: self.x as int, y: self.y as int }
    }
}

impl Wide {
    /// The zero vector.
    pub fn zero() -> (w: Wide)
        ensures
            w@ == Offset::zero(),
    {
        Wide { x: 0, y: 0 }
    }

    /// Squared Euclidean length.
    pub fn length_squared(&self) -> (d: i128)
        requires
            self@.within(SPAN as int),
        ensures
            d == self@.len2(),
            0 <= d < SQUARE_LIMIT,
    {
        proof {
            lemma_product_bound(self.x as int, self.x as int, SPAN as int, SPAN as int);
            lemma_product_bound(self.y as int, self.y as int, SPAN as int, SPAN as int);
            lemma_square_nonnegative(self.x as int);
            lemma_square_nonnegative(self.y as int);
            assert(SPAN * SPAN + SPAN * SPAN < SQUARE_LIMIT);
        }
        self.x * self.x + self.y * self.y
    }

    /// Component-wise sum.
    pub fn plus(&self, other: &Wide) -> (w: Wide)
        requires
            self@.within(i128::MAX / 2),
            other@.within(i128::MAX / 2),
        ensures
            w@ == self@.plus(other@),
    {
        Wide { x: self.x + other.x, y: self.y + other.y }
    }

    /// The opposite vector.
    pub fn negated(&self) -> (w: Wide)
        requires
            self@.within(i128::MAX as int),
        ensures
            w@ == self@.negated(),
    {
        Wide { x: -self.x, y: -self.y }
    }

    /// Both components multiplied by a fixed-point factor.
    pub fn scaled(&self, factor: i32) -> (w: Wide)
        requires
            self@.within(SUM_LIMIT as int),
        ensures
            w@ == self@.scaled(factor as int),
            w@.within(SUM_LIMIT * 0x8000_0000),
            self@.within(SPAN as int) ==> w@.within(0x8000_0000_0000_0000),
    {
        Wide { x: scaled(self.x, factor), y: scaled(self.y, factor) }
    }

    /// Both components divided by a positive count, rounded toward zero.
    pub fn divided(&self, count: i128) -> (w: Wide)
        requires
            count > 0,
        ensures
            w@ == self@.divided(count as int),
            forall|limit: int| self@.within(limit) ==> w@.within(limit),
    {
        Wide { x: quotient(self.x, count), y: quotient(self.y, count) }
    }

    /// The vector along `self` whose length is `length`, rounded toward zero.
    pub fn shrunk_to(&self, length: i128) -> (w: Wide)
        requires
            self@.within(SPAN as int),
            0 <= length <= LENGTH_LIMIT,
        ensures
            w@ == self@.shrunk_to(length as int),
            w@.within(length as int),
    {
        let n = self.length_squared();
        if n == 0 {
            return Wide::zero();
        }
        let root = isqrt_up(n);
        proof {
            lemma_product_bound(self.x as int, length as int, SPAN as int, LENGTH_LIMIT as int);
            lemma_product_bound(self.y as int, length as int, SPAN as int, LENGTH_LIMIT as int);
            lemma_shrunk_within(self@, length as int);
        }
        Wide { x: quotient(self.x * length, root), y: quotient(self.y * length, root) }
    }

    /// The vector along `self` whose length is `length`, rounded away from
    /// zero.
    pub fn stretched_to(&self, length: i128) -> (w: Wide)
        requires
            self@.within(SPAN as int),
            0 <= length <= LENGTH_LIMIT,
        ensures
            w@ == self@.stretched_to(length as int),
            w@.within(SPAN * LENGTH_LIMIT),
    {
        let n = self.length_squared();
        if n == 0 {
            return Wide::zero();
        }
        let root = isqrt(n);
        proof {
            lemma_product_bound(self.x as int, length as int, SPAN as int, LENGTH_LIMIT as int);
            lemma_product_bound(self.y as int, length as int, SPAN as int, LENGTH_LIMIT as int);
        }
        Wide { x: quotient_up(self.x * length, root), y: quotient_up(self.y * length, root) }
    }
}

/// The squared distance is the same in both directions.
pub proof fn lemma_dist2_symmetric(a: Vec2, b: Vec2)
    ensures
        a.dist2(b) == b.dist2(a),
{
    assert((b.x - a.x) * (b.x - a.x) == (a.x - b.x) * (a.x - b.x)) by (nonlinear_arith);
    assert((b.y - a.y) * (b.y - a.y) == (a.y - b.y) * (a.y - b.y)) by (nonlinear_arith);
}

/// A square is never negative.
pub proof fn lemma_square_nonnegative(a: int)
    by (nonlinear_arith)
    ensures
        a * a >= 0,
{
}

/// A vector is zero exactly when its squared length is.
pub proof fn lemma_len2_zero(d: Offset)
    by (nonlinear_arith)
    ensures
        d.len2() >= 0,
        d.len2() == 0 <==> (d.x == 0 && d.y == 0),
{
}

/// The square of a product is the product of the squares.
proof fn lemma_square_of_product(a: int, b: int)
    by (nonlinear_arith)
    ensures
        (a * b) * (a * b) == (a * a) * (b * b),
{
}

/// A positive common factor can be cancelled from an inequality.
proof fn lemma_cancel_factor(s: int, m: int, r: int)
    by (nonlinear_arith)
    requires
        r > 0,
        s * r <= m * r,
    ensures
        s <= m,
{
}

/// Multiplying by a non-negative factor keeps an inequality.
proof fn lemma_scale_inequality(x: int, y: int, m: int)
    by (nonlinear_arith)
    requires
        x <= y,
        m >= 0,
    ensures
        x * m <= y * m,
{
}

/// Multiplication distributes over a sum.
proof fn lemma_distribute(a: int, b: int, r: int)
    by (nonlinear_arith)
    ensures
        (a + b) * r == a * r + b * r,
{
}

/// If `|p| * root <= |c| * length` for both components, the squared length of
/// `(px, py)` is at most `length` squared, given that `root` squared reaches
/// the squared length of `(cx, cy)`.
proof fn lemma_length_upper(px: int, py: int, cx: int, cy: int, length: int, root: int)
    requires
        root > 0,
        length >= 0,
        cx * cx + cy * cy <= root * root,
        (px * root) * (px * root) <= (cx * length) * (cx * length),
        (py * root) * (py * root) <= (cy * length) * (cy * length),
    ensures
        px * px + py * py <= length * length,
{
    let r2 = root * root;
    let m2 = length * length;
    lemma_square_of_product(px, root);
    lemma_square_of_product(py, root);
    lemma_square_of_product(cx, length);
    lemma_square_of_product(cy, length);
    lemma_square_nonnegative(length);
    lemma_distribute(px * px, py * py, r2);
    lemma_distribute(cx * cx, cy * cy, m2);
    lemma_scale_inequality(cx * cx + cy * cy, r2, m2);
    assert(r2 > 0) by (nonlinear_arith)
        requires
            root > 0,
            r2 == root * root,
    ;
    assert((px * px + py * py) * r2 <= m2 * r2) by (nonlinear_arith)
        requires
            (px * px + py * py) * r2 <= r2 * m2,
    ;
    lemma_cancel_factor(px * px + py * py, m2, r2);
}

/// If `|p| * root >= |c| * length` for both components, the squared length of
/// `(px, py)` is at least `length` squared, given that `root` squared stays
/// within the squared length of `(cx, cy)`.
proof fn lemma_length_lower(px: int, py: int, cx: int, cy: int, length: int, root: int)
    requires
        root > 0,
        length >= 0,
        cx * cx + cy * cy >= root * root,
        (px * root) * (px * root) >= (cx * length) * (cx * length),
        (py * root) * (py * root) >= (cy * length) * (cy * length),
    ensures
        px * px + py * py >= length * length,
{
    let r2 = root * root;
    let m2 = length * length;
    lemma_square_of_product(px, root);
    lemma_square_of_product(py, root);
    lemma_square_of_product(cx, length);
    lemma_square_of_product(cy, length);
    lemma_square_nonnegative(length);
    lemma_distribute(px * px, py * py, r2);
    lemma_distribute(cx * cx, cy * cy, m2);
    lemma_scale_inequality(r2, cx * cx + cy * cy, m2);
    assert(r2 > 0) by (nonlinear_arith)
        requires
            root > 0,
            r2 == root * root,
    ;
    assert(m2 * r2 <= (px * px + py * py) * r2) by (nonlinear_arith)
        requires
            r2 * m2 <= (px * px + py * py) * r2,
    ;
    lemma_cancel_factor(m2, px * px + py * py, r2);
}

/// The square of a quotient rounded toward zero, times the square of the
/// divisor, stays within the square of the dividend.
proof fn lemma_toward_zero_square(a: int, b: int)
    by (nonlinear_arith)
    requires
        b > 0,
    ensures
        (div_toward_zero(a, b) * b) * (div_toward_zero(a, b) * b) <= a * a,
{
    lemma_div_toward_zero_bounds(a, b);
}

/// The square of a quotient rounded away from zero, times the square of the
/// divisor, reaches the square of the dividend.
proof fn lemma_away_from_zero_square(a: int, b: int)
    by (nonlinear_arith)
    requires
        b > 0,
    ensures
        (div_away_from_zero(a, b) * b) * (div_away_from_zero(a, b) * b) >= a * a,
{
    lemma_div_away_from_zero_bounds(a, b);
}

/// The integer square roots of a positive number are positive and bracket it.
pub proof fn lemma_roots_bracket(n: int)
    requires
        n > 0,
    ensures
        floor_sqrt(n) > 0,
        floor_sqrt(n) * floor_sqrt(n) <= n,
        ceil_sqrt(n) > 0,
        ceil_sqrt(n) * ceil_sqrt(n) >= n,
        ceil_sqrt(n) <= n,
{
    lemma_floor_sqrt_exists(n);
    let f = floor_sqrt(n);
    assert(crate::fixed::is_floor_sqrt(n, f));
    if f == 0 {
        assert((f + 1) * (f + 1) == 1) by (nonlinear_arith)
            requires
                f == 0,
        ;
    }
    assert((f + 1) * (f + 1) == f * f + 2 * f + 1) by (nonlinear_arith);
    assert(f * f >= f) by (nonlinear_arith)
        requires
            f >= 1,
    ;
    if f * f != n {
        assert(f + 1 <= n) by (nonlinear_arith)
            requires
                f >= 1,
                f * f < n,
        ;
    }
}

/// Every non-negative integer has a floor square root.
pub proof fn lemma_floor_sqrt_exists(n: int)
    requires
        n >= 0,
    ensures
        crate::fixed::is_floor_sqrt(n, floor_sqrt(n)),
    decreases n,
{
    if n == 0 {
        assert(crate::fixed::is_floor_sqrt(0, 0));
    } else {
        lemma_floor_sqrt_exists(n - 1);
        let r = floor_sqrt(n - 1);
        assert(crate::fixed::is_floor_sqrt(n - 1, r));
        if n < (r + 1) * (r + 1) {
            assert(crate::fixed::is_floor_sqrt(n, r));
        } else {
            assert((r + 2) * (r + 2) > (r + 1) * (r + 1)) by (nonlinear_arith)
                requires
                    r >= 0,
            ;
            assert(crate::fixed::is_floor_sqrt(n, r + 1));
        }
    }
}

/// A vector shrunk to a length is no longer than that length, and each of its
/// components keeps its sign and stays within the length.
pub proof fn lemma_shrunk_within(d: Offset, length: int)
    requires
        length >= 0,
    ensures
        d.shrunk_to(length).len2() <= length * length,
        d.shrunk_to(length).within(length),
        d.x >= 0 ==> d.shrunk_to(length).x >= 0,
        d.x <= 0 ==> d.shrunk_to(length).x <= 0,
        d.y >= 0 ==> d.shrunk_to(length).y >= 0,
        d.y <= 0 ==> d.shrunk_to(length).y <= 0,
{
    lemma_len2_zero(d);
    lemma_square_nonnegative(length);
    if d.len2() != 0 {
        let n = d.len2();
        lemma_roots_bracket(n);
        let root = ceil_sqrt(n);
        let s = d.shrunk_to(length);
        lemma_toward_zero_square(d.x * length, root);
        lemma_toward_zero_square(d.y * length, root);
        lemma_length_upper(s.x, s.y, d.x, d.y, length, root);
        lemma_div_toward_zero_bounds(d.x * length, root);
        lemma_div_toward_zero_bounds(d.y * length, root);
        lemma_square_nonnegative(s.x);
        lemma_square_nonnegative(s.y);
        lemma_component_within(s.x, s.y, length);
        lemma_component_within(s.y, s.x, length);
        assert(d.x >= 0 ==> d.x * length >= 0) by (nonlinear_arith)
            requires
                length >= 0,
        ;
        assert(d.x <= 0 ==> d.x * length <= 0) by (nonlinear_arith)
            requires
                length >= 0,
        ;
        assert(d.y >= 0 ==> d.y * length >= 0) by (nonlinear_arith)
            requires
                length >= 0,
        ;
        assert(d.y <= 0 ==> d.y * length <= 0) by (nonlinear_arith)
            requires
                length >= 0,
        ;
    }
}

/// A component of a vector is no larger than the vector's length.
proof fn lemma_component_within(a: int, b: int, length: int)
    by (nonlinear_arith)
    requires
        length >= 0,
        a * a + b * b <= length * length,
    ensures
        -length <= a <= length,
{
}

/// A non-zero vector stretched to a length is at least that long.
pub proof fn lemma_stretched_reaches(d: Offset, length: int)
    requires
        length >= 0,
        d.len2() != 0,
    ensures
        d.stretched_to(length).len2() >= length * length,
{
    lemma_len2_zero(d);
    let n = d.len2();
    lemma_roots_bracket(n);
    let root = floor_sqrt(n);
    let s = d.stretched_to(length);
    lemma_away_from_zero_square(d.x * length, root);
    lemma_away_from_zero_square(d.y * length, root);
    lemma_length_lower(s.x, s.y, d.x, d.y, length, root);
}

/// A coordinate is no larger than the floor square root of the squared length.
proof fn lemma_component_within_root(a: int, b: int, root: int)
    by (nonlinear_arith)
    requires
        root >= 0,
        a * a + b * b < (root + 1) * (root + 1),
    ensures
        -root <= a <= root,
{
}

/// A dividend within `length` times the divisor gives a quotient within
/// `length`, however it is rounded.
proof fn lemma_quotient_within(c: int, length: int, root: int)
    by (nonlinear_arith)
    requires
        root > 0,
        length >= 0,
        -root <= c <= root,
    ensures
        -length <= div_away_from_zero(c * length, root) <= length,
        c >= 0 ==> div_away_from_zero(c * length, root) >= 0,
        c <= 0 ==> div_away_from_zero(c * length, root) <= 0,
{
    lemma_div_away_from_zero_bounds(c * length, root);
}

/// Each component of a stretched vector keeps its sign and stays within the
/// length: the vector is at most `length` times the square root of two long.
pub proof fn lemma_stretched_within(d: Offset, length: int)
    requires
        length >= 0,
    ensures
        d.stretched_to(length).within(length),
        d.x >= 0 ==> d.stretched_to(length).x >= 0,
        d.x <= 0 ==> d.stretched_to(length).x <= 0,
        d.y >= 0 ==> d.stretched_to(length).y >= 0,
        d.y <= 0 ==> d.stretched_to(length).y <= 0,
        d.stretched_to(length).len2() <= 2 * (length * length),
{
    lemma_len2_zero(d);
    lemma_square_nonnegative(length);
    if d.len2() != 0 {
        let n = d.len2();
        lemma_floor_sqrt_exists(n);
        lemma_roots_bracket(n);
        let root = floor_sqrt(n);
        lemma_component_within_root(d.x, d.y, root);
        lemma_component_within_root(d.y, d.x, root);
        lemma_quotient_within(d.x, length, root);
        lemma_quotient_within(d.y, length, root);
        let s = d.stretched_to(length);
        assert(s.x * s.x <= length * length) by (nonlinear_arith)
            requires
                -length <= s.x <= length,
        ;
        assert(s.y * s.y <= length * length) by (nonlinear_arith)
            requires
                -length <= s.y <= length,
        ;
    }
}

} // verus!
