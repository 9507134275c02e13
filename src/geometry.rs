//! Fixed-point 2D positions and the chaos-game interpolation rule.
use vstd::prelude::*;
use vstd::arithmetic::div_mod::{lemma_fundamental_div_mod, lemma_mod_pos_bound};

verus! {

/// A position in thousandths of a world unit.
#[derive(Clone, Copy, Debug, PartialEq, Eq, Structural)]
pub struct Point {
    pub x: i32,
    pub y: i32,
}

/// Integer division that rounds toward zero, as Rust's `/` does.
pub open spec fn div_toward_zero(a: int, d: int) -> int {
    if a >= 0 {
        a / d
    } else {
        -((-a) / d)
    }
}

/// One coordinate moved the fraction `num / den` of the way from `o` to `t`;
/// the step is rounded toward zero, so it never overshoots.
pub open spec fn lerp(o: int, t: int, num: int, den: int) -> int {
    o + div_toward_zero((t - o) * num, den)
}

/// A valid interpolation fraction: strictly between zero and one.
pub open spec fn valid_ratio(num: u32, den: u32) -> bool {
    0 < num < den
}

/// The point the fraction `num / den` of the way from `o` to `t`.
pub open spec fn interpolate(o: Point, t: Point, num: int, den: int) -> Point {
    Point {
        x: lerp(o.x as int, t.x as int, num, den) as i32,
        y: lerp(o.y as int, t.y as int, num, den) as i32,
    }
}

pub open spec fn abs(a: int) -> int {
    if a >= 0 {
        a
    } else {
        -a
    }
}

/// Squared Euclidean distance between two points.
pub open spec fn dist2(p: Point, q: Point) -> int {
    (p.x - q.x) * (p.x - q.x) + (p.y - q.y) * (p.y - q.y)
}

/// The step from `o` toward `t` has the sign of `t - o` and the magnitude
/// `floor(|t - o| * num / den)`, which is at most `|t - o|`.
pub(crate) proof fn lemma_step_bounds(o: int, t: int, num: int, den: int)
    requires
        0 < num < den,
    ensures
        abs(div_toward_zero((t - o) * num, den)) == (abs(t - o) * num) / den,
        0 <= (abs(t - o) * num) / den <= abs(t - o),
        den * ((abs(t - o) * num) / den) <= abs(t - o) * num,
        abs(t - o) * num < den * ((abs(t - o) * num) / den) + den,
        t >= o ==> 0 <= div_toward_zero((t - o) * num, den),
        t < o ==> div_toward_zero((t - o) * num, den) <= 0,
        o <= t ==> o <= lerp(o, t, num, den) <= t,
        t < o ==> t <= lerp(o, t, num, den) <= o,
        abs(t - lerp(o, t, num, den)) == abs(t - o) - (abs(t - o) * num) / den,
{
    let a = abs(t - o);
    let p = a * num;
    assert(p >= 0) by (nonlinear_arith)
        requires
            a >= 0,
            num > 0,
            p == a * num,
    ;
    lemma_fundamental_div_mod(p, den);
    lemma_mod_pos_bound(p, den);
    let q = p / den;
    let r = p % den;
    assert(p == den * q + r);
    assert(q >= 0) by (nonlinear_arith)
        requires
            p == den * q + r,
            0 <= r < den,
            p >= 0,
    ;
    assert(a * num <= a * den) by (nonlinear_arith)
        requires
            num < den,
            a >= 0,
    ;
    assert(den * (q - a) <= 0) by (nonlinear_arith)
        requires
            p == den * q + r,
            0 <= r,
            p == a * num,
            a * num <= a * den,
    ;
    assert(q - a <= 0) by (nonlinear_arith)
        requires
            den * (q - a) <= 0,
            den > 0,
    ;
    if t - o >= 0 {
        assert((t - o) * num == p);
    } else {
        assert((t - o) * num == -p) by (nonlinear_arith)
            requires
                a == -(t - o),
                p == a * num,
        ;
    }
}

impl Point {
    /// The origin of the plane.
    pub fn origin() -> (r: Point)
        ensures
            r == (Point { x: 0, y: 0 }),
    {
        Point { x: 0, y: 0 }
    }

    /// The point the fraction `num / den` of the way from `self` toward
    /// `target`, each coordinate's step rounded toward zero.
    pub fn toward(self, target: Point, num: u32, den: u32) -> (r: Point)
        requires
            valid_ratio(num, den),
        ensures
            r == interpolate(self, target, num as int, den as int),
            r.x as int == lerp(self.x as int, target.x as int, num as int, den as int),
            r.y as int == lerp(self.y as int, target.y as int, num as int, den as int),
    {
        proof {
            lemma_step_bounds(self.x as int, target.x as int, num as int, den as int);
            lemma_step_bounds(self.y as int, target.y as int, num as int, den as int);
        }
        let x = lerp_coord(self.x, target.x, num, den);
        let y = lerp_coord(self.y, target.y, num, den);
        Point { x, y }
    }
}

fn lerp_coord(o: i32, t: i32, num: u32, den: u32) -> (r: i32)
    requires
        0 < num < den,
    ensures
        r as int == lerp(o as int, t as int, num as int, den as int),
{
    proof {
        lemma_step_bounds(o as int, t as int, num as int, den as int);
    }
    let diff: i128 = t as i128 - o as i128;
    assert(-0x1_0000_0000 * 0x1_0000_0000 <= diff * (num as i128) <= 0x1_0000_0000 * 0x1_0000_0000) by (nonlinear_arith)
        requires
            -0x1_0000_0000 <= diff <= 0x1_0000_0000,
            0 < num <= 0x1_0000_0000,
    ;
    let prod: i128 = diff * num as i128;
    let step: i128 = if prod >= 0 {
        prod / den as i128
    } else {
        -((-prod) / den as i128)
    };
    (o as i128 + step) as i32
}


/// One coordinate of a step: the remaining offset to the target is the old
/// offset scaled by `1 - num / den`, rounded up to a whole unit.
proof fn lemma_coord_contracts(o: int, t: int, num: int, den: int)
    requires
        0 < num < den,
    ensures
        den * abs(t - lerp(o, t, num, den)) >= (den - num) * abs(t - o),
        den * abs(t - lerp(o, t, num, den)) < (den - num) * abs(t - o) + den,
        (abs(t - o) * num) % den == 0 ==> den * abs(t - lerp(o, t, num, den)) == (den - num)
            * abs(t - o),
        abs(t - lerp(o, t, num, den)) <= abs(t - o),
        abs(t - o) * num >= den ==> abs(t - lerp(o, t, num, den)) < abs(t - o),
{
    lemma_step_bounds(o, t, num, den);
    let a = abs(t - o);
    let q = (a * num) / den;
    lemma_fundamental_div_mod(a * num, den);
    assert(den * (a - q) == den * a - den * q) by (nonlinear_arith);
    assert((den - num) * a == den * a - a * num) by (nonlinear_arith);
    if a * num >= den {
        assert(q >= 1) by (nonlinear_arith)
            requires
                a * num < den * q + den,
                a * num >= den,
                den > 0,
        ;
    }
}

proof fn lemma_square_le(u: int, v: int)
    requires
        0 <= u <= v,
    ensures
        u * u <= v * v,
        u < v ==> u * u < v * v,
{
    assert(u * u <= v * v) by (nonlinear_arith)
        requires
            0 <= u <= v,
    ;
    if u < v {
        assert(u * u < v * v) by (nonlinear_arith)
            requires
                0 <= u < v,
        ;
    }
}

/// A step toward a target shrinks each coordinate's offset to the target by
/// the factor `1 - num / den`: exactly where the step is a whole number of
/// units, and otherwise rounded up by less than one unit. The distance to the
/// target never grows, and shrinks strictly once the step is at least one unit
/// along some axis.
pub proof fn lemma_interpolation_contracts(o: Point, t: Point, num: u32, den: u32)
    requires
        valid_ratio(num, den),
    ensures
        ({
            let n = interpolate(o, t, num as int, den as int);
            let (dx, dy) = (abs(t.x - o.x), abs(t.y - o.y));
            &&& den * abs(t.x - n.x) >= (den - num) * dx
            &&& den * abs(t.x - n.x) < (den - num) * dx + den
            &&& den * abs(t.y - n.y) >= (den - num) * dy
            &&& den * abs(t.y - n.y) < (den - num) * dy + den
            &&& (dx * num) % (den as int) == 0 ==> den * abs(t.x - n.x) == (den - num) * dx
            &&& (dy * num) % (den as int) == 0 ==> den * abs(t.y - n.y) == (den - num) * dy
            &&& dist2(n, t) <= dist2(o, t)
            &&& (dx * num >= den || dy * num >= den) ==> dist2(n, t) < dist2(o, t)
        }),
{
    let (num, den) = (num as int, den as int);
    lemma_step_bounds(o.x as int, t.x as int, num, den);
    lemma_step_bounds(o.y as int, t.y as int, num, den);
    lemma_coord_contracts(o.x as int, t.x as int, num, den);
    lemma_coord_contracts(o.y as int, t.y as int, num, den);
    let n = interpolate(o, t, num, den);
    assert(n.x == lerp(o.x as int, t.x as int, num, den));
    assert(n.y == lerp(o.y as int, t.y as int, num, den));
    let (ux, vx) = (abs(t.x - n.x), abs(t.x - o.x));
    let (uy, vy) = (abs(t.y - n.y), abs(t.y - o.y));
    lemma_square_le(ux, vx);
    lemma_square_le(uy, vy);
    assert((n.x - t.x) * (n.x - t.x) == ux * ux) by (nonlinear_arith)
        requires
            ux == abs(t.x - n.x),
    ;
    assert((n.y - t.y) * (n.y - t.y) == uy * uy) by (nonlinear_arith)
        requires
            uy == abs(t.y - n.y),
    ;
    assert((o.x - t.x) * (o.x - t.x) == vx * vx) by (nonlinear_arith)
        requires
            vx == abs(t.x - o.x),
    ;
    assert((o.y - t.y) * (o.y - t.y) == vy * vy) by (nonlinear_arith)
        requires
            vy == abs(t.y - o.y),
    ;
}

} // verus!
